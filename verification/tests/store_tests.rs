//! Tests for archive building, the registry, deletion, purging,
//! extraction, the hierarchy and the command interpreter.

use std::io::Write;

use foldr::archive::{Member, ZipUtil};
use foldr::commands::command::{
    run, Command, RunInputs, RunOutcome, StoreError,
};
use foldr::commands::delete::DeleteCommand;
use foldr::commands::list::ListCommand;
use foldr::commands::purge::{purge_plan, PurgeCommand};
use foldr::commands::save::SaveCommand;
use foldr::commands::show::ShowCommand;
use foldr::commands::update::UpdateCommand;
use foldr::config::Config;
use foldr::network::NetworkUtil;
use foldr::templates::{
    Template, TemplateHierarchy, TemplateInfo, StoredFile,
};

fn test_config() -> Config {
    Config {
        template_dir: "/tmp/store".to_string(),
        use_cache: false,
        require_https: false,
    }
}

fn member(path: &str, data: &[u8]) -> Member {
    Member {
        path: path.to_string(),
        data: data.to_vec(),
    }
}

fn demo_entries() -> Vec<Member> {
    vec![
        member("a/", b""),
        member("a/b.txt", b"bee"),
        member("a/c.txt", b"sea"),
        member("d.txt", b"dee"),
    ]
}

fn saved_file(name: &str, iteration: u64, entries: &Vec<Member>) -> StoredFile {
    let config = test_config();
    let (template, data) = Template::save(&config, entries, name, iteration).unwrap();
    StoredFile {
        filename: template.filename.clone(),
        data,
    }
}

#[test]
fn save_members_are_manifest_plus_tree() {
    let config = test_config();
    let entries = demo_entries();
    let (template, data) = Template::save(&config, &entries, "proj", 1).unwrap();
    assert_eq!(template.info.name, "proj");
    assert_eq!(template.info.iteration, 1);
    assert_eq!(template.filesize as usize, data.len());

    let members = ZipUtil::unpack(&data).unwrap();
    assert_eq!(members.len(), 5);
    assert_eq!(members[0].path, ".foldr-manifest");
    let manifest: serde_json::Value =
        serde_json::from_slice(&members[0].data).unwrap();
    assert_eq!(manifest["name"].as_str().unwrap(), "proj");
    assert_eq!(manifest["iteration"].as_u64().unwrap(), 1);
    assert_eq!(members[1].path, "a/");
    assert_eq!(members[1].data, b"");
    assert_eq!(members[2].path, "a/b.txt");
    assert_eq!(members[2].data, b"bee");
    assert_eq!(members[3].path, "a/c.txt");
    assert_eq!(members[3].data, b"sea");
    assert_eq!(members[4].path, "d.txt");
    assert_eq!(members[4].data, b"dee");
}

#[test]
fn archive_paths_are_deterministic_and_distinct() {
    let config = test_config();
    let a1 = TemplateInfo::new("alpha".to_string(), 2).generate_output_path(&config);
    let a2 = TemplateInfo::new("alpha".to_string(), 2).generate_output_path(&config);
    let b = TemplateInfo::new("beta".to_string(), 2).generate_output_path(&config);
    assert_eq!(a1, a2);
    assert_ne!(a1, b);
    let raw = <sha2::Sha256 as sha2::Digest>::digest("alpha".as_bytes());
    let hex: String = raw.iter().map(|b| format!("{:02x}", b)).collect();
    let expected = format!("/tmp/store/{}-2.foldr", hex);
    assert_eq!(a1, expected);
}

#[test]
fn list_all_orders_by_name_then_iteration_descending() {
    let entries = demo_entries();
    let store = vec![
        saved_file("A", 1, &entries),
        saved_file("B", 2, &entries),
        saved_file("A", 3, &entries),
    ];
    let ts = Template::get_existing(&store).unwrap();
    let got: Vec<(String, u64)> = ts
        .iter()
        .map(|t| (t.info.name.clone(), t.info.iteration))
        .collect();
    assert_eq!(
        got,
        vec![
            ("A".to_string(), 3),
            ("A".to_string(), 1),
            ("B".to_string(), 2),
        ]
    );
}

#[test]
fn find_by_name_returns_highest_iteration() {
    let entries = demo_entries();
    let store = vec![
        saved_file("A", 1, &entries),
        saved_file("A", 3, &entries),
        saved_file("B", 2, &entries),
    ];
    let best = Template::get_existing_by_name(&store, "A").unwrap().unwrap();
    assert_eq!(best.info.iteration, 3);
    assert!(Template::get_existing_by_name(&store, "C").unwrap().is_none());
    let exact = Template::get_existing_by_name_and_iteration(&store, "A", 1)
        .unwrap()
        .unwrap();
    assert_eq!(exact.info.iteration, 1);
    assert!(Template::get_existing_by_name_and_iteration(&store, "A", 2)
        .unwrap()
        .is_none());
}

#[test]
fn ingest_rejects_escaping_member() {
    let mut w = zip::ZipWriter::new(std::io::Cursor::new(Vec::new()));
    w.start_file("fine.txt", zip::write::SimpleFileOptions::default())
        .unwrap();
    w.write_all(b"ok").unwrap();
    w.start_file("../../evil", zip::write::SimpleFileOptions::default())
        .unwrap();
    w.write_all(b"boom").unwrap();
    let stream = w.finish().unwrap().into_inner();

    let config = test_config();
    let remove = vec![".foldr-manifest".to_string()];
    let result = Template::store(&config, "victim", 1, &stream, &remove);
    assert_eq!(result.err().unwrap(), StoreError::SecurityError);
}

#[test]
fn ingest_replaces_manifest_and_keeps_members() {
    let entries = demo_entries();
    let config = test_config();
    let (_, original) = Template::save(&config, &entries, "old-name", 7).unwrap();

    let remove = vec![".foldr-manifest".to_string()];
    let (template, data) = Template::store(&config, "new-name", 2, &original, &remove).unwrap();
    assert_eq!(template.info.name, "new-name");
    assert_eq!(template.info.iteration, 2);

    let members = ZipUtil::unpack(&data).unwrap();
    // the copied tree first, the fresh manifest last; the old manifest
    // is gone
    assert_eq!(members.len(), 5);
    assert_eq!(members[0].path, "a/");
    assert_eq!(members[3].path, "d.txt");
    assert_eq!(members[4].path, ".foldr-manifest");
    let manifest: serde_json::Value =
        serde_json::from_slice(&members[4].data).unwrap();
    assert_eq!(manifest["name"].as_str().unwrap(), "new-name");
    assert_eq!(manifest["iteration"].as_u64().unwrap(), 2);
}

#[test]
fn spawn_reproduces_saved_tree_without_manifest() {
    let entries = demo_entries();
    let config = test_config();
    let (_, data) = Template::save(&config, &entries, "proj", 4).unwrap();
    let members = Template::spawn(&data).unwrap();
    assert_eq!(members.len(), 4);
    for (got, want) in members.iter().zip(entries.iter()) {
        assert_eq!(got.path, want.path);
        assert_eq!(got.data, want.data);
        assert_ne!(got.path, ".foldr-manifest");
    }
}

#[test]
fn hierarchy_from_sorted_paths() {
    let paths = vec![
        "a/b.txt".to_string(),
        "a/c.txt".to_string(),
        "d.txt".to_string(),
    ];
    let root = TemplateHierarchy::from_paths("T".to_string(), &paths);
    assert_eq!(root.path, "T");
    assert_eq!(root.children.len(), 2);
    assert_eq!(root.children[0].path, "a");
    assert_eq!(root.children[0].children.len(), 2);
    assert_eq!(root.children[0].children[0].path, "a/b.txt");
    assert_eq!(root.children[0].children[0].children.len(), 0);
    assert_eq!(root.children[0].children[1].path, "a/c.txt");
    assert_eq!(root.children[1].path, "d.txt");
    assert_eq!(root.children[1].children.len(), 0);
}

#[test]
fn hierarchy_of_saved_archive() {
    let entries = demo_entries();
    let config = test_config();
    let (template, data) = Template::save(&config, &entries, "T", 1).unwrap();
    let root = template.get_content_hierarchy(&data).unwrap();
    assert_eq!(root.path, "T");
    assert_eq!(root.children.len(), 2);
    assert_eq!(root.children[0].path, "a");
    assert_eq!(root.children[1].path, "d.txt");
}

#[test]
fn purge_removes_all_but_highest() {
    let entries = demo_entries();
    let store = vec![
        saved_file("X", 1, &entries),
        saved_file("X", 2, &entries),
        saved_file("X", 3, &entries),
    ];
    let ts = Template::get_existing(&store).unwrap();
    let (files, count) = purge_plan(&ts, &None);
    assert_eq!(count, 2);
    let keep = TemplateInfo::new("X".to_string(), 3)
        .generate_output_path(&test_config());
    for f in &files {
        assert_ne!(*f, keep);
    }

    let cmd = Command::Purge(PurgeCommand {
        template_name: None,
    });
    let inputs = RunInputs {
        dir_entries: None,
        fetched: None,
    };
    match run(&cmd, &test_config(), &store, &inputs).unwrap() {
        RunOutcome::Purged { files, count } => {
            assert_eq!(count, 2);
            assert_eq!(files.len(), 2);
        }
        _ => panic!("expected a purge outcome"),
    }
}

#[test]
fn purge_with_nothing_to_remove_is_an_error() {
    let entries = demo_entries();
    let store = vec![
        saved_file("X", 3, &entries),
        saved_file("Y", 1, &entries),
    ];
    let cmd = Command::Purge(PurgeCommand {
        template_name: None,
    });
    let inputs = RunInputs {
        dir_entries: None,
        fetched: None,
    };
    assert!(run(&cmd, &test_config(), &store, &inputs).is_err());
}

#[test]
fn delete_missing_iteration_reports_not_found() {
    let entries = demo_entries();
    let store = vec![saved_file("A", 1, &entries)];
    let (found, files) =
        Template::delete_by_name_and_iteration(&store, "A", 9).unwrap();
    assert!(!found);
    assert!(files.is_empty());
    let (found, files) = Template::delete_by_name(&store, "missing").unwrap();
    assert!(!found);
    assert!(files.is_empty());
}

#[test]
fn delete_by_name_plans_every_iteration() {
    let entries = demo_entries();
    let store = vec![
        saved_file("A", 1, &entries),
        saved_file("B", 2, &entries),
        saved_file("A", 3, &entries),
    ];
    let (found, files) = Template::delete_by_name(&store, "A").unwrap();
    assert!(found);
    assert_eq!(files.len(), 2);
    assert_eq!(files[0], store[0].filename);
    assert_eq!(files[1], store[2].filename);

    let cmd = Command::Delete(DeleteCommand {
        template_name: "missing".to_string(),
        iteration: None,
    });
    let inputs = RunInputs {
        dir_entries: None,
        fetched: None,
    };
    assert!(run(&cmd, &test_config(), &store, &inputs).is_err());
}

#[test]
fn corrupt_archive_surfaces_as_error() {
    let store = vec![StoredFile {
        filename: "junk.foldr".to_string(),
        data: b"this is no archive".to_vec(),
    }];
    assert_eq!(
        Template::get_existing(&store).err().unwrap(),
        StoreError::ArchiveFormatError
    );
}

#[test]
fn unreadable_manifest_surfaces_as_error() {
    // an archive with a manifest member that is not a manifest document
    let mut w = zip::ZipWriter::new(std::io::Cursor::new(Vec::new()));
    w.start_file(".foldr-manifest", zip::write::SimpleFileOptions::default())
        .unwrap();
    w.write_all(b"not json at all").unwrap();
    let data = w.finish().unwrap().into_inner();
    let store = vec![StoredFile {
        filename: "bad.foldr".to_string(),
        data,
    }];
    assert_eq!(
        Template::get_existing(&store).err().unwrap(),
        StoreError::SerializationError
    );

    // an archive with no manifest member at all
    let mut w = zip::ZipWriter::new(std::io::Cursor::new(Vec::new()));
    w.start_file("only.txt", zip::write::SimpleFileOptions::default())
        .unwrap();
    w.write_all(b"x").unwrap();
    let data = w.finish().unwrap().into_inner();
    let store = vec![StoredFile {
        filename: "nomanifest.foldr".to_string(),
        data,
    }];
    assert_eq!(
        Template::get_existing(&store).err().unwrap(),
        StoreError::ArchiveFormatError
    );
}

#[test]
fn save_command_walks_then_writes() {
    let entries = demo_entries();
    let config = test_config();
    let store: Vec<StoredFile> = Vec::new();
    let cmd = Command::Save(SaveCommand {
        directory: "./src-dir".to_string(),
        name: "fresh".to_string(),
    });
    let inputs = RunInputs {
        dir_entries: None,
        fetched: None,
    };
    match run(&cmd, &config, &store, &inputs).unwrap() {
        RunOutcome::NeedsDirectory { directory } => assert_eq!(directory, "./src-dir"),
        _ => panic!("expected a directory request"),
    }
    let inputs = RunInputs {
        dir_entries: Some(entries),
        fetched: None,
    };
    match run(&cmd, &config, &store, &inputs).unwrap() {
        RunOutcome::Wrote { template, path, data } => {
            assert_eq!(template.info.name, "fresh");
            assert_eq!(template.info.iteration, 1);
            let expected = TemplateInfo::new("fresh".to_string(), 1)
                .generate_output_path(&config);
            assert_eq!(path, expected);
            let members = ZipUtil::unpack(&data).unwrap();
            assert_eq!(members[0].path, ".foldr-manifest");
        }
        _ => panic!("expected a written archive"),
    }
}

#[test]
fn save_command_refuses_existing_name() {
    let entries = demo_entries();
    let config = test_config();
    let store = vec![saved_file("taken", 1, &entries)];
    let cmd = Command::Save(SaveCommand {
        directory: "./d".to_string(),
        name: "taken".to_string(),
    });
    let inputs = RunInputs {
        dir_entries: Some(entries),
        fetched: None,
    };
    assert!(run(&cmd, &config, &store, &inputs).is_err());
}

#[test]
fn update_command_increments_iteration() {
    let entries = demo_entries();
    let config = test_config();
    let store = vec![
        saved_file("tool", 1, &entries),
        saved_file("tool", 4, &entries),
    ];
    let cmd = Command::Update(UpdateCommand {
        template_name: "tool".to_string(),
        directory: "./d".to_string(),
    });
    let inputs = RunInputs {
        dir_entries: Some(demo_entries()),
        fetched: None,
    };
    match run(&cmd, &config, &store, &inputs).unwrap() {
        RunOutcome::Wrote { template, .. } => {
            assert_eq!(template.info.iteration, 5);
        }
        _ => panic!("expected a written archive"),
    }

    let cmd = Command::Update(UpdateCommand {
        template_name: "absent".to_string(),
        directory: "./d".to_string(),
    });
    let inputs = RunInputs {
        dir_entries: Some(demo_entries()),
        fetched: None,
    };
    assert!(run(&cmd, &config, &store, &inputs).is_err());
}

#[test]
fn list_command_rows() {
    let entries = demo_entries();
    let config = test_config();
    let store = vec![
        saved_file("app", 1, &entries),
        saved_file("app", 2, &entries),
        saved_file("base", 1, &entries),
    ];
    let inputs = RunInputs {
        dir_entries: None,
        fetched: None,
    };
    let cmd = Command::List(ListCommand {
        pattern: None,
        flatten: true,
    });
    match run(&cmd, &config, &store, &inputs).unwrap() {
        RunOutcome::Listed { rows, width } => {
            assert_eq!(width, 20);
            let got: Vec<(String, u64)> = rows;
            assert_eq!(
                got,
                vec![
                    ("app".to_string(), 1),
                    ("app".to_string(), 2),
                    ("base".to_string(), 1),
                ]
            );
        }
        _ => panic!("expected a listing"),
    }
    let cmd = Command::List(ListCommand {
        pattern: None,
        flatten: false,
    });
    match run(&cmd, &config, &store, &inputs).unwrap() {
        RunOutcome::Listed { rows, .. } => {
            assert_eq!(
                rows,
                vec![("app".to_string(), 2), ("base".to_string(), 1)]
            );
        }
        _ => panic!("expected a listing"),
    }
    let cmd = Command::List(ListCommand {
        pattern: Some("as".to_string()),
        flatten: true,
    });
    match run(&cmd, &config, &store, &inputs).unwrap() {
        RunOutcome::Listed { rows, .. } => {
            assert_eq!(rows, vec![("base".to_string(), 1)]);
        }
        _ => panic!("expected a listing"),
    }
}

#[test]
fn show_command_builds_hierarchy() {
    let entries = demo_entries();
    let config = test_config();
    let store = vec![saved_file("T", 1, &entries)];
    let cmd = Command::Show(ShowCommand {
        template_name: "T".to_string(),
        iteration: None,
    });
    let inputs = RunInputs {
        dir_entries: None,
        fetched: None,
    };
    match run(&cmd, &config, &store, &inputs).unwrap() {
        RunOutcome::Shown { tree } => {
            assert_eq!(tree.path, "T");
            assert_eq!(tree.children.len(), 2);
        }
        _ => panic!("expected a hierarchy"),
    }
}

#[test]
fn endpoint_validation() {
    let mut config = test_config();
    assert!(NetworkUtil::validate_endpoint(&config, "https://example.org/t.zip").is_ok());
    assert!(NetworkUtil::validate_endpoint(&config, "http://example.org/t.zip").is_ok());
    assert!(NetworkUtil::validate_endpoint(&config, "ftp://example.org/t.zip").is_err());
    assert!(NetworkUtil::validate_endpoint(&config, "not a url").is_err());
    config.require_https = true;
    assert!(NetworkUtil::validate_endpoint(&config, "http://example.org/t.zip").is_err());
    assert!(NetworkUtil::validate_endpoint(&config, "https://example.org/t.zip").is_ok());
}

#[test]
fn fetch_flow_stores_downloaded_stream() {
    let entries = demo_entries();
    let config = test_config();
    let store: Vec<StoredFile> = Vec::new();
    let cmd = Command::Fetch(foldr::commands::fetch::FetchCommand {
        endpoint: "https://example.org/t.zip".to_string(),
        template_name: "remote".to_string(),
        update: false,
    });
    let inputs = RunInputs {
        dir_entries: None,
        fetched: None,
    };
    match run(&cmd, &config, &store, &inputs).unwrap() {
        RunOutcome::NeedsFetch { endpoint } => {
            assert_eq!(endpoint, "https://example.org/t.zip")
        }
        _ => panic!("expected a download request"),
    }
    // the "downloaded" stream: an archive saved under another name
    let (_, stream) = Template::save(&config, &entries, "upstream", 9).unwrap();
    let inputs = RunInputs {
        dir_entries: None,
        fetched: Some(stream),
    };
    match run(&cmd, &config, &store, &inputs).unwrap() {
        RunOutcome::Wrote { template, data, .. } => {
            assert_eq!(template.info.name, "remote");
            assert_eq!(template.info.iteration, 1);
            let members = ZipUtil::unpack(&data).unwrap();
            // old manifest dropped, fresh manifest appended last
            assert_eq!(members.len(), 5);
            assert_eq!(members[4].path, ".foldr-manifest");
            let manifest: serde_json::Value =
                serde_json::from_slice(&members[4].data).unwrap();
            assert_eq!(manifest["name"].as_str().unwrap(), "remote");
        }
        _ => panic!("expected a written archive"),
    }
}

#[test]
fn config_default_values() {
    let config = Config::default();
    assert_eq!(config.template_dir, "~/.foldr/templates");
    assert!(config.use_cache);
    assert!(!config.require_https);
}

#[test]
fn get_files_lists_paths_without_manifest() {
    let entries = demo_entries();
    let config = test_config();
    let (_, data) = Template::save(&config, &entries, "T", 1).unwrap();
    let names = ZipUtil::get_files(&data, &vec![".foldr-manifest".to_string()]).unwrap();
    assert_eq!(
        names,
        vec![
            "a/".to_string(),
            "a/b.txt".to_string(),
            "a/c.txt".to_string(),
            "d.txt".to_string(),
        ]
    );
}

#[test]
fn new_command_spawns_stored_template() {
    let entries = demo_entries();
    let config = test_config();
    let store = vec![
        saved_file("T", 1, &entries),
        saved_file("T", 2, &entries),
    ];
    let cmd = Command::New(foldr::commands::new::NewCommand {
        template_name: Some("T".to_string()),
        iteration: None,
        path: Some("out-dir".to_string()),
    });
    let inputs = RunInputs {
        dir_entries: None,
        fetched: None,
    };
    match run(&cmd, &config, &store, &inputs).unwrap() {
        RunOutcome::Spawned { destination, members } => {
            assert_eq!(destination, "out-dir");
            assert_eq!(members.len(), 4);
        }
        _ => panic!("expected spawned members"),
    }

    let cmd = Command::New(foldr::commands::new::NewCommand {
        template_name: Some("T".to_string()),
        iteration: Some(9),
        path: None,
    });
    assert!(run(&cmd, &config, &store, &inputs).is_err());
}

#[test]
fn new_command_without_name_asks_for_selection() {
    let entries = demo_entries();
    let config = test_config();
    let store = vec![
        saved_file("one", 1, &entries),
        saved_file("two", 1, &entries),
    ];
    let cmd = Command::New(foldr::commands::new::NewCommand {
        template_name: None,
        iteration: None,
        path: None,
    });
    let inputs = RunInputs {
        dir_entries: None,
        fetched: None,
    };
    match run(&cmd, &config, &store, &inputs).unwrap() {
        RunOutcome::NeedsSelection { names } => {
            assert_eq!(names.len(), 2);
            assert!(names.contains(&"one".to_string()));
            assert!(names.contains(&"two".to_string()));
        }
        _ => panic!("expected a selection request"),
    }
}

#[test]
fn new_command_spawns_remote_template() {
    let entries = demo_entries();
    let config = test_config();
    let store: Vec<StoredFile> = Vec::new();
    let cmd = Command::New(foldr::commands::new::NewCommand {
        template_name: Some("https://example.org/t.zip".to_string()),
        iteration: None,
        path: None,
    });
    let inputs = RunInputs {
        dir_entries: None,
        fetched: None,
    };
    match run(&cmd, &config, &store, &inputs).unwrap() {
        RunOutcome::NeedsFetch { endpoint } => {
            assert_eq!(endpoint, "https://example.org/t.zip")
        }
        _ => panic!("expected a download request"),
    }
    let (_, stream) = Template::save(&config, &entries, "whatever", 1).unwrap();
    let inputs = RunInputs {
        dir_entries: None,
        fetched: Some(stream),
    };
    match run(&cmd, &config, &store, &inputs).unwrap() {
        RunOutcome::Spawned { destination, members } => {
            assert_eq!(destination, "./");
            assert_eq!(members.len(), 4);
        }
        _ => panic!("expected spawned members"),
    }
}

#[test]
fn delete_single_iteration_through_interpreter() {
    let entries = demo_entries();
    let config = test_config();
    let store = vec![
        saved_file("T", 1, &entries),
        saved_file("T", 2, &entries),
    ];
    let cmd = Command::Delete(DeleteCommand {
        template_name: "T".to_string(),
        iteration: Some(1),
    });
    let inputs = RunInputs {
        dir_entries: None,
        fetched: None,
    };
    match run(&cmd, &config, &store, &inputs).unwrap() {
        RunOutcome::Deleted { files } => {
            assert_eq!(files, vec![store[0].filename.clone()]);
        }
        _ => panic!("expected a deletion"),
    }
}

#[test]
fn command_error_carries_message() {
    let e = foldr::commands::command::error("something went wrong");
    assert_eq!(e.message, "something went wrong");
}

#[test]
fn purge_honours_name_filter() {
    let entries = demo_entries();
    let store = vec![
        saved_file("X", 1, &entries),
        saved_file("X", 2, &entries),
        saved_file("Y", 1, &entries),
        saved_file("Y", 5, &entries),
    ];
    let ts = Template::get_existing(&store).unwrap();
    let (files, count) = purge_plan(&ts, &Some("Y".to_string()));
    assert_eq!(count, 1);
    assert_eq!(files.len(), 1);
    let keep = TemplateInfo::new("Y".to_string(), 5)
        .generate_output_path(&test_config());
    let gone = TemplateInfo::new("Y".to_string(), 1)
        .generate_output_path(&test_config());
    assert_eq!(files[0], gone);
    assert_ne!(files[0], keep);
}

#[test]
fn fetch_refuses_invalid_endpoint() {
    let config = test_config();
    let store: Vec<StoredFile> = Vec::new();
    let cmd = Command::Fetch(foldr::commands::fetch::FetchCommand {
        endpoint: "ftp://example.org/t.zip".to_string(),
        template_name: "remote".to_string(),
        update: false,
    });
    let inputs = RunInputs {
        dir_entries: None,
        fetched: None,
    };
    assert!(run(&cmd, &config, &store, &inputs).is_err());
}

#[test]
fn save_template_records_archive_location() {
    let config = test_config();
    let entries = demo_entries();
    let (template, _) = Template::save(&config, &entries, "where", 3).unwrap();
    let expected = TemplateInfo::new("where".to_string(), 3).generate_output_path(&config);
    assert_eq!(template.filename, expected);
}

#[test]
fn new_command_plain_absent_name_is_an_error() {
    let config = test_config();
    let store: Vec<StoredFile> = Vec::new();
    let cmd = Command::New(foldr::commands::new::NewCommand {
        template_name: Some("missing".to_string()),
        iteration: None,
        path: None,
    });
    let inputs = RunInputs {
        dir_entries: None,
        fetched: None,
    };
    assert!(run(&cmd, &config, &store, &inputs).is_err());
}

#[test]
fn ingest_of_non_archive_fails_with_format_error() {
    let config = test_config();
    let remove = vec![".foldr-manifest".to_string()];
    let stream = b"not an archive at all".to_vec();
    let result = Template::store(&config, "name", 1, &stream, &remove);
    assert_eq!(result.err().unwrap(), StoreError::ArchiveFormatError);
}
