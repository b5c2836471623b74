//! Spawning a template into a destination directory.

use vstd::prelude::*;

use crate::archive::archive_members;
use crate::commands::command::{error, CommandError, RunCommand, RunInputs, RunOutcome};
use crate::commands::show::find_store_index;
use crate::config::Config;
use crate::strutil::{str_eq, str_starts_with};
use crate::templates::{StoredFile, Template};

verus! {

/// Spawn an existing template, or one fetched over http.
pub struct NewCommand {
    /// The template to spawn; an http(s) URL spawns a remote template.
    /// Without a name, the caller is asked to pick one.
    pub template_name: Option<String>,
    /// The version of the template to spawn; the most recent one by
    /// default.
    pub iteration: Option<crate::commands::command::Iteration>,
    /// The output path to spawn the template into; the current
    /// directory by default.
    pub path: Option<String>,
}

/// A spawn can be satisfied from the store: a plain (non-URL) name is
/// given, every file scans, file names are unique, and a record carries
/// the requested name (and iteration, when given).
pub open spec fn new_spawn_satisfiable(cmd: NewCommand, store: Seq<StoredFile>) -> bool {
    &&& cmd.template_name matches Some(n)
    &&& !("http://"@.is_prefix_of(cmd.template_name.unwrap()@))
    &&& !("https://"@.is_prefix_of(cmd.template_name.unwrap()@))
    &&& crate::templates::store_readable(store)
    &&& crate::templates::store_filenames_unique(store)
    &&& match cmd.iteration {
        Some(it) => exists|k: int| 0 <= k < store.len()
            && crate::templates::template_record_of((#[trigger] store[k]).data@)
                == Some((cmd.template_name.unwrap()@, it)),
        None => crate::templates::store_has_name(store, cmd.template_name.unwrap()@),
    }
}

/// What planning a spawn guarantees: the members written out are
/// exactly those of one archive — a stored one whose record carries the
/// requested name (and iteration, when given), or the downloaded one —
/// with the manifest member left out.
pub open spec fn new_plan_post(
    cmd: NewCommand,
    store: Seq<StoredFile>,
    fetched: Option<Vec<u8>>,
    r: Result<RunOutcome, CommandError>,
) -> bool {
    &&& (crate::templates::store_readable(store) && cmd.template_name is None) ==> r is Ok
    &&& new_spawn_satisfiable(cmd, store) ==> r is Ok
    &&& (cmd.template_name matches Some(n)
        && ("http://"@.is_prefix_of(n@) || "https://"@.is_prefix_of(n@))
        && fetched is None) ==> r is Ok
    &&& match r {
        Ok(out) => match out {
            RunOutcome::NeedsSelection { names } => {
                &&& cmd.template_name is None
                &&& exists|ts: Seq<Template>|
                    #![trigger crate::templates::templates_sorted(ts, true)]
                    {
                        &&& crate::templates::templates_sorted(ts, true)
                        &&& crate::templates::tviews(ts).to_multiset()
                            == crate::templates::file_tviews(store).to_multiset()
                        &&& crate::strutil::string_views(names@) == ts.map_values(
                            |t: Template| t.info.name@,
                        )
                    }
            },
            RunOutcome::NeedsFetch { endpoint } => {
                &&& cmd.template_name matches Some(n)
                &&& endpoint@ == n@
                &&& ("http://"@.is_prefix_of(n@) || "https://"@.is_prefix_of(n@))
                &&& fetched is None
            },
            RunOutcome::Spawned { destination, members } => {
                &&& destination@ == match cmd.path {
                    Some(p) => p@,
                    None => "./"@,
                }
                &&& {
                    ||| (fetched matches Some(stream)
                        && crate::archive::members_view(members@)
                            == crate::archive::spawn_entries(
                            archive_members(stream@),
                            seq![crate::globals::MANIFEST_MEMBER@],
                        ))
                    ||| exists|k: int|
                        {
                            &&& 0 <= k < store.len()
                            &&& {
                                let rec = crate::templates::template_record_of(
                                    (#[trigger] store[k]).data@,
                                );
                                &&& rec is Some
                                &&& cmd.template_name matches Some(n) && rec.unwrap().0 == n@
                                &&& match cmd.iteration {
                                    Some(it) => rec.unwrap().1 == it,
                                    None => crate::templates::is_max_iteration(
                                        store,
                                        cmd.template_name.unwrap()@,
                                        rec.unwrap().1,
                                    ),
                                }
                            }
                            &&& crate::archive::members_view(members@)
                                == crate::archive::spawn_entries(
                                archive_members(store[k].data@),
                                seq![crate::globals::MANIFEST_MEMBER@],
                            )
                        }
                }
            },
            _ => false,
        },
        Err(_) => true,
    }
}

impl NewCommand {
    /// Plans a spawn: resolves the name (asking for a selection when
    /// none was given), fetches a remote template or looks a stored one
    /// up, and yields the members to write.
    pub fn plan(&self, config: &Config, store: &Vec<StoredFile>, fetched: &Option<Vec<u8>>) -> (r:
        Result<RunOutcome, CommandError>)
        ensures
            new_plan_post(*self, store@, *fetched, r),
    {
        let name = match &self.template_name {
            None => {
                let ts = match Template::get_existing(store) {
                    Ok(ts) => ts,
                    Err(_) => {
                        return Err(error("Error while scanning the template directory"));
                    },
                };
                let mut names: Vec<String> = Vec::new();
                let ghost tnames = ts@.map_values(|t: Template| t.info.name@);
                proof {
                    assert(crate::strutil::string_views(names@) =~= tnames.take(0));
                }
                let mut i: usize = 0;
                while i < ts.len()
                    invariant
                        0 <= i <= ts@.len(),
                        tnames == ts@.map_values(|t: Template| t.info.name@),
                        crate::strutil::string_views(names@) == tnames.take(i as int),
                    decreases ts@.len() - i,
                {
                    let n = ts[i].info.name.clone();
                    proof {
                        assert(tnames[i as int] == ts@[i as int].info.name@);
                        assert(crate::strutil::string_views(names@.push(n))
                            =~= crate::strutil::string_views(names@).push(n@));
                        assert(tnames.take(i + 1) =~= tnames.take(i as int).push(
                            tnames[i as int],
                        ));
                    }
                    names.push(n);
                    i = i + 1;
                }
                proof {
                    assert(tnames.take(ts@.len() as int) =~= tnames);
                    assert(crate::templates::templates_sorted(ts@, true));
                }
                return Ok(RunOutcome::NeedsSelection { names });
            },
            Some(name) => name,
        };
        let destination = match &self.path {
            Some(p) => p.clone(),
            None => ("./").to_owned(),
        };
        if str_starts_with(name.as_str(), "http://") || str_starts_with(name.as_str(), "https://")
        {
            let stream = match fetched {
                None => {
                    return Ok(RunOutcome::NeedsFetch { endpoint: name.clone() });
                },
                Some(stream) => stream,
            };
            let members = match Template::spawn(stream) {
                Ok(members) => members,
                Err(_) => {
                    return Err(error("Template file is corrupt"));
                },
            };
            return Ok(RunOutcome::Spawned { destination, members });
        }
        let found = match self.iteration {
            Some(it) => Template::get_existing_by_name_and_iteration(store, name.as_str(), it),
            None => Template::get_existing_by_name(store, name.as_str()),
        };
        let template = match found {
            Ok(Some(template)) => template,
            Ok(None) => {
                return Err(error("Template or template version not found"));
            },
            Err(_) => {
                return Err(error("Error while scanning the template directory"));
            },
        };
        let k = match find_store_index(store, template.filename.as_str()) {
            Some(k) => k,
            None => {
                return Err(error("Template file missing from the template directory"));
            },
        };
        // re-read the record of the file found by name, so that what is
        // spawned is known to come from a matching archive
        let checked = match Template::read_from_file(&store[k]) {
            Ok(checked) => checked,
            Err(_) => {
                return Err(error("Template file is corrupt"));
            },
        };
        proof {
            if crate::templates::store_filenames_unique(store@) {
                crate::commands::show::lemma_located_record(store@, template, checked, k as int);
            }
        }
        if !str_eq(checked.info.name.as_str(), name.as_str()) {
            return Err(error("Template or template version not found"));
        }
        if let Some(it) = self.iteration {
            if checked.info.iteration != it {
                return Err(error("Template or template version not found"));
            }
        } else if checked.info.iteration != template.info.iteration {
            // the file found by name must carry the looked-up (highest)
            // iteration
            return Err(error("Template or template version not found"));
        }
        let members = match Template::spawn(&store[k].data) {
            Ok(members) => members,
            Err(_) => {
                proof {
                    if crate::templates::store_readable(store@) {
                        assert(crate::archive::readable_archive(store@[k as int].data@));
                    }
                }
                return Err(error("Template file is corrupt"));
            },
        };
        Ok(RunOutcome::Spawned { destination, members })
    }
}

impl RunCommand for NewCommand {
    fn run(&self, config: &Config, store: &Vec<StoredFile>, inputs: &RunInputs) -> Result<
        RunOutcome,
        CommandError,
    > {
        self.plan(config, store, &inputs.fetched)
    }
}

} // verus!
