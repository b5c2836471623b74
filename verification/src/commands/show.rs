//! Showing the contents of a stored template as a hierarchy.

use vstd::prelude::*;

use crate::archive::archive_members;
use crate::commands::command::{error, CommandError, RunCommand, RunInputs, RunOutcome};
use crate::config::Config;
use crate::strutil::str_eq;
use crate::templates::{
    content_paths_sorted, forest_matches, StoredFile, Template,
};

verus! {

/// List the contents of a template.
pub struct ShowCommand {
    /// The template to show the contents of.
    pub template_name: String,
    /// The version to show; the most recent one by default.
    pub iteration: Option<crate::commands::command::Iteration>,
}

/// A show can be satisfied from the store: every file scans, file names
/// are unique, a record carries the requested name (and iteration, when
/// given), and the archives under that name have safe member paths.
pub open spec fn show_satisfiable(cmd: ShowCommand, store: Seq<StoredFile>) -> bool {
    &&& crate::templates::store_readable(store)
    &&& crate::templates::store_filenames_unique(store)
    &&& match cmd.iteration {
        Some(it) => exists|k: int| 0 <= k < store.len()
            && crate::templates::template_record_of((#[trigger] store[k]).data@)
                == Some((cmd.template_name@, it)),
        None => crate::templates::store_has_name(store, cmd.template_name@),
    }
    &&& forall|k: int| 0 <= k < store.len() && {
        let rec = crate::templates::template_record_of((#[trigger] store[k]).data@);
        rec is Some && rec.unwrap().0 == cmd.template_name@
    } ==> crate::archive::all_entries_safe(archive_members(store[k].data@))
}

/// A record looked up by name and re-read from the file of that name is
/// the same record, when file names are unique.
pub(crate) proof fn lemma_located_record(
    store: Seq<StoredFile>,
    template: Template,
    checked: Template,
    k: int,
)
    requires
        crate::templates::store_filenames_unique(store),
        0 <= k < store.len(),
        store[k].filename@ == template.filename@,
        exists|m: int| 0 <= m < store.len() && crate::templates::is_template_of(
            template,
            #[trigger] store[m],
        ),
        crate::templates::is_template_of(checked, store[k]),
    ensures
        checked.info.name@ == template.info.name@,
        checked.info.iteration == template.info.iteration,
{
    let m = choose|m: int| 0 <= m < store.len() && crate::templates::is_template_of(
        template,
        #[trigger] store[m],
    );
    if m != k {
        if m < k {
            assert(store[m].filename@ != store[k].filename@);
        } else {
            assert(store[k].filename@ != store[m].filename@);
        }
        assert(false);
    }
}

/// What planning a show guarantees: the hierarchy shown is rooted at
/// the requested name, and its children partition the sorted content
/// paths of a stored archive whose record carries that name (and the
/// requested iteration, when one was given).
pub open spec fn show_plan_post(
    cmd: ShowCommand,
    store: Seq<StoredFile>,
    r: Result<RunOutcome, CommandError>,
) -> bool {
    &&& show_satisfiable(cmd, store) ==> r is Ok
    &&& match r {
        Ok(out) => match out {
            RunOutcome::Shown { tree } => {
                &&& tree.path@ == cmd.template_name@
                &&& exists|k: int|
                    {
                        &&& 0 <= k < store.len()
                        &&& {
                            let rec = crate::templates::template_record_of(
                                (#[trigger] store[k]).data@,
                            );
                            &&& rec is Some
                            &&& rec.unwrap().0 == cmd.template_name@
                            &&& match cmd.iteration {
                                Some(it) => rec.unwrap().1 == it,
                                None => crate::templates::is_max_iteration(
                                    store,
                                    cmd.template_name@,
                                    rec.unwrap().1,
                                ),
                            }
                        }
                        &&& forest_matches(
                            tree.children@,
                            content_paths_sorted(archive_members(store[k].data@)),
                            0,
                            content_paths_sorted(archive_members(store[k].data@)).len() as int,
                            Seq::empty(),
                        )
                    }
            },
            _ => false,
        },
        Err(_) => true,
    }
}

/// Finds the index of the store file that a template record was read
/// from, by its file name.
pub(crate) fn find_store_index(store: &Vec<StoredFile>, filename: &str) -> (r: Option<usize>)
    ensures
        match r {
            Some(k) => k < store@.len() && store@[k as int].filename@ == filename@,
            None => true,
        },
        (exists|m: int| 0 <= m < store@.len() && (#[trigger] store@[m]).filename@
            == filename@) ==> r is Some,
{
    let mut k: usize = 0;
    while k < store.len()
        invariant
            0 <= k <= store@.len(),
            forall|m: int| 0 <= m < k ==> (#[trigger] store@[m]).filename@ != filename@,
        decreases store@.len() - k,
    {
        if str_eq(store[k].filename.as_str(), filename) {
            return Some(k);
        }
        k = k + 1;
    }
    None
}

impl ShowCommand {
    /// Plans a show: looks the template up, reads its archive's paths,
    /// and builds the hierarchy.
    pub fn plan(&self, config: &Config, store: &Vec<StoredFile>) -> (r: Result<
        RunOutcome,
        CommandError,
    >)
        ensures
            show_plan_post(*self, store@, r),
    {
        let found = match self.iteration {
            Some(it) => Template::get_existing_by_name_and_iteration(
                store,
                self.template_name.as_str(),
                it,
            ),
            None => Template::get_existing_by_name(store, self.template_name.as_str()),
        };
        let template = match found {
            Ok(Some(template)) => template,
            Ok(None) => {
                return Err(error("Template or template version not found"));
            },
            Err(_) => {
                return Err(error("Error while scanning the template directory"));
            },
        };
        let k = match find_store_index(store, template.filename.as_str()) {
            Some(k) => k,
            None => {
                return Err(error("Template file missing from the template directory"));
            },
        };
        // re-read the record of the file found by name, so that the
        // hierarchy shown is known to belong to a matching archive
        let checked = match Template::read_from_file(&store[k]) {
            Ok(checked) => checked,
            Err(_) => {
                return Err(error("Error reading template contents"));
            },
        };
        proof {
            if crate::templates::store_filenames_unique(store@) {
                lemma_located_record(store@, template, checked, k as int);
            }
        }
        if !str_eq(checked.info.name.as_str(), self.template_name.as_str()) {
            return Err(error("Template or template version not found"));
        }
        if let Some(it) = self.iteration {
            if checked.info.iteration != it {
                return Err(error("Template or template version not found"));
            }
        } else if checked.info.iteration != template.info.iteration {
            // the file found by name must carry the looked-up (highest)
            // iteration
            return Err(error("Template or template version not found"));
        }
        match checked.get_content_hierarchy(&store[k].data) {
            Ok(tree) => Ok(RunOutcome::Shown { tree }),
            Err(_) => {
                proof {
                    if show_satisfiable(*self, store@) {
                        assert(crate::archive::all_entries_safe(
                            archive_members(store@[k as int].data@),
                        ));
                    }
                }
                Err(error("Error reading template contents"))
            },
        }
    }
}

impl RunCommand for ShowCommand {
    fn run(&self, config: &Config, store: &Vec<StoredFile>, _inputs: &RunInputs) -> Result<
        RunOutcome,
        CommandError,
    > {
        self.plan(config, store)
    }
}

} // verus!
