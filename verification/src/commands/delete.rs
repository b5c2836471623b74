//! Deleting templates by name, or a single version.

use vstd::prelude::*;

use crate::commands::command::{error, CommandError, RunCommand, RunInputs, RunOutcome};
use crate::config::Config;
use crate::templates::{
    files_matching_name, files_matching_name_and_iteration, StoredFile, Template,
};

verus! {

/// Delete all versions of a template, or one specific version.
pub struct DeleteCommand {
    /// The template to delete.
    pub template_name: String,
    /// When given, only this version is deleted.
    pub iteration: Option<crate::commands::command::Iteration>,
}

/// What planning a deletion guarantees: on success, the files to remove
/// are exactly those whose record matches the request, and at least one
/// matched; when nothing matches, the result is an error, never a
/// partial removal.
pub open spec fn delete_plan_post(
    cmd: DeleteCommand,
    store: Seq<StoredFile>,
    r: Result<RunOutcome, CommandError>,
) -> bool {
    let matches = match cmd.iteration {
        Some(it) => files_matching_name_and_iteration(store, cmd.template_name@, it),
        None => files_matching_name(store, cmd.template_name@),
    };
    &&& (crate::templates::store_readable(store) && matches.len() > 0) ==> r is Ok
    &&& match r {
        Ok(out) => match out {
            RunOutcome::Deleted { files } => {
                &&& crate::strutil::string_views(files@) == matches
                &&& matches.len() > 0
            },
            _ => false,
        },
        Err(_) => true,
    }
}

impl DeleteCommand {
    /// Plans a deletion: finds the matching archives; no match is
    /// reported as an error to the caller.
    pub fn plan(&self, config: &Config, store: &Vec<StoredFile>) -> (r: Result<
        RunOutcome,
        CommandError,
    >)
        ensures
            delete_plan_post(*self, store@, r),
    {
        let planned = match self.iteration {
            Some(it) => Template::delete_by_name_and_iteration(
                store,
                self.template_name.as_str(),
                it,
            ),
            None => Template::delete_by_name(store, self.template_name.as_str()),
        };
        let (found, files) = match planned {
            Ok(planned) => planned,
            Err(_) => {
                return Err(error("Error while scanning the template directory"));
            },
        };
        if !found {
            let mut msg = ("Unable to find template: ").to_owned();
            msg.append(self.template_name.as_str());
            return Err(CommandError { message: msg });
        }
        Ok(RunOutcome::Deleted { files })
    }
}

impl RunCommand for DeleteCommand {
    fn run(&self, config: &Config, store: &Vec<StoredFile>, _inputs: &RunInputs) -> Result<
        RunOutcome,
        CommandError,
    > {
        self.plan(config, store)
    }
}

} // verus!
