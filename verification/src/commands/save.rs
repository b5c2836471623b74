//! Saving a new template from a directory tree.

use vstd::prelude::*;

use crate::archive::{archive_members, Member};
use crate::commands::command::{error, CommandError, RunCommand, RunInputs, RunOutcome};
use crate::config::Config;
use crate::templates::{
    save_entries, store_has_name, StoredFile, Template,
};

verus! {

/// Save a directory as a new template under a fresh name.
pub struct SaveCommand {
    /// The directory to save as a template.
    pub directory: String,
    /// The name for the template; it must not be in use yet.
    pub name: String,
}

/// What planning a save guarantees: the name must be free; without the
/// directory's entries the walk is requested; with them, the archive
/// written holds exactly the manifest for `(name, 1)` followed by the
/// entries, at the name's deterministic path.
pub open spec fn save_plan_post(
    cmd: SaveCommand,
    config: Config,
    store: Seq<StoredFile>,
    dir_entries: Option<Vec<Member>>,
    r: Result<RunOutcome, CommandError>,
) -> bool {
    &&& match r {
        Ok(out) => match out {
            RunOutcome::NeedsDirectory { directory } => {
                &&& directory@ == cmd.directory@
                &&& dir_entries is None
                &&& !store_has_name(store, cmd.name@)
            },
            RunOutcome::Wrote { template, path, data } => {
                &&& dir_entries matches Some(es)
                &&& archive_members(data@) == save_entries(
                    cmd.name@,
                    1,
                    crate::archive::members_view(es@),
                )
                &&& !store_has_name(store, cmd.name@)
                &&& template.info.name@ == cmd.name@
                &&& template.info.iteration == 1
                &&& template.filesize == data@.len()
                &&& path@ == crate::templates::archive_path(
                    config.template_dir@,
                    cmd.name@,
                    1,
                )
                &&& template.filename@ == path@
            },
            _ => false,
        },
        Err(_) => true,
    }
    &&& store_has_name(store, cmd.name@) ==> r is Err
    &&& ({
        &&& crate::templates::store_readable(store)
        &&& !store_has_name(store, cmd.name@)
        &&& match dir_entries {
            Some(es) => crate::archive::writes_accepted(
                save_entries(cmd.name@, 1, crate::archive::members_view(es@)),
            ) && crate::archive::finish_accepts(
                save_entries(cmd.name@, 1, crate::archive::members_view(es@)),
            ),
            None => true,
        }
    }) ==> r is Ok
}

impl SaveCommand {
    /// Plans a save: checks that the name is free, asks for the
    /// directory's entries if they were not supplied yet, and builds
    /// the archive.
    pub fn plan(
        &self,
        config: &Config,
        store: &Vec<StoredFile>,
        dir_entries: &Option<Vec<Member>>,
    ) -> (r: Result<RunOutcome, CommandError>)
        ensures
            save_plan_post(*self, *config, store@, *dir_entries, r),
    {
        let existing = match Template::get_existing_by_name(store, self.name.as_str()) {
            Ok(existing) => existing,
            Err(_) => {
                return Err(error("Error while scanning the template directory"));
            },
        };
        if existing.is_some() {
            let mut msg = ("Template with the same name already exists: ").to_owned();
            msg.append(self.name.as_str());
            msg.append("\nUse foldr update to overwrite");
            return Err(CommandError { message: msg });
        }
        let entries = match dir_entries {
            None => {
                return Ok(RunOutcome::NeedsDirectory { directory: self.directory.clone() });
            },
            Some(entries) => entries,
        };
        let (template, data) = match Template::save(config, entries, self.name.as_str(), 1) {
            Ok(built) => built,
            Err(_) => {
                return Err(error("File IO Error while saving template"));
            },
        };
        let info = crate::templates::TemplateInfo::new(self.name.clone(), 1);
        let path = info.generate_output_path(config);
        Ok(RunOutcome::Wrote { template, path, data })
    }
}

impl RunCommand for SaveCommand {
    fn run(&self, config: &Config, store: &Vec<StoredFile>, inputs: &RunInputs) -> Result<
        RunOutcome,
        CommandError,
    > {
        self.plan(config, store, &inputs.dir_entries)
    }
}

} // verus!
