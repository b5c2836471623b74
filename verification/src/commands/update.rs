//! Updating an existing template with a new version.

use vstd::prelude::*;

use crate::archive::{archive_members, Member};
use crate::commands::command::{error, CommandError, RunCommand, RunInputs, RunOutcome};
use crate::config::Config;
use crate::templates::{
    is_max_iteration, save_entries, store_has_name, StoredFile, Template,
};

verus! {

/// Save a new version of an existing template. The previous version is
/// kept.
pub struct UpdateCommand {
    /// The template to update.
    pub template_name: String,
    /// The directory to update the template with.
    pub directory: String,
}

/// What planning an update guarantees: the name must already be in use;
/// without the directory's entries the walk is requested; with them,
/// the archive written holds the manifest for the name at one above its
/// highest stored iteration, followed by the entries.
pub open spec fn update_plan_post(
    cmd: UpdateCommand,
    config: Config,
    store: Seq<StoredFile>,
    dir_entries: Option<Vec<Member>>,
    r: Result<RunOutcome, CommandError>,
) -> bool {
    &&& !store_has_name(store, cmd.template_name@) ==> r is Err
    &&& ({
        &&& crate::templates::store_readable(store)
        &&& store_has_name(store, cmd.template_name@)
        &&& dir_entries is None
    }) ==> r is Ok
    &&& match r {
        Ok(out) => match out {
            RunOutcome::NeedsDirectory { directory } => {
                &&& directory@ == cmd.directory@
                &&& dir_entries is None
                &&& store_has_name(store, cmd.template_name@)
            },
            RunOutcome::Wrote { template, path, data } => {
                &&& dir_entries matches Some(es)
                &&& exists|it: u64|
                    {
                        &&& #[trigger] is_max_iteration(store, cmd.template_name@, it)
                        &&& it < u64::MAX
                        &&& archive_members(data@) == save_entries(
                            cmd.template_name@,
                            (it + 1) as u64,
                            crate::archive::members_view(es@),
                        )
                        &&& template.info.iteration == it + 1
                        &&& path@ == crate::templates::archive_path(
                            config.template_dir@,
                            cmd.template_name@,
                            (it + 1) as u64,
                        )
                        &&& template.filename@ == path@
                    }
                &&& template.info.name@ == cmd.template_name@
                &&& template.filesize == data@.len()
            },
            _ => false,
        },
        Err(_) => true,
    }
}

impl UpdateCommand {
    /// Plans an update: looks the name up, asks for the directory's
    /// entries if they were not supplied yet, and builds the archive at
    /// the next iteration.
    pub fn plan(
        &self,
        config: &Config,
        store: &Vec<StoredFile>,
        dir_entries: &Option<Vec<Member>>,
    ) -> (r: Result<RunOutcome, CommandError>)
        ensures
            update_plan_post(*self, *config, store@, *dir_entries, r),
    {
        let existing = match Template::get_existing_by_name(store, self.template_name.as_str()) {
            Ok(existing) => existing,
            Err(_) => {
                return Err(error("Error while scanning the template directory"));
            },
        };
        let current = match existing {
            Some(t) => t,
            None => {
                let mut msg = ("Template to update not found: ").to_owned();
                msg.append(self.template_name.as_str());
                return Err(CommandError { message: msg });
            },
        };
        let entries = match dir_entries {
            None => {
                return Ok(RunOutcome::NeedsDirectory { directory: self.directory.clone() });
            },
            Some(entries) => entries,
        };
        if current.info.iteration == u64::MAX {
            return Err(error("Template version number exhausted"));
        }
        let next = current.info.iteration + 1;
        let (template, data) = match Template::save(
            config,
            entries,
            self.template_name.as_str(),
            next,
        ) {
            Ok(built) => built,
            Err(_) => {
                return Err(error("File IO Error while saving template"));
            },
        };
        let info = crate::templates::TemplateInfo::new(self.template_name.clone(), next);
        let path = info.generate_output_path(config);
        proof {
            assert(is_max_iteration(store@, self.template_name@, current.info.iteration));
        }
        Ok(RunOutcome::Wrote { template, path, data })
    }
}

impl RunCommand for UpdateCommand {
    fn run(&self, config: &Config, store: &Vec<StoredFile>, inputs: &RunInputs) -> Result<
        RunOutcome,
        CommandError,
    > {
        self.plan(config, store, &inputs.dir_entries)
    }
}

} // verus!
