//! Installing a template from an http endpoint.

use vstd::prelude::*;

use crate::commands::command::{error, CommandError, RunCommand, RunInputs, RunOutcome};
use crate::config::Config;
use crate::network::NetworkUtil;
use crate::templates::{is_max_iteration, store_has_name, StoredFile, Template};

verus! {

/// Install a template from an http endpoint.
pub struct FetchCommand {
    /// The endpoint to download the template from; must be http(s).
    pub endpoint: String,
    /// The name used to store the downloaded template.
    pub template_name: String,
    /// When set, an already existing template of the same name is
    /// updated; otherwise an existing name is an error.
    pub update: bool,
}

/// What planning a fetch guarantees: a fresh name is stored at
/// iteration one; an existing name is stored one above its highest
/// iteration when updating was asked for, and refused otherwise. The
/// downloaded bytes are requested first, and an unsafe stream is never
/// stored.
pub open spec fn fetch_plan_post(
    cmd: FetchCommand,
    config: Config,
    store: Seq<StoredFile>,
    fetched: Option<Vec<u8>>,
    r: Result<RunOutcome, CommandError>,
) -> bool {
    &&& match r {
        Ok(out) => match out {
            RunOutcome::NeedsFetch { endpoint } => {
                &&& endpoint@ == cmd.endpoint@
                &&& fetched is None
                &&& crate::network::endpoint_acceptable(config, cmd.endpoint@)
            },
            RunOutcome::Wrote { template, path, data } => {
                &&& crate::network::endpoint_acceptable(config, cmd.endpoint@)
                &&& fetched matches Some(stream)
                &&& crate::archive::all_entries_safe(crate::archive::archive_members(stream@))
                &&& template.info.name@ == cmd.template_name@
                &&& crate::archive::archive_members(data@) == crate::archive::stored_entries(
                    crate::templates::ingest_entries(
                        crate::archive::archive_members(stream@),
                        seq![crate::globals::MANIFEST_MEMBER@],
                    ) + seq![
                        crate::templates::manifest_entry(
                            cmd.template_name@,
                            template.info.iteration,
                        ),
                    ],
                )
                &&& path@ == crate::templates::archive_path(
                    config.template_dir@,
                    cmd.template_name@,
                    template.info.iteration,
                )
                &&& if store_has_name(store, cmd.template_name@) {
                    exists|it: u64| #[trigger] is_max_iteration(store, cmd.template_name@, it)
                        && it < u64::MAX && template.info.iteration == it + 1
                } else {
                    template.info.iteration == 1
                }
            },
            _ => false,
        },
        Err(_) => true,
    }
    &&& (store_has_name(store, cmd.template_name@) && !cmd.update) ==> r is Err
    &&& ({
        &&& crate::templates::store_readable(store)
        &&& store_has_name(store, cmd.template_name@) ==> cmd.update
        &&& !is_max_iteration(store, cmd.template_name@, u64::MAX)
        &&& crate::network::endpoint_acceptable(config, cmd.endpoint@)
        &&& fetched is None
    }) ==> r is Ok
}

impl FetchCommand {
    /// Plans a fetch: resolves the target iteration from the store,
    /// validates the endpoint, asks for the download, and stores the
    /// stream.
    pub fn plan(&self, config: &Config, store: &Vec<StoredFile>, fetched: &Option<Vec<u8>>) -> (r:
        Result<RunOutcome, CommandError>)
        ensures
            fetch_plan_post(*self, *config, store@, *fetched, r),
    {
        let existing = match Template::get_existing_by_name(store, self.template_name.as_str()) {
            Ok(existing) => existing,
            Err(_) => {
                return Err(error("Error while scanning the template directory"));
            },
        };
        let iteration = match existing {
            Some(t) => {
                proof {
                    let k = choose|k: int|
                        0 <= k < store@.len() && crate::templates::is_template_of(
                            t,
                            #[trigger] store@[k],
                        );
                    assert(store_has_name(store@, self.template_name@));
                }
                if !self.update {
                    return Err(error("Template name already in use, use --update to update"));
                }
                if t.info.iteration == u64::MAX {
                    proof {
                        assert(is_max_iteration(store@, self.template_name@, u64::MAX));
                    }
                    return Err(error("Template version number exhausted"));
                }
                proof {
                    assert(is_max_iteration(store@, self.template_name@, t.info.iteration));
                }
                t.info.iteration + 1
            },
            None => 1,
        };
        NetworkUtil::fetch_template(
            config,
            self.endpoint.as_str(),
            self.template_name.as_str(),
            iteration,
            fetched,
        )
    }
}

impl RunCommand for FetchCommand {
    fn run(&self, config: &Config, store: &Vec<StoredFile>, inputs: &RunInputs) -> Result<
        RunOutcome,
        CommandError,
    > {
        self.plan(config, store, &inputs.fetched)
    }
}

} // verus!
