//! The command layer: one request type per operation, a tagged union of
//! requests, and the interpreter that maps each request to its core
//! call. The interpreter never touches the outside world: the store's
//! files, a walked directory tree and fetched bytes come in as values,
//! and what must be written, removed or shown goes out as a value.

use vstd::prelude::*;

use crate::archive::Member;
use crate::commands::delete::DeleteCommand;
use crate::commands::fetch::FetchCommand;
use crate::commands::list::ListCommand;
use crate::commands::new::NewCommand;
use crate::commands::purge::PurgeCommand;
use crate::commands::save::SaveCommand;
use crate::commands::show::ShowCommand;
use crate::commands::update::UpdateCommand;
use crate::config::Config;
use crate::templates::{StoredFile, Template, TemplateHierarchy};

verus! {

/// The version number of a template under one logical name; higher is
/// newer.
pub type Iteration = u64;

/// The failure classes of the store's core operations.
#[derive(Clone, Copy, PartialEq, Eq, Structural, Debug)]
pub enum StoreError {
    /// A missing or invalid source, or an unknown name or iteration.
    InputError,
    /// A read or write failed.
    IOError,
    /// A corrupt container, or a missing or unreadable manifest member.
    ArchiveFormatError,
    /// An ingested archive member would resolve outside the destination
    /// root.
    SecurityError,
    /// The manifest record could not be encoded or decoded.
    SerializationError,
    /// No template matched a single-item lookup.
    NotFoundError,
}

/// The error handed back by the command layer: a message for the caller
/// to present.
#[derive(Debug)]
pub struct CommandError {
    pub message: String,
}

/// Builds a `CommandError` carrying the given message.
pub fn error(message: &str) -> (r: CommandError)
    ensures
        r.message@ == message@,
{
    CommandError { message: message.to_owned() }
}

/// The operations the store can be asked to perform.
pub enum Command {
    /// Save a new template.
    Save(SaveCommand),
    /// Spawn an existing template.
    New(NewCommand),
    /// Install a template from an http endpoint.
    Fetch(FetchCommand),
    /// List all templates.
    List(ListCommand),
    /// List the contents of a template.
    Show(ShowCommand),
    /// Update a template with a new version, keeping the previous one.
    Update(UpdateCommand),
    /// Purge older versions of templates.
    Purge(PurgeCommand),
    /// Delete all or a specific version of a template.
    Delete(DeleteCommand),
}

/// What the interpreter decided: either a request for one more outside
/// value, or the effect the surrounding program is to perform.
pub enum RunOutcome {
    /// Ask the user to pick one of these template names, then run again
    /// with the choice filled in.
    NeedsSelection { names: Vec<String> },
    /// Walk this directory and run again with its entries.
    NeedsDirectory { directory: String },
    /// Download this endpoint and run again with the bytes.
    NeedsFetch { endpoint: String },
    /// Write `data` to `path` (under the store directory, which is
    /// created if absent); `template` is the new record.
    Wrote { template: Template, path: String, data: Vec<u8> },
    /// Write each member under `destination`, creating parent
    /// directories as needed and overwriting existing files.
    Spawned { destination: String, members: Vec<Member> },
    /// Print one row per entry, names padded to `width` columns.
    Listed { rows: Vec<(String, Iteration)>, width: usize },
    /// Print this hierarchy.
    Shown { tree: TemplateHierarchy },
    /// Remove these files from the store directory.
    Deleted { files: Vec<String> },
    /// Remove these files from the store directory; `count` were purged.
    Purged { files: Vec<String>, count: u64 },
}

/// The outside values a command may need besides the store's files.
pub struct RunInputs {
    /// The entries of the walked source directory, when one was asked
    /// for: each file with its path relative to the source root.
    pub dir_entries: Option<Vec<Member>>,
    /// The downloaded archive bytes, when they were asked for.
    pub fetched: Option<Vec<u8>>,
}

/// A command that can be interpreted against the store.
pub trait RunCommand {
    fn run(&self, config: &Config, store: &Vec<StoredFile>, inputs: &RunInputs) -> Result<
        RunOutcome,
        CommandError,
    >;
}

/// Interprets one command against the store: dispatches to the single
/// core call of the request's kind.
pub fn run(
    command: &Command,
    config: &Config,
    store: &Vec<StoredFile>,
    inputs: &RunInputs,
) -> (r: Result<RunOutcome, CommandError>)
    ensures
        match command {
            Command::Save(c) => crate::commands::save::save_plan_post(
                *c,
                *config,
                store@,
                inputs.dir_entries,
                r,
            ),
            Command::Update(c) => crate::commands::update::update_plan_post(
                *c,
                *config,
                store@,
                inputs.dir_entries,
                r,
            ),
            Command::Delete(c) => crate::commands::delete::delete_plan_post(*c, store@, r),
            Command::Purge(c) => crate::commands::purge::purge_plan_post(*c, store@, r),
            Command::List(c) => crate::commands::list::list_plan_post(*c, store@, r),
            Command::Show(c) => crate::commands::show::show_plan_post(*c, store@, r),
            Command::New(c) => crate::commands::new::new_plan_post(
                *c,
                store@,
                inputs.fetched,
                r,
            ),
            Command::Fetch(c) => crate::commands::fetch::fetch_plan_post(
                *c,
                *config,
                store@,
                inputs.fetched,
                r,
            ),
        },
{
    match command {
        Command::Save(c) => c.plan(config, store, &inputs.dir_entries),
        Command::New(c) => c.plan(config, store, &inputs.fetched),
        Command::Fetch(c) => c.plan(config, store, &inputs.fetched),
        Command::List(c) => c.plan(config, store),
        Command::Show(c) => c.plan(config, store),
        Command::Update(c) => c.plan(config, store, &inputs.dir_entries),
        Command::Purge(c) => c.plan(config, store),
        Command::Delete(c) => c.plan(config, store),
    }
}

} // verus!
