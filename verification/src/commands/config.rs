//! The request to generate a configuration file. Writing the file, the
//! prompt for its location and the serialized form are the surrounding
//! program's concern.

use vstd::prelude::*;

verus! {

/// Generate a configuration file.
pub struct ConfigCommand {
    /// Where to write the configuration; the caller prompts for a
    /// location when none is given.
    pub output: Option<String>,
}

} // verus!
