use vstd::prelude::*;

verus! {

/// Name of the reserved archive member that holds the manifest record.
/// Every archive written by this library contains exactly one member with
/// this name; it is excluded from content listings and extraction.
pub const MANIFEST_MEMBER: &'static str = ".foldr-manifest";

/// File extension for archives in the store directory.
pub const ARCHIVE_EXTENSION: &'static str = ".foldr";

/// Default location of the store directory.
pub const DEFAULT_TEMPLATE_DIR: &'static str = "~/.foldr/templates";

} // verus!
