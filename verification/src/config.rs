//! Runtime configuration handed into every store operation.

use vstd::prelude::*;

verus! {

/// The store's configuration values.
pub struct Config {
    /// Directory where templates are stored.
    pub template_dir: String,
    /// Whether a cache may be used to speed up template queries.
    pub use_cache: bool,
    /// Whether fetching from remote template repositories requires https.
    pub require_https: bool,
}

impl Config {
    /// The default configuration.
    pub fn default() -> (c: Config)
        ensures
            c.template_dir@ == crate::globals::DEFAULT_TEMPLATE_DIR@,
            c.use_cache == true,
            c.require_https == false,
    {
        Config {
            template_dir: (crate::globals::DEFAULT_TEMPLATE_DIR).to_owned(),
            use_cache: true,
            require_https: false,
        }
    }
}

/// A path-like value on which a caller-supplied expansion (such as tilde
/// expansion) can be performed. The store itself never expands paths;
/// the surrounding program implements this for its path type.
pub trait ExpandablePathBuf: Sized {
    fn expand(&self) -> Self;
}

} // verus!
