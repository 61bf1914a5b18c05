//! What the user has switched on.

use vstd::prelude::*;

verus! {

#[derive(Debug, Clone)]
pub struct Settings {
    /// The cache formats that are written after a sync, beside the cache
    /// itself.
    pub enabled_cache_formats: Vec<String>,
}

impl Default for Settings {
    /// Without settings, no further format is written.
    fn default() -> (settings: Settings)
        ensures
            settings.enabled_cache_formats@ == Seq::<String>::empty(),
    {
        Settings { enabled_cache_formats: Vec::new() }
    }
}

} // verus!
