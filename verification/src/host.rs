//! Questions to the machine the library runs on.
//!
//! What these functions answer depends on the machine and on the moment:
//! nothing is promised of their results, and two calls may differ.

use vstd::prelude::*;
use crate::primitives::HostnameLookup;
use crate::error::HostLookupFailure;

verus! {

/// Asks for the machine's name with `hostname::get`. That function gives
/// the name as the system holds it, or the system's error; a name that is
/// not valid text is reported as such.
#[verifier::external_body]
pub(crate) fn lookup_hostname() -> HostnameLookup {
    match hostname::get() {
        Ok(name) => match name.into_string() {
            Ok(text) => HostnameLookup::Name(text),
            Err(_) => HostnameLookup::Failed(HostLookupFailure::NotText),
        },
        Err(_) => HostnameLookup::Failed(HostLookupFailure::Unavailable),
    }
}

/// Asks `std::path::Path::exists` whether `path` can be seen to exist. A
/// path that cannot be looked at counts as not existing.
#[verifier::external_body]
pub(crate) fn path_exists(path: &str) -> bool {
    std::path::Path::new(path).exists()
}

/// Asks for the user's home directory with `dirs::home_dir`, which gives
/// none where the system knows of none. Where the directory's name is not
/// valid text, what is not is replaced.
#[verifier::external_body]
pub(crate) fn home_directory() -> Option<String> {
    dirs::home_dir().map(|home| home.to_string_lossy().into_owned())
}

} // verus!
