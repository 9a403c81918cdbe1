//! The directories of the user who runs this.

use vstd::prelude::*;

verus! {

/// `dirs::home_dir`: the user's home directory, if it is known. It depends on
/// the environment, so nothing is claimed of it.
#[verifier::external_body]
pub(crate) fn home() -> (r: Option<String>) {
    dirs::home_dir().map(|p| p.to_string_lossy().into_owned())
}

/// `dirs::config_dir`: the user's configuration directory, if it is known. It
/// depends on the environment, so nothing is claimed of it.
#[verifier::external_body]
pub(crate) fn config() -> (r: Option<String>) {
    dirs::config_dir().map(|p| p.to_string_lossy().into_owned())
}

/// `dirs::cache_dir`: the user's cache directory, if it is known. It depends on
/// the environment, so nothing is claimed of it.
#[verifier::external_body]
pub(crate) fn cache() -> (r: Option<String>) {
    dirs::cache_dir().map(|p| p.to_string_lossy().into_owned())
}

} // verus!
