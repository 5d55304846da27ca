//! Settings of a running instance.

use vstd::prelude::*;

verus! {

/// Identity, mirror root, and whether the periodic sync runs.
pub struct Config {
    pub email: String,
    pub password: String,
    pub download_dir: String,
    pub sync_enabled: bool,
}

} // verus!
