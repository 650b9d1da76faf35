//! Kernel identity.
//!
//! The kernel name and release arrive as the raw output of the uname
//! helper; both are reported trimmed of surrounding whitespace.

use vstd::prelude::*;

use crate::text::{to_owned_string, trim, trim_spec};

verus! {

/// The kernel name and release, cleaned for display.
pub struct UnameResults {
    /// The kernel name.
    pub uname: String,
    /// The kernel release.
    pub kernel_version: String,
}

/// Cleans the uname helper's raw outputs into the kernel identity.
pub fn get_uname_data(name_raw: &str, release_raw: &str) -> (r: UnameResults)
    ensures
        r.uname@ == trim_spec(name_raw@),
        r.kernel_version@ == trim_spec(release_raw@),
{
    UnameResults {
        uname: to_owned_string(trim(name_raw)),
        kernel_version: to_owned_string(trim(release_raw)),
    }
}

} // verus!
