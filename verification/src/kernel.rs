//! How the Ark R kernel is launched: its kernelspec, an optional connection
//! file, and the session name the broker gives it.
use vstd::prelude::*;

use crate::text::owned;

verus! {

#[derive(Debug, Clone)]
pub struct ArkLaunchConfig {
    pub kernelspec_path: String,
    pub connection_file: Option<String>,
    pub session_name: String,
}

impl ArkLaunchConfig {
    /// A launch of the kernelspec at a path, with a fresh connection file and
    /// the session named `rho`.
    pub fn new(kernelspec_path: String) -> (r: Self)
        ensures
            r.kernelspec_path == kernelspec_path,
            r.connection_file is None,
            r.session_name@ == "rho"@,
    {
        ArkLaunchConfig { kernelspec_path, connection_file: None, session_name: owned("rho") }
    }
}

} // verus!
