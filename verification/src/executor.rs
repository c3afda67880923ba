//! The executor configuration: the fixed working directory in which the
//! external tool is run.

use vstd::prelude::*;

verus! {

/// Configuration for running the external tool: every invocation is launched
/// with its working directory pinned to `base_path`. The value is set at
/// construction and never changes afterwards; invocations share no other
/// state.
pub struct UltraMCPExecutor {
    pub base_path: String,
}

impl UltraMCPExecutor {
    /// The default configuration, rooted at the external tool's standard
    /// install location.
    pub fn new() -> (e: Self)
        ensures
            e.base_path@ == "/root/ultramcp"@,
    {
        UltraMCPExecutor { base_path: "/root/ultramcp".to_owned() }
    }

    /// A configuration rooted at an explicit directory, so that callers (and
    /// tests) can point the executor at a different project root.
    pub fn with_base_path(base_path: String) -> (e: Self)
        ensures
            e.base_path@ == base_path@,
    {
        UltraMCPExecutor { base_path }
    }
}

/// Builds the executor that the GUI layer registers at startup.
pub fn init_ultramcp_commands() -> (e: UltraMCPExecutor)
    ensures
        e.base_path@ == "/root/ultramcp"@,
{
    UltraMCPExecutor::new()
}

} // verus!
