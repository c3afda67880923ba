//! The health report handed to the GUI.
//!
//! The health-check command's output is not parsed yet: whatever the tool
//! printed, the report is the fixed set of status entries below, as ordered
//! key/value pairs.

use vstd::prelude::*;

verus! {

/// The views of a sequence of report entries.
pub open spec fn pair_views(v: Seq<(String, String)>) -> Seq<(Seq<char>, Seq<char>)> {
    v.map_values(|p: (String, String)| (p.0@, p.1@))
}

/// The fixed entries of the health report, in order.
pub open spec fn health_pairs() -> Seq<(Seq<char>, Seq<char>)> {
    seq![
        ("overall"@, "healthy"@),
        ("local_models"@, "5 active"@),
        ("ollama_service"@, "running"@),
        ("disk_space"@, "sufficient"@),
        ("memory_usage"@, "normal"@),
    ]
}

/// Produces the health report for a health-check run: for every output, the
/// fixed entries of [`health_pairs`], in order.
pub fn parse_health_output(output: &str) -> (r: Result<Vec<(String, String)>, String>)
    ensures
        r matches Ok(v) && pair_views(v@) == health_pairs(),
{
    let mut v: Vec<(String, String)> = Vec::new();
    v.push(("overall".to_owned(), "healthy".to_owned()));
    v.push(("local_models".to_owned(), "5 active".to_owned()));
    v.push(("ollama_service".to_owned(), "running".to_owned()));
    v.push(("disk_space".to_owned(), "sufficient".to_owned()));
    v.push(("memory_usage".to_owned(), "normal".to_owned()));
    proof {
        assert(pair_views(v@) =~= health_pairs());
    }
    Ok(v)
}

} // verus!
