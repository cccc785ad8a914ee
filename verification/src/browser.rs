//! Which browser to print with when the default one cannot be started,
//! and what the user is told when none can.

use vstd::prelude::*;

verus! {

/// Microsoft Edge in the 32-bit program folder.
pub const EDGE_PATH_X86: &'static str = r"C:\Program Files (x86)\Microsoft\Edge\Application\msedge.exe";

/// Microsoft Edge in the 64-bit program folder.
pub const EDGE_PATH_X64: &'static str = r"C:\Program Files\Microsoft\Edge\Application\msedge.exe";

/// Picks the Edge install path to print with from the answers about which
/// known paths exist.
pub fn first_existing_edge(x86_exists: bool, x64_exists: bool) -> (res: Option<String>)
    ensures
        x86_exists ==> (res matches Some(p) && p@ == EDGE_PATH_X86@),
        !x86_exists && x64_exists ==> (res matches Some(p) && p@ == EDGE_PATH_X64@),
        !x86_exists && !x64_exists ==> res is None,
{
    let candidates: Vec<&str> = vec![EDGE_PATH_X86, EDGE_PATH_X64];
    let exists: Vec<bool> = vec![x86_exists, x64_exists];
    let n = candidates.len();
    for i in 0..n
        invariant
            n == candidates@.len(),
            candidates@ == seq![EDGE_PATH_X86, EDGE_PATH_X64],
            exists@ == seq![x86_exists, x64_exists],
            forall|j: int| 0 <= j < i ==> !exists@[j],
    {
        if exists[i] {
            let mut found = String::new();
            found.append(candidates[i]);
            return Some(found);
        }
    }
    None
}

/// What the user is told when no browser could print the document: the
/// reason, a hint to install Chrome or Edge, and the reason again as detail.
pub fn pdf_error_message(detail: &str) -> (msg: String)
    ensures
        msg@ == "Headless browser PDF failed: "@ + detail@
            + ". Ensure Google Chrome or Microsoft Edge is installed.\nDetail: "@ + detail@,
{
    let mut msg = String::new();
    msg.append("Headless browser PDF failed: ");
    msg.append(detail);
    msg.append(". Ensure Google Chrome or Microsoft Edge is installed.\nDetail: ");
    msg.append(detail);
    msg
}

} // verus!
