//! What pruning prints.

use crate::text;
use vstd::prelude::*;

verus! {

/// How many sessions were pruned.
pub open spec fn pruned_line(count: nat) -> Seq<char> {
    "Pruned "@ + text::decimal(count) + " sessions"@
}

/// Tells how many sessions were pruned.
pub fn pruned(count: usize) -> (r: String)
    ensures
        r@ == pruned_line(count as nat),
{
    let mut out = "Pruned ".to_owned();
    out.append(text::decimal_text(count as u64).as_str());
    out.append(" sessions");
    out
}

} // verus!
