//! Supervision of a single long-lived subprocess speaking newline-delimited
//! JSON over its standard streams: framing, request/response correlation,
//! and lifecycle decisions.

use vstd::prelude::*;

pub mod codec;
pub mod correlator;
pub mod escape;
pub mod startup;
pub mod supervisor;

verus! {

/// A line is blank when every character in it is ASCII whitespace.
pub open spec fn is_ws_char(c: char) -> bool {
    c == ' ' || c == '\t' || c == '\r' || c == '\n' || (c as u32) == 11 || (c as u32) == 12
}

/// Whether a whole line consists of whitespace only (and so is skipped
/// by the output router rather than parsed).
pub open spec fn is_blank_text(s: Seq<char>) -> bool {
    forall|i: int| 0 <= i < s.len() ==> is_ws_char(s[i])
}

/// Decides whether a line is blank: true exactly when every character is
/// ASCII whitespace (the empty line is blank).
pub fn is_blank(s: &str) -> (r: bool)
    ensures
        r == is_blank_text(s@),
{
    let n = s.unicode_len();
    let mut i: usize = 0;
    while i < n
        invariant
            n == s@.len(),
            0 <= i <= n,
            forall|j: int| 0 <= j < i ==> is_ws_char(s@[j]),
        decreases n - i,
    {
        let c = s.get_char(i);
        if !(c == ' ' || c == '\t' || c == '\r' || c == '\n' || (c as u32) == 11 || (c as u32) == 12) {
            return false;
        }
        i += 1;
    }
    true
}

} // verus!
