//! Framing of the line-oriented input: which lines carry a record, and the
//! record's text.
use vstd::prelude::*;
use crate::data::str_eq;

verus! {

/// The number of lines decoded together.
pub const BATCH_SIZE: usize = 0x10000;

/// The record text a line carries: none for an empty line or a bracket of
/// the enclosing JSON array; otherwise the line, less a leading ", ".
pub open spec fn framed(l: Seq<char>) -> Option<Seq<char>> {
    if l.len() == 0 || l == "["@ || l == "]"@ {
        None
    } else if l.len() >= 2 && l.subrange(0, 2) == ", "@ {
        Some(l.subrange(2, l.len() as int))
    } else {
        Some(l)
    }
}

/// The record text that line `l` carries, if any.
pub fn frame_line(l: &str) -> (r: Option<String>)
    ensures
        match framed(l@) {
            Some(t) => r matches Some(s) && s@ == t,
            None => r.is_none(),
        },
{
    proof {
        reveal_strlit("[");
        reveal_strlit("]");
        reveal_strlit(", ");
    }
    let n = l.unicode_len();
    if n == 0 || str_eq(l, "[") || str_eq(l, "]") {
        return None;
    }
    if n >= 2 && str_eq(l.substring_char(0, 2), ", ") {
        return Some(l.substring_char(2, n).to_owned());
    }
    Some(l.to_owned())
}

} // verus!
