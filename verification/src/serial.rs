//! Line assembly for the serial console: one byte at a time into a line
//! buffer. The transport that delivers the bytes stays outside the
//! library.

use vstd::prelude::*;

verus! {

/// Feeds one received byte into the line being assembled and reports
/// whether the line is complete: a carriage return or newline ends a
/// non-empty line and is skipped at the start of one; only printable
/// bytes are kept.
pub fn read_line_step(s: &mut String, b: u8) -> (done: bool)
    ensures
        (b == 10 || b == 13) && old(s)@.len() == 0 ==> !done && final(s)@ == old(s)@,
        (b == 10 || b == 13) && old(s)@.len() > 0 ==> done && final(s)@ == old(s)@,
        !(b == 10 || b == 13) && 32 <= b <= 126 ==> !done && final(s)@ == old(s)@.push(b as char),
        !(b == 10 || b == 13) && !(32 <= b <= 126) ==> !done && final(s)@ == old(s)@,
{
    if b == 10 || b == 13 {
        !s.as_str().is_empty()
    } else if 32 <= b && b <= 126 {
        s.push(b as char);
        false
    } else {
        false
    }
}

} // verus!
