//! Writing a string into a caller-owned, fixed-capacity output buffer.

use vstd::prelude::*;
use vstd::utf8::encode_utf8;

verus! {

/// The byte that ends a string in the output buffer.
pub const TERMINATOR: libc::c_char = 0;

/// A text fits a capacity if its bytes and one terminator do.
pub open spec fn fits(text: Seq<char>, capacity: nat) -> bool {
    encode_utf8(text).len() + 1 <= capacity
}

/// The buffer `before` after `text` was written into it: the bytes of the text
/// from the start, one terminator behind them, and the rest as it was.
pub open spec fn written(before: Seq<libc::c_char>, text: Seq<char>) -> Seq<libc::c_char> {
    let bytes = encode_utf8(text);
    Seq::new(
        before.len(),
        |i: int|
            if i < bytes.len() {
                bytes[i] as libc::c_char
            } else if i == bytes.len() {
                TERMINATOR
            } else {
                before[i]
            },
    )
}

/// Copies `string` and one terminator into `buf`, of which the first
/// `buf_size` places may be used.
///
/// Succeeds, with the number of bytes copied before the terminator, exactly
/// when the bytes of the string and the terminator fit into `buf_size`;
/// otherwise nothing is written. Places behind the terminator are never
/// touched.
pub fn write_cstr(string: String, buf: &mut [libc::c_char], buf_size: libc::size_t) -> (copied:
    Option<libc::size_t>)
    requires
        buf_size <= old(buf)@.len(),
    ensures
        copied is Some <==> fits(string@, buf_size as nat),
        copied matches Some(n) ==> n == encode_utf8(string@).len() && final(buf)@ == written(
            old(buf)@,
            string@,
        ),
        copied is None ==> final(buf)@ == old(buf)@,
{
    let bytes = string.as_str().as_bytes();
    let len_to_copy = bytes.len();
    if len_to_copy >= buf_size {
        return None;
    }
    let mut i: usize = 0;
    while i < len_to_copy
        invariant
            i <= len_to_copy,
            len_to_copy == bytes@.len(),
            len_to_copy < buf_size <= buf@.len(),
            buf@.len() == old(buf)@.len(),
            forall|j: int| 0 <= j < i ==> buf@[j] == bytes@[j] as libc::c_char,
            forall|j: int| i <= j < buf@.len() ==> buf@[j] == old(buf)@[j],
        decreases len_to_copy - i,
    {
        buf[i] = bytes[i] as libc::c_char;
        i = i + 1;
    }
    buf[len_to_copy] = TERMINATOR;
    assert(buf@ =~= written(old(buf)@, string@));
    Some(len_to_copy)
}

} // verus!
