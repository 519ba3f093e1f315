//! Digests: MD5 over bytes, and its sixteen bytes written as lower-case
//! hexadecimal text.

use vstd::prelude::*;
use vstd::string::StringExecFns;

verus! {

/// The MD5 digest of `data`, as the `md5` crate computes it.
pub uninterp spec fn md5_digest(data: Seq<u8>) -> Seq<u8>;

/// `md5::compute`, whose result is a function of the bytes alone: its
/// sixteen bytes are `md5_digest` of the input.
#[verifier::external_body]
pub(crate) fn md5_compute(data: &[u8]) -> (digest: [u8; 16])
    ensures
        digest@ == md5_digest(data@),
{
    md5::compute(data).0
}

/// The sixteen hexadecimal digits, lower case.
pub open spec fn hex_digits() -> Seq<char> {
    seq!['0', '1', '2', '3', '4', '5', '6', '7', '8', '9', 'a', 'b', 'c', 'd', 'e', 'f']
}

/// `bytes` in hexadecimal: two digits for each byte, the upper half first.
pub open spec fn hex_lower(bytes: Seq<u8>) -> Seq<char> {
    Seq::new(
        2 * bytes.len(),
        |i: int|
            if i % 2 == 0 {
                hex_digits()[bytes[i / 2] as int / 16]
            } else {
                hex_digits()[bytes[i / 2] as int % 16]
            },
    )
}

/// The digit for `nibble`, as text.
fn hex_digit(nibble: u8) -> (s: &'static str)
    requires
        nibble < 16,
    ensures
        s@ == seq![hex_digits()[nibble as int]],
{
    proof {
        reveal_strlit("0");
        reveal_strlit("1");
        reveal_strlit("2");
        reveal_strlit("3");
        reveal_strlit("4");
        reveal_strlit("5");
        reveal_strlit("6");
        reveal_strlit("7");
        reveal_strlit("8");
        reveal_strlit("9");
        reveal_strlit("a");
        reveal_strlit("b");
        reveal_strlit("c");
        reveal_strlit("d");
        reveal_strlit("e");
        reveal_strlit("f");
    }
    let s = match nibble {
        0 => "0",
        1 => "1",
        2 => "2",
        3 => "3",
        4 => "4",
        5 => "5",
        6 => "6",
        7 => "7",
        8 => "8",
        9 => "9",
        10 => "a",
        11 => "b",
        12 => "c",
        13 => "d",
        14 => "e",
        _ => "f",
    };
    assert(s@ =~= seq![hex_digits()[nibble as int]]);
    s
}

/// Writes a digest as thirty-two lower-case hexadecimal digits.
pub fn to_hex(digest: &[u8; 16]) -> (text: String)
    ensures
        text@ == hex_lower(digest@),
{
    let mut text = String::new();
    let mut i: usize = 0;
    while i < 16
        invariant
            i <= 16,
            text@ == hex_lower(digest@.take(i as int)),
        decreases 16 - i,
    {
        let byte: u8 = digest[i];
        let ghost before = text@;
        text.append(hex_digit(byte / 16));
        text.append(hex_digit(byte % 16));
        assert(text@ =~= hex_lower(digest@.take(i as int + 1))) by {
            let head = digest@.take(i as int);
            let next = digest@.take(i as int + 1);
            assert(before == hex_lower(head));
            assert forall|k: int| 0 <= k < 2 * i implies text@[k] == hex_lower(next)[k] by {
                assert(text@[k] == hex_lower(head)[k]);
                assert(head[k / 2] == next[k / 2]);
            }
            assert(next[i as int] == byte);
        }
        i += 1;
    }
    assert(digest@.take(16) =~= digest@);
    text
}

} // verus!
