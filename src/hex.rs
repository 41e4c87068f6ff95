use vstd::prelude::*;
use vstd::string::StringExecFns;

verus! {

/// The sixteen lowercase hexadecimal digits, indexed by their value.
pub open spec fn hex_alphabet() -> Seq<char> {
    seq!['0', '1', '2', '3', '4', '5', '6', '7', '8', '9', 'a', 'b', 'c', 'd', 'e', 'f']
}

/// A character of lowercase hexadecimal: `0`-`9` or `a`-`f`.
pub open spec fn is_lower_hex(c: char) -> bool {
    ('0' <= c && c <= '9') || ('a' <= c && c <= 'f')
}

/// `bytes` in lowercase hexadecimal: two characters for each byte, the high
/// half first.
pub open spec fn hex_spec(bytes: Seq<u8>) -> Seq<char> {
    Seq::new(
        2 * bytes.len(),
        |i: int|
            if i % 2 == 0 {
                hex_alphabet()[(bytes[i / 2] / 16) as int]
            } else {
                hex_alphabet()[(bytes[i / 2] % 16) as int]
            },
    )
}

/// The hexadecimal rendering of `n` bytes is `2 * n` characters, each of
/// them a lowercase hexadecimal digit.
pub proof fn hex_format(bytes: Seq<u8>)
    ensures
        hex_spec(bytes).len() == 2 * bytes.len(),
        forall|i: int| 0 <= i < hex_spec(bytes).len() ==> is_lower_hex(#[trigger] hex_spec(bytes)[i]),
{
    assert forall|k: int| 0 <= k < 16 implies is_lower_hex(#[trigger] hex_alphabet()[k]) by {
        assert(k == 0 || k == 1 || k == 2 || k == 3 || k == 4 || k == 5 || k == 6 || k == 7 || k
            == 8 || k == 9 || k == 10 || k == 11 || k == 12 || k == 13 || k == 14 || k == 15);
    }
    assert forall|i: int| 0 <= i < hex_spec(bytes).len() implies is_lower_hex(
        #[trigger] hex_spec(bytes)[i],
    ) by {
        let b = bytes[i / 2] as int;
        if i % 2 == 0 {
            assert(0 <= b / 16 < 16);
            assert(is_lower_hex(hex_alphabet()[b / 16]));
        } else {
            assert(0 <= b % 16 < 16);
            assert(is_lower_hex(hex_alphabet()[b % 16]));
        }
    }
}

/// The one-character string of the hexadecimal digit `d`.
fn digit_str(d: u8) -> (r: &'static str)
    requires
        d < 16,
    ensures
        r@ == seq![hex_alphabet()[d as int]],
{
    match d {
        0 => { proof { reveal_strlit("0"); } "0" },
        1 => { proof { reveal_strlit("1"); } "1" },
        2 => { proof { reveal_strlit("2"); } "2" },
        3 => { proof { reveal_strlit("3"); } "3" },
        4 => { proof { reveal_strlit("4"); } "4" },
        5 => { proof { reveal_strlit("5"); } "5" },
        6 => { proof { reveal_strlit("6"); } "6" },
        7 => { proof { reveal_strlit("7"); } "7" },
        8 => { proof { reveal_strlit("8"); } "8" },
        9 => { proof { reveal_strlit("9"); } "9" },
        10 => { proof { reveal_strlit("a"); } "a" },
        11 => { proof { reveal_strlit("b"); } "b" },
        12 => { proof { reveal_strlit("c"); } "c" },
        13 => { proof { reveal_strlit("d"); } "d" },
        14 => { proof { reveal_strlit("e"); } "e" },
        _ => { proof { reveal_strlit("f"); } "f" },
    }
}

/// Renders `digest` in lowercase hexadecimal.
pub fn digest_hex(digest: &[u8]) -> (r: String)
    requires
        2 * digest@.len() <= usize::MAX,
    ensures
        r@ == hex_spec(digest@),
{
    let mut out = String::new();
    let mut i: usize = 0;
    while i < digest.len()
        invariant
            i <= digest@.len(),
            out@ == hex_spec(digest@.subrange(0, i as int)),
        decreases digest@.len() - i,
    {
        let b = digest[i];
        out.append(digit_str(b / 16));
        out.append(digit_str(b % 16));
        i = i + 1;
        assert(out@ =~= hex_spec(digest@.subrange(0, i as int)));
    }
    assert(digest@.subrange(0, i as int) =~= digest@);
    out
}

} // verus!
