//! Textual encodings used when hashing: decimal numbers and lowercase hex.
use vstd::prelude::*;

verus! {

/// The ASCII character of a digit value below sixteen, lowercase for ten and up.
pub open spec fn hex_char(n: nat) -> char {
    if n < 10 {
        ((n + 48) as u8) as char
    } else {
        ((n + 87) as u8) as char
    }
}

/// Decimal text of a natural number, without leading zeros.
pub open spec fn dec_text(n: nat) -> Seq<char>
    decreases n,
{
    if n < 10 {
        seq![hex_char(n)]
    } else {
        dec_text(n / 10) + seq![hex_char(n % 10)]
    }
}

/// Decimal text of an integer, with a leading minus sign when negative.
pub open spec fn signed_dec_text(i: int) -> Seq<char> {
    if i < 0 {
        seq!['-'] + dec_text((-i) as nat)
    } else {
        dec_text(i as nat)
    }
}

/// The two lowercase hex characters of one byte, high nibble first.
pub open spec fn hex_pair(b: u8) -> Seq<char> {
    seq![hex_char((b / 16) as nat), hex_char((b % 16) as nat)]
}

/// Lowercase hex text of a byte sequence, two characters per byte.
pub open spec fn hex_text(d: Seq<u8>) -> Seq<char>
    decreases d.len(),
{
    if d.len() == 0 {
        Seq::empty()
    } else {
        hex_text(d.drop_last()) + hex_pair(d.last())
    }
}

/// Whether a character is one of `0-9a-f`.
pub open spec fn is_lower_hex_char(c: char) -> bool {
    ('0' <= c && c <= '9') || ('a' <= c && c <= 'f')
}

/// Hex text has two characters per byte: the high nibble's digit, then the low one's.
pub proof fn lemma_hex_text_index(d: Seq<u8>)
    ensures
        hex_text(d).len() == 2 * d.len(),
        forall|k: int|
            0 <= k < d.len() ==> {
                &&& #[trigger] hex_text(d)[2 * k] == hex_char((d[k] / 16) as nat)
                &&& hex_text(d)[2 * k + 1] == hex_char((d[k] % 16) as nat)
            },
    decreases d.len(),
{
    if d.len() > 0 {
        let p = d.drop_last();
        lemma_hex_text_index(p);
        let h = hex_text(d);
        assert(h == hex_text(p) + hex_pair(d.last()));
        assert forall|k: int| 0 <= k < d.len() implies {
            &&& #[trigger] hex_text(d)[2 * k] == hex_char((d[k] / 16) as nat)
            &&& hex_text(d)[2 * k + 1] == hex_char((d[k] % 16) as nat)
        } by {
            if k < p.len() {
                assert(d[k] == p[k]);
                assert(h[2 * k] == hex_text(p)[2 * k]);
                assert(h[2 * k + 1] == hex_text(p)[2 * k + 1]);
            } else {
                assert(h[2 * k] == hex_pair(d.last())[0]);
                assert(h[2 * k + 1] == hex_pair(d.last())[1]);
            }
        }
    }
}

/// Every character of hex text is a lowercase hex digit.
pub proof fn lemma_hex_text_lower(d: Seq<u8>)
    ensures
        forall|j: int| 0 <= j < hex_text(d).len() ==> is_lower_hex_char(#[trigger] hex_text(d)[j]),
{
    lemma_hex_text_index(d);
    assert forall|j: int| 0 <= j < hex_text(d).len() implies is_lower_hex_char(
        #[trigger] hex_text(d)[j],
    ) by {
        let k = j / 2;
        if j % 2 == 0 {
            assert(j == 2 * k);
            assert(hex_text(d)[2 * k] == hex_char((d[k] / 16) as nat));
        } else {
            assert(j == 2 * k + 1);
            assert(hex_text(d)[2 * k] == hex_char((d[k] / 16) as nat));
        }
    }
}

/// A digit character is `'0'` exactly for the value zero.
pub proof fn lemma_hex_char_zero(n: nat)
    requires
        n < 16,
    ensures
        (hex_char(n) == '0') == (n == 0),
{
}

/// Hex text starts with four `'0'` exactly when its first two bytes are zero.
pub proof fn lemma_hex_text_four_zeros(d: Seq<u8>)
    requires
        d.len() >= 2,
    ensures
        (hex_text(d).take(4) == seq!['0', '0', '0', '0']) == (d[0] == 0 && d[1] == 0),
{
    lemma_hex_text_index(d);
    let h = hex_text(d);
    assert(h[2 * (0 as int)] == hex_char((d[0] / 16) as nat));
    assert(h[2 * (1 as int)] == hex_char((d[1] / 16) as nat));
    lemma_hex_char_zero((d[0] / 16) as nat);
    lemma_hex_char_zero((d[0] % 16) as nat);
    lemma_hex_char_zero((d[1] / 16) as nat);
    lemma_hex_char_zero((d[1] % 16) as nat);
    if d[0] == 0 && d[1] == 0 {
        assert(h.take(4) =~= seq!['0', '0', '0', '0']);
    } else if h.take(4) == seq!['0', '0', '0', '0'] {
        assert(h.take(4)[0] == h[0]);
        assert(h.take(4)[1] == h[1]);
        assert(h.take(4)[2] == h[2]);
        assert(h.take(4)[3] == h[3]);
    }
}

/// One-character string literal for a digit value below sixteen.
fn digit_str(n: u8) -> (r: &'static str)
    requires
        n < 16,
    ensures
        r@ == seq![hex_char(n as nat)],
{
    proof {
        reveal_strlit("0");
        reveal_strlit("1");
        reveal_strlit("2");
        reveal_strlit("3");
        reveal_strlit("4");
        reveal_strlit("5");
        reveal_strlit("6");
        reveal_strlit("7");
        reveal_strlit("8");
        reveal_strlit("9");
        reveal_strlit("a");
        reveal_strlit("b");
        reveal_strlit("c");
        reveal_strlit("d");
        reveal_strlit("e");
        reveal_strlit("f");
    }
    match n {
        0 => "0",
        1 => "1",
        2 => "2",
        3 => "3",
        4 => "4",
        5 => "5",
        6 => "6",
        7 => "7",
        8 => "8",
        9 => "9",
        10 => "a",
        11 => "b",
        12 => "c",
        13 => "d",
        14 => "e",
        _ => "f",
    }
}

/// Appends the decimal text of `n` to `s`.
pub fn push_decimal(s: &mut String, n: u64)
    ensures
        final(s)@ == old(s)@ + dec_text(n as nat),
    decreases n,
{
    if n >= 10 {
        push_decimal(s, n / 10);
    }
    s.append(digit_str((n % 10) as u8));
    assert(final(s)@ =~= old(s)@ + dec_text(n as nat));
}

/// Appends the decimal text of `i`, with a minus sign when negative, to `s`.
pub fn push_signed_decimal(s: &mut String, i: i64)
    ensures
        final(s)@ == old(s)@ + signed_dec_text(i as int),
{
    if i < 0 {
        proof {
            reveal_strlit("-");
        }
        s.append("-");
        let magnitude: u64 = (-(i as i128)) as u64;
        push_decimal(s, magnitude);
        assert(final(s)@ =~= old(s)@ + signed_dec_text(i as int));
    } else {
        push_decimal(s, i as u64);
    }
}

/// Lowercase hex text of `d`.
pub fn to_hex(d: &Vec<u8>) -> (r: String)
    ensures
        r@ == hex_text(d@),
{
    let mut s = String::new();
    let mut i: usize = 0;
    while i < d.len()
        invariant
            i <= d@.len(),
            s@ == hex_text(d@.take(i as int)),
        decreases d@.len() - i,
    {
        let b = d[i];
        s.append(digit_str(b / 16));
        s.append(digit_str(b % 16));
        assert(d@.take(i + 1).drop_last() =~= d@.take(i as int));
        assert(s@ =~= hex_text(d@.take(i + 1)));
        i = i + 1;
    }
    assert(d@.take(d@.len() as int) =~= d@);
    s
}

} // verus!
