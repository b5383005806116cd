//! Building hexadecimal and decimal strings, verified character by
//! character. The transfer protocol spells digests and identifiers in
//! lower-case hex and timestamps in decimal.

use vstd::prelude::*;

verus! {

/// The lower-case hexadecimal digit for a value below sixteen.
pub open spec fn hex_digit(d: u8) -> char
    recommends
        d < 16,
{
    if d == 0 { '0' }
    else if d == 1 { '1' }
    else if d == 2 { '2' }
    else if d == 3 { '3' }
    else if d == 4 { '4' }
    else if d == 5 { '5' }
    else if d == 6 { '6' }
    else if d == 7 { '7' }
    else if d == 8 { '8' }
    else if d == 9 { '9' }
    else if d == 10 { 'a' }
    else if d == 11 { 'b' }
    else if d == 12 { 'c' }
    else if d == 13 { 'd' }
    else if d == 14 { 'e' }
    else { 'f' }
}

/// The lower-case hex spelling of a byte string, two digits per byte.
pub open spec fn hex_of(bytes: Seq<u8>) -> Seq<char>
    decreases bytes.len(),
{
    if bytes.len() == 0 {
        Seq::empty()
    } else {
        seq![hex_digit(bytes[0] / 16), hex_digit(bytes[0] % 16)] + hex_of(bytes.drop_first())
    }
}

/// A hex spelling is twice as long as the bytes it spells.
pub proof fn lemma_hex_of_len(bytes: Seq<u8>)
    ensures
        hex_of(bytes).len() == 2 * bytes.len(),
    decreases bytes.len(),
{
    if bytes.len() > 0 {
        lemma_hex_of_len(bytes.drop_first());
    }
}

/// Hex spellings are ASCII.
pub proof fn lemma_hex_of_ascii(bytes: Seq<u8>)
    ensures
        vstd::utf8::is_ascii_chars(hex_of(bytes)),
    decreases bytes.len(),
{
    if bytes.len() > 0 {
        lemma_hex_of_ascii(bytes.drop_first());
        let s = hex_of(bytes);
        let rest = hex_of(bytes.drop_first());
        assert forall|i: int| 0 <= i < s.len() implies '\0' <= #[trigger] s[i] <= '\u{7f}' by {
            if i >= 2 {
                assert(s[i] == rest[i - 2]);
            }
        }
    }
}

/// Appends one digit character (hex digit; decimal digits are the first
/// ten) to a string.
pub fn push_digit(s: &mut String, d: u8)
    requires
        d < 16,
    ensures
        final(s)@ == old(s)@.push(hex_digit(d)),
{
    let ghost s0 = s@;
    match d {
        0 => {
            proof { reveal_strlit("0"); }
            s.append("0");
        },
        1 => {
            proof { reveal_strlit("1"); }
            s.append("1");
        },
        2 => {
            proof { reveal_strlit("2"); }
            s.append("2");
        },
        3 => {
            proof { reveal_strlit("3"); }
            s.append("3");
        },
        4 => {
            proof { reveal_strlit("4"); }
            s.append("4");
        },
        5 => {
            proof { reveal_strlit("5"); }
            s.append("5");
        },
        6 => {
            proof { reveal_strlit("6"); }
            s.append("6");
        },
        7 => {
            proof { reveal_strlit("7"); }
            s.append("7");
        },
        8 => {
            proof { reveal_strlit("8"); }
            s.append("8");
        },
        9 => {
            proof { reveal_strlit("9"); }
            s.append("9");
        },
        10 => {
            proof { reveal_strlit("a"); }
            s.append("a");
        },
        11 => {
            proof { reveal_strlit("b"); }
            s.append("b");
        },
        12 => {
            proof { reveal_strlit("c"); }
            s.append("c");
        },
        13 => {
            proof { reveal_strlit("d"); }
            s.append("d");
        },
        14 => {
            proof { reveal_strlit("e"); }
            s.append("e");
        },
        _ => {
            proof { reveal_strlit("f"); }
            s.append("f");
        },
    }
    proof {
        assert(s@ =~= s0.push(hex_digit(d)));
    }
}

/// Spells bytes in lower-case hex.
pub fn hex_string(bytes: &[u8]) -> (r: String)
    ensures
        r@ == hex_of(bytes@),
{
    let mut r = String::new();
    let n = bytes.len();
    let mut i: usize = 0;
    proof {
        assert(bytes@.skip(0) =~= bytes@);
        assert(r@ + hex_of(bytes@) =~= hex_of(bytes@));
    }
    while i < n
        invariant
            n == bytes@.len(),
            i <= n,
            r@ + hex_of(bytes@.skip(i as int)) == hex_of(bytes@),
        decreases n - i,
    {
        let b = *vstd::slice::slice_index_get(bytes, i);
        let ghost before = r@;
        proof {
            assert(bytes@.skip(i as int).drop_first() =~= bytes@.skip(i as int + 1));
        }
        push_digit(&mut r, b / 16);
        push_digit(&mut r, b % 16);
        proof {
            assert(r@ =~= before + seq![hex_digit(b / 16), hex_digit(b % 16)]);
            assert(r@ + hex_of(bytes@.skip(i as int + 1)) =~= before + hex_of(
                bytes@.skip(i as int),
            ));
        }
        i = i + 1;
    }
    proof {
        assert(bytes@.skip(n as int) =~= Seq::<u8>::empty());
        assert(r@ =~= hex_of(bytes@));
    }
    r
}

/// The decimal spelling of a number, most significant digit first, with
/// no leading zeros (zero itself is "0").
pub open spec fn dec_of(n: nat) -> Seq<char>
    decreases n,
{
    if n < 10 {
        seq![hex_digit(n as u8)]
    } else {
        dec_of(n / 10) + seq![hex_digit((n % 10) as u8)]
    }
}

/// Spells a number in decimal.
pub fn u64_to_decimal(n: u64) -> (r: String)
    ensures
        r@ == dec_of(n as nat),
    decreases n,
{
    if n < 10 {
        let mut s = String::new();
        push_digit(&mut s, n as u8);
        proof {
            assert(s@ =~= dec_of(n as nat));
        }
        s
    } else {
        let mut s = u64_to_decimal(n / 10);
        push_digit(&mut s, (n % 10) as u8);
        proof {
            assert(s@ =~= dec_of(n as nat));
        }
        s
    }
}

} // verus!
