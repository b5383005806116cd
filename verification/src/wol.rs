//! Wake-on-LAN: hardware-address parsing and magic-packet construction.
//!
//! A textual hardware address is six groups of one or two hexadecimal
//! digits separated by `:` or `-`. The magic packet is six `0xff` bytes
//! followed by the six address bytes repeated sixteen times, 102 bytes
//! in all. Broadcasting the packet is the caller's business; this module
//! only builds it.

use vstd::prelude::*;

verus! {

/// Error for a hardware address that does not parse.
#[derive(Clone, Copy, PartialEq, Eq, Structural, Debug)]
pub enum WolError {
    InvalidMac,
}

/// A group separator in a textual hardware address: `:` (58) or `-` (45).
pub open spec fn is_sep(c: char) -> bool {
    c as u32 == 58 || c as u32 == 45
}

/// Value of a hexadecimal digit, accepting both cases.
pub open spec fn hex_digit_value(c: char) -> Option<u8> {
    if 48 <= c as u32 <= 57 {  // '0'..'9'
        Some((c as u32 - 48) as u8)
    } else if 97 <= c as u32 <= 102 {  // 'a'..'f'
        Some((c as u32 - 87) as u8)
    } else if 65 <= c as u32 <= 70 {  // 'A'..'F'
        Some((c as u32 - 55) as u8)
    } else {
        None
    }
}

/// Parser state: the completed address bytes, how many digits the open
/// group holds so far, and the open group's value.
pub struct MacParse {
    pub bytes: Seq<u8>,
    pub digits: nat,
    pub val: u8,
}

/// One parser step over the next character. A separator closes a
/// non-empty group; a hexadecimal digit extends a group of fewer than
/// two digits; anything else is malformed.
pub open spec fn mac_step(st: MacParse, c: char) -> Option<MacParse> {
    if is_sep(c) {
        if st.digits == 0 {
            None
        } else {
            Some(MacParse { bytes: st.bytes.push(st.val), digits: 0, val: 0 })
        }
    } else {
        match hex_digit_value(c) {
            Some(d) => if st.digits < 2 {
                Some(MacParse { bytes: st.bytes, digits: st.digits + 1, val: (16 * st.val + d) as u8 })
            } else {
                None
            },
            None => None,
        }
    }
}

/// Parser state after the first `i` characters, or `None` once the
/// prefix is malformed.
pub open spec fn mac_run(s: Seq<char>, i: int) -> Option<MacParse>
    decreases i,
{
    if i <= 0 {
        Some(MacParse { bytes: Seq::empty(), digits: 0, val: 0 })
    } else {
        match mac_run(s, i - 1) {
            None => None,
            Some(st) => mac_step(st, s[i - 1]),
        }
    }
}

/// The bytes of a textual hardware address, or `None` when it is
/// malformed or does not hold exactly six groups.
pub open spec fn spec_parse_mac(s: Seq<char>) -> Option<Seq<u8>> {
    match mac_run(s, s.len() as int) {
        None => None,
        Some(st) => if st.digits == 0 {
            None
        } else {
            let bs = st.bytes.push(st.val);
            if bs.len() == 6 {
                Some(bs)
            } else {
                None
            }
        },
    }
}

/// Once the parser has failed on a prefix, it stays failed.
proof fn lemma_mac_run_none(s: Seq<char>, j: int, k: int)
    requires
        0 <= j <= k,
        mac_run(s, j) is None,
    ensures
        mac_run(s, k) is None,
    decreases k - j,
{
    if j < k {
        lemma_mac_run_none(s, j, k - 1);
    }
}

/// Along any successful run the open group is well formed: at most two
/// digits, and the value fits what the digits seen so far can spell.
proof fn lemma_mac_run_wf(s: Seq<char>, i: int)
    requires
        mac_run(s, i) is Some,
    ensures
        mac_run(s, i)->Some_0.digits <= 2,
        mac_run(s, i)->Some_0.digits == 0 ==> mac_run(s, i)->Some_0.val == 0,
        mac_run(s, i)->Some_0.digits == 1 ==> mac_run(s, i)->Some_0.val < 16,
    decreases i,
{
    if i > 0 {
        lemma_mac_run_wf(s, i - 1);
    }
}

/// Parses a textual hardware address into its six bytes.
pub fn parse_mac(s: &str) -> (r: Result<Vec<u8>, WolError>)
    ensures
        match r {
            Ok(m) => spec_parse_mac(s@) == Some(m@),
            Err(e) => spec_parse_mac(s@) is None && e == WolError::InvalidMac,
        },
{
    let n = s.unicode_len();
    let mut bytes: Vec<u8> = Vec::new();
    let mut digits: u8 = 0;
    let mut val: u8 = 0;
    let mut i: usize = 0;
    while i < n
        invariant
            n == s@.len(),
            i <= n,
            mac_run(s@, i as int) == Some(MacParse { bytes: bytes@, digits: digits as nat, val: val }),
            digits <= 2,
            digits == 0 ==> val == 0,
            digits == 1 ==> val < 16,
        decreases n - i,
    {
        let c = s.get_char(i);
        let v: u32 = c as u32;
        if v == 58 || v == 45 {
            if digits == 0 {
                proof { lemma_mac_run_none(s@, i + 1, s@.len() as int); }
                return Err(WolError::InvalidMac);
            }
            bytes.push(val);
            digits = 0;
            val = 0;
        } else {
            let d: u8;
            if 48 <= v && v <= 57 {
                d = (v - 48) as u8;
            } else if 97 <= v && v <= 102 {
                d = (v - 87) as u8;
            } else if 65 <= v && v <= 70 {
                d = (v - 55) as u8;
            } else {
                proof { lemma_mac_run_none(s@, i + 1, s@.len() as int); }
                return Err(WolError::InvalidMac);
            }
            if digits == 2 {
                proof { lemma_mac_run_none(s@, i + 1, s@.len() as int); }
                return Err(WolError::InvalidMac);
            }
            val = 16 * val + d;
            digits = digits + 1;
        }
        i = i + 1;
    }
    if digits == 0 {
        return Err(WolError::InvalidMac);
    }
    bytes.push(val);
    if bytes.len() == 6 {
        Ok(bytes)
    } else {
        Err(WolError::InvalidMac)
    }
}

/// The 102-byte magic packet for a six-byte hardware address: six `0xff`
/// bytes, then the address sixteen times over.
pub open spec fn spec_magic_packet(mac: Seq<u8>) -> Seq<u8> {
    Seq::new(102, |i: int| if i < 6 { 0xffu8 } else { mac[(i - 6) % 6] })
}

/// Builds the magic packet for a six-byte hardware address.
pub fn magic_packet(mac: &Vec<u8>) -> (r: Vec<u8>)
    requires
        mac@.len() == 6,
    ensures
        r@ == spec_magic_packet(mac@),
        r@.len() == 102,
{
    let mut r: Vec<u8> = Vec::new();
    let mut i: usize = 0;
    while i < 6
        invariant
            i <= 6,
            r@.len() == i,
            forall|j: int| 0 <= j < i ==> r@[j] == 0xffu8,
        decreases 6 - i,
    {
        r.push(0xff);
        i = i + 1;
    }
    let mut k: usize = 0;
    while k < 16
        invariant
            mac@.len() == 6,
            k <= 16,
            r@.len() == 6 + 6 * k,
            forall|j: int| 0 <= j < r@.len() ==> r@[j] == spec_magic_packet(mac@)[j],
        decreases 16 - k,
    {
        let mut j: usize = 0;
        while j < 6
            invariant
                mac@.len() == 6,
                k < 16,
                j <= 6,
                r@.len() == 6 + 6 * k + j,
                forall|p: int| 0 <= p < r@.len() ==> r@[p] == spec_magic_packet(mac@)[p],
            decreases 6 - j,
        {
            proof {
                let pos = 6 + 6 * (k as int) + (j as int);
                assert((pos - 6) % 6 == j as int) by {
                    vstd::arithmetic::div_mod::lemma_mod_multiples_vanish(k as int, j as int, 6);
                    vstd::arithmetic::div_mod::lemma_small_mod(j as nat, 6);
                };
            }
            r.push(mac[j]);
            j = j + 1;
        }
        k = k + 1;
    }
    assert(r@ =~= spec_magic_packet(mac@));
    r
}

/// Parses a textual hardware address and builds its magic packet.
pub fn wake_packet(mac_address: &str) -> (r: Result<Vec<u8>, WolError>)
    ensures
        match r {
            Ok(p) => spec_parse_mac(mac_address@) matches Some(m) && p@ == spec_magic_packet(m),
            Err(_) => spec_parse_mac(mac_address@) is None,
        },
{
    match parse_mac(mac_address) {
        Ok(mac) => Ok(magic_packet(&mac)),
        Err(e) => Err(e),
    }
}

} // verus!
