//! Record identifiers: which ones a sync server accepts, and how fresh ones are made.

use vstd::prelude::*;
use crate::text::{push_char, to_chars};

verus! {

/// Whether a sync server accepts `c` in an identifier: printable ASCII other than the comma.
pub open spec fn is_sync_char(c: char) -> bool {
    ' ' <= c && c <= '~' && c != ','
}

/// Whether a sync server accepts `g` as an identifier: 1 to 64 accepted characters.
pub open spec fn valid_for_sync_server(g: Seq<char>) -> bool {
    &&& 1 <= g.len() <= 64
    &&& forall|i: int| 0 <= i < g.len() ==> is_sync_char(#[trigger] g[i])
}

/// The character that stands for the 6-bit value `v` in the URL-safe base-64 alphabet.
pub open spec fn alphabet_char(v: u8) -> char {
    if v < 26 {
        ((65 + v) as u8) as char
    } else if v < 52 {
        ((97 + (v - 26)) as u8) as char
    } else if v < 62 {
        ((48 + (v - 52)) as u8) as char
    } else if v == 62 {
        '-'
    } else {
        '_'
    }
}

/// The 6-bit group of `bits` at position `k`, counted from the low end.
pub open spec fn sextet(bits: u128, k: nat) -> u8 {
    ((bits >> ((6 * k) as u128)) & 63) as u8
}

/// The identifier that the 72 low bits of `bits` spell: twelve characters of the URL-safe
/// base-64 alphabet, the lowest group first.
pub open spec fn guid_of_bits(bits: u128) -> Seq<char> {
    Seq::new(12, |k: int| alphabet_char(sextet(bits, k as nat)))
}

/// Draws 128 bits with `rand::random`. Nothing is claimed of the value.
#[verifier::external_body]
fn random_bits() -> u128 {
    rand::random::<u128>()
}

/// Whether a sync server accepts `g` as an identifier.
pub fn is_valid_for_sync_server(g: &str) -> (r: bool)
    ensures
        r == valid_for_sync_server(g@),
{
    let x = to_chars(g);
    if x.len() < 1 || x.len() > 64 {
        return false;
    }
    let mut i: usize = 0;
    while i < x.len()
        invariant
            i <= x.len(),
            x@ == g@,
            forall|k: int| 0 <= k < i ==> is_sync_char(#[trigger] x@[k]),
        decreases x.len() - i,
    {
        let c = x[i];
        if !(' ' <= c && c <= '~' && c != ',') {
            return false;
        }
        i += 1;
    }
    true
}

/// The alphabet character of a 6-bit value.
fn alphabet(v: u8) -> (c: char)
    requires
        v < 64,
    ensures
        c == alphabet_char(v),
        is_sync_char(c),
{
    if v < 26 {
        (65 + v) as char
    } else if v < 52 {
        (97 + (v - 26)) as char
    } else if v < 62 {
        (48 + (v - 52)) as char
    } else if v == 62 {
        '-'
    } else {
        '_'
    }
}

/// The identifier that the low bits of `bits` spell. Every such identifier is accepted by a
/// sync server.
pub fn guid_from_bits(bits: u128) -> (g: String)
    ensures
        g@ == guid_of_bits(bits),
        valid_for_sync_server(g@),
{
    let mut g = String::new();
    let mut k: u32 = 0;
    while k < 12
        invariant
            k <= 12,
            g@.len() == k,
            forall|i: int| 0 <= i < k ==> g@[i] == alphabet_char(sextet(bits, i as nat)),
            forall|i: int| 0 <= i < k ==> is_sync_char(#[trigger] g@[i]),
        decreases 12 - k,
    {
        let shift: u32 = 6 * k;
        let group: u128 = (bits >> shift) & 63;
        assert(group < 64) by (bit_vector)
            requires
                group == (bits >> shift) & 63,
        ;
        let v: u8 = group as u8;
        assert(v == sextet(bits, k as nat));
        let c = alphabet(v);
        push_char(&mut g, c);
        k += 1;
    }
    assert(g@ =~= guid_of_bits(bits));
    g
}

/// A fresh identifier, drawn at random. Whatever is drawn, a sync server accepts it.
pub fn random_guid() -> (g: String)
    ensures
        g@.len() == 12,
        valid_for_sync_server(g@),
{
    guid_from_bits(random_bits())
}

} // verus!
