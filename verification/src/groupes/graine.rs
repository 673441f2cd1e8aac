//! The hash from which identifiers are drawn.
//!
//! A record gets its identifier from what makes it the record it is, so that
//! the same data yields the same identifier in every run and on every
//! machine. The hash is the 32-bit FNV-1a, written out here rather than taken
//! from a hasher whose algorithm may change.

use vstd::prelude::*;
use vstd::utf8::encode_utf8;

verus! {

/// The value a hash starts from.
pub const FNV_BASE: u32 = 0x811c_9dc5;

/// The factor that a hash is multiplied by after each byte.
pub const FNV_PREMIER: u32 = 0x0100_0193;

/// The hash `h` after the byte `b` has gone into it.
pub open spec fn fnv_octet(h: u32, b: u8) -> u32 {
    vstd::wrapping::u32_specs::wrapping_mul(h ^ (b as u32), FNV_PREMIER)
}

/// The hash `h` after the bytes `octets` have gone into it, first byte first.
pub open spec fn fnv(h: u32, octets: Seq<u8>) -> u32
    decreases octets.len(),
{
    if octets.len() == 0 {
        h
    } else {
        fnv_octet(fnv(h, octets.drop_last()), octets.last())
    }
}

/// The hash `h` after a text: its UTF-8 bytes, then a byte that no UTF-8 text
/// holds, so that two texts in a row never hash like two others.
pub open spec fn fnv_texte(h: u32, t: Seq<char>) -> u32 {
    fnv_octet(fnv(h, encode_utf8(t)), 0xff)
}

/// The hash `h` after an optional text: a zero byte for none, a one byte and
/// the text otherwise.
pub open spec fn fnv_opt_texte(h: u32, t: Option<Seq<char>>) -> u32 {
    match t {
        None => fnv_octet(h, 0),
        Some(t) => fnv_texte(fnv_octet(h, 1), t),
    }
}

/// The four bytes of `n`, least significant first.
pub open spec fn octets_u32(n: u32) -> Seq<u8> {
    seq![
        (n as int % 0x100) as u8,
        (n as int / 0x100 % 0x100) as u8,
        (n as int / 0x1_0000 % 0x100) as u8,
        (n as int / 0x100_0000 % 0x100) as u8,
    ]
}

/// The hash `h` after the four bytes of `n`.
pub open spec fn fnv_u32(h: u32, n: u32) -> u32 {
    fnv(h, octets_u32(n))
}

/// The hash `h` after an optional number: a zero byte for none, a one byte and
/// the number otherwise.
pub open spec fn fnv_opt_u32(h: u32, n: Option<u32>) -> u32 {
    match n {
        None => fnv_octet(h, 0),
        Some(n) => fnv_u32(fnv_octet(h, 1), n),
    }
}

/// Puts one byte into the hash.
pub fn hache_octet(h: u32, b: u8) -> (r: u32)
    ensures
        r == fnv_octet(h, b),
{
    (h ^ (b as u32)).wrapping_mul(FNV_PREMIER)
}

/// Puts bytes into the hash.
pub fn hache_octets(h: u32, octets: &[u8]) -> (r: u32)
    ensures
        r == fnv(h, octets@),
{
    let mut r: u32 = h;
    let mut i: usize = 0;
    while i < octets.len()
        invariant
            i <= octets@.len(),
            r == fnv(h, octets@.take(i as int)),
        decreases octets@.len() - i,
    {
        assert(octets@.take(i + 1).drop_last() =~= octets@.take(i as int));
        r = hache_octet(r, octets[i]);
        i += 1;
    }
    assert(octets@.take(i as int) =~= octets@);
    r
}

/// Puts a text into the hash.
pub fn hache_texte(h: u32, t: &str) -> (r: u32)
    ensures
        r == fnv_texte(h, t@),
{
    hache_octet(hache_octets(h, t.as_bytes()), 0xff)
}

/// Puts an optional text into the hash.
pub fn hache_opt_texte(h: u32, t: &Option<String>) -> (r: u32)
    ensures
        r == fnv_opt_texte(h, crate::texte::vue_opt(*t)),
{
    match t {
        None => hache_octet(h, 0),
        Some(s) => hache_texte(hache_octet(h, 1), s.as_str()),
    }
}

/// Puts a number into the hash.
pub fn hache_u32(h: u32, n: u32) -> (r: u32)
    ensures
        r == fnv_u32(h, n),
{
    let o: [u8; 4] = [
        (n % 0x100) as u8,
        (n / 0x100 % 0x100) as u8,
        (n / 0x1_0000 % 0x100) as u8,
        (n / 0x100_0000 % 0x100) as u8,
    ];
    assert(o@ =~= octets_u32(n));
    hache_octets(h, o.as_slice())
}

/// Puts an optional number into the hash.
pub fn hache_opt_u32(h: u32, n: Option<u32>) -> (r: u32)
    ensures
        r == fnv_opt_u32(h, n),
{
    match n {
        None => hache_octet(h, 0),
        Some(n) => hache_u32(hache_octet(h, 1), n),
    }
}

} // verus!
