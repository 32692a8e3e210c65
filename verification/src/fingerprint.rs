use vstd::prelude::*;

use std::collections::hash_map::DefaultHasher;
use std::hash::Hasher;
use vstd::std_specs::hash::DefaultHasherAdditionalSpecFns;
use vstd::string::StringSliceAdditionalSpecFns;
use vstd::utf8::encode_utf8;

verus! {

/// The two bytes of `v`, least significant first when `little`.
pub open spec fn u16_bytes(v: u16, little: bool) -> Seq<u8> {
    if little {
        seq![(v % 256) as u8, (v / 256) as u8]
    } else {
        seq![(v / 256) as u8, (v % 256) as u8]
    }
}

/// The four bytes of `v`, least significant first when `little`.
pub open spec fn u32_bytes(v: u32, little: bool) -> Seq<u8> {
    let b0 = (v % 256) as u8;
    let b1 = ((v / 256) % 256) as u8;
    let b2 = ((v / 65536) % 256) as u8;
    let b3 = (v / 16777216) as u8;
    if little {
        seq![b0, b1, b2, b3]
    } else {
        seq![b3, b2, b1, b0]
    }
}

/// `u16::to_ne_bytes`: the bytes of `v` in the machine's byte order, which
/// std documents as little-endian on little-endian targets and big-endian on
/// the others.
#[verifier::external_body]
fn u16_native_bytes(v: u16) -> (r: [u8; 2])
    ensures
        r@ == u16_bytes(v, true) || r@ == u16_bytes(v, false),
{
    v.to_ne_bytes()
}

/// Whether this machine lays integers out least significant byte first, as
/// the native bytes of 1 show.  (Which one it is depends on the machine, so
/// nothing is promised of the result.)
pub(crate) fn native_little_endian() -> bool {
    let one = u16_native_bytes(1);
    one[0] == 1
}

/// What hashing a `str` feeds the hasher: its UTF-8 bytes, then 0xff.
pub open spec fn str_writes(s: Seq<char>) -> Seq<Seq<u8>> {
    seq![encode_utf8(s), seq![0xffu8]]
}

/// Feeds `s` as a `str` hashes.
pub(crate) fn write_str(h: &mut DefaultHasher, s: &str)
    ensures
        final(h)@ == old(h)@ + str_writes(s@),
{
    let mut end: Vec<u8> = Vec::new();
    end.push(0xff);
    h.write(s.as_bytes());
    h.write(end.as_slice());
    assert(end@ =~= seq![0xffu8]);
    assert(h@ =~= old(h)@ + str_writes(s@));
}

/// Feeds `b` as a `bool` hashes: one byte, 1 or 0.
pub(crate) fn write_bool(h: &mut DefaultHasher, b: bool)
    ensures
        final(h)@ == old(h)@.push(seq![if b { 1u8 } else { 0u8 }]),
{
    let mut v: Vec<u8> = Vec::new();
    v.push(if b { 1u8 } else { 0u8 });
    h.write(v.as_slice());
    assert(v@ =~= seq![if b { 1u8 } else { 0u8 }]);
}

/// Feeds the two bytes of `v` in the given order.
pub(crate) fn write_u16_in(h: &mut DefaultHasher, v: u16, little: bool)
    ensures
        final(h)@ == old(h)@.push(u16_bytes(v, little)),
{
    let lo = (v % 256) as u8;
    let hi = (v / 256) as u8;
    let mut b: Vec<u8> = Vec::new();
    if little {
        b.push(lo);
        b.push(hi);
    } else {
        b.push(hi);
        b.push(lo);
    }
    h.write(b.as_slice());
    assert(b@ =~= u16_bytes(v, little));
}

/// Feeds the four bytes of `v` in the given order.
pub(crate) fn write_u32_in(h: &mut DefaultHasher, v: u32, little: bool)
    ensures
        final(h)@ == old(h)@.push(u32_bytes(v, little)),
{
    let b0 = (v % 256) as u8;
    let b1 = ((v / 256) % 256) as u8;
    let b2 = ((v / 65536) % 256) as u8;
    let b3 = (v / 16777216) as u8;
    let mut b: Vec<u8> = Vec::new();
    if little {
        b.push(b0);
        b.push(b1);
        b.push(b2);
        b.push(b3);
    } else {
        b.push(b3);
        b.push(b2);
        b.push(b1);
        b.push(b0);
    }
    h.write(b.as_slice());
    assert(b@ =~= u32_bytes(v, little));
}

} // verus!
