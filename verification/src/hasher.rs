//! The key hasher: a lookup-style avalanche hash over a byte sequence.
//!
//! Bytes are absorbed twelve at a time into three 32-bit lanes, as
//! little-endian words. The lanes are scrambled after every full block and
//! once more, with a stronger scramble, after the last block. A last block
//! that is short counts its missing bytes as zero; the length of the input
//! enters the lanes at the start, so inputs that differ only in trailing
//! zero bytes start from different lanes.

use vstd::prelude::*;

verus! {

/// The three 32-bit lanes of the hasher's state.
#[derive(Clone, Copy, Debug)]
pub struct Lanes {
    pub a: u32,
    pub b: u32,
    pub c: u32,
}

/// The value every lane starts from, before the length is added.
pub const LANE_INIT: u32 = 0xdeadbeef;

/// `x + y` modulo 2^32.
pub open spec fn add32(x: u32, y: u32) -> u32 {
    if x + y > u32::MAX {
        (x + y - 0x1_0000_0000) as u32
    } else {
        (x + y) as u32
    }
}

/// `x - y` modulo 2^32.
pub open spec fn sub32(x: u32, y: u32) -> u32 {
    if x - y < 0 {
        (x - y + 0x1_0000_0000) as u32
    } else {
        (x - y) as u32
    }
}

/// `x` rotated left by `k` bits, for `0 < k < 32`.
pub open spec fn rot32(x: u32, k: u32) -> u32 {
    (x << k) | (x >> ((32 - k) as u32))
}

/// One step of the block scramble: `x` loses `z` and is xored with `z`
/// rotated; the result is the new `x`.
pub open spec fn stir(x: u32, z: u32, k: u32) -> u32 {
    sub32(x, z) ^ rot32(z, k)
}

/// One step of the closing scramble.
pub open spec fn seal(x: u32, y: u32, k: u32) -> u32 {
    sub32(x ^ y, rot32(y, k))
}

/// The scramble applied after each full block.
pub open spec fn scramble(s: Lanes) -> Lanes {
    let a1 = stir(s.a, s.c, 4);
    let c1 = add32(s.c, s.b);
    let b1 = stir(s.b, a1, 6);
    let a2 = add32(a1, c1);
    let c2 = stir(c1, b1, 8);
    let b2 = add32(b1, a2);
    let a3 = stir(a2, c2, 16);
    let c3 = add32(c2, b2);
    let b3 = stir(b2, a3, 19);
    let a4 = add32(a3, c3);
    let c4 = stir(c3, b3, 4);
    let b4 = add32(b3, a4);
    Lanes { a: a4, b: b4, c: c4 }
}

/// The scramble applied once, after the last block.
pub open spec fn close(s: Lanes) -> Lanes {
    let c1 = seal(s.c, s.b, 14);
    let a1 = seal(s.a, c1, 11);
    let b1 = seal(s.b, a1, 25);
    let c2 = seal(c1, b1, 16);
    let a2 = seal(a1, c2, 4);
    let b2 = seal(b1, a2, 14);
    let c3 = seal(c2, b2, 24);
    Lanes { a: a2, b: b2, c: c3 }
}

/// The byte at position `i`, or zero past the end.
pub open spec fn byte_at(s: Seq<u8>, i: int) -> u32 {
    if 0 <= i < s.len() {
        s[i] as u32
    } else {
        0u32
    }
}

/// The little-endian word of the four bytes from `off`, bytes past the end
/// counting as zero.
pub open spec fn word_at(s: Seq<u8>, off: int) -> u32 {
    byte_at(s, off) | (byte_at(s, off + 1) << 8u32) | (byte_at(s, off + 2) << 16u32) | (byte_at(
        s,
        off + 3,
    ) << 24u32)
}

/// The lanes after the twelve bytes from `off` were added to them.
pub open spec fn absorb(s: Seq<u8>, off: int, st: Lanes) -> Lanes {
    Lanes {
        a: add32(st.a, word_at(s, off)),
        b: add32(st.b, word_at(s, off + 4)),
        c: add32(st.c, word_at(s, off + 8)),
    }
}

/// The lanes an input of `len` bytes starts from.
pub open spec fn initial_lanes(len: nat) -> Lanes {
    let v = add32(LANE_INIT, len as u32);
    Lanes { a: v, b: v, c: v }
}

/// The final lanes, given that the bytes before `off` have been absorbed
/// into `st`. More than twelve bytes left: absorb a block, scramble, go on.
/// One to twelve left: absorb them and close. None left: the lanes as they
/// are.
pub open spec fn lanes_from(s: Seq<u8>, off: int, st: Lanes) -> Lanes
    decreases s.len() - off,
{
    if s.len() - off > 12 {
        lanes_from(s, off + 12, scramble(absorb(s, off, st)))
    } else if s.len() - off > 0 {
        close(absorb(s, off, st))
    } else {
        st
    }
}

/// The 64-bit digest held in the lanes: `c` below, `b` above.
pub open spec fn digest_of(st: Lanes) -> u64 {
    (st.c as u64) | ((st.b as u64) << 32u64)
}

/// The digest of a byte sequence.
pub open spec fn hash_of(s: Seq<u8>) -> u64 {
    digest_of(lanes_from(s, 0, initial_lanes(s.len())))
}

fn rotate(x: u32, k: u32) -> (r: u32)
    requires
        0 < k < 32,
    ensures
        r == rot32(x, k),
{
    (x << k) | (x >> (32 - k))
}

fn stir_lane(x: u32, z: u32, k: u32) -> (r: u32)
    requires
        0 < k < 32,
    ensures
        r == stir(x, z, k),
{
    x.wrapping_sub(z) ^ rotate(z, k)
}

fn seal_lane(x: u32, y: u32, k: u32) -> (r: u32)
    requires
        0 < k < 32,
    ensures
        r == seal(x, y, k),
{
    (x ^ y).wrapping_sub(rotate(y, k))
}

fn scramble_lanes(s: Lanes) -> (r: Lanes)
    ensures
        r == scramble(s),
{
    let a1: u32 = stir_lane(s.a, s.c, 4);
    let c1: u32 = s.c.wrapping_add(s.b);
    let b1: u32 = stir_lane(s.b, a1, 6);
    let a2: u32 = a1.wrapping_add(c1);
    let c2: u32 = stir_lane(c1, b1, 8);
    let b2: u32 = b1.wrapping_add(a2);
    let a3: u32 = stir_lane(a2, c2, 16);
    let c3: u32 = c2.wrapping_add(b2);
    let b3: u32 = stir_lane(b2, a3, 19);
    let a4: u32 = a3.wrapping_add(c3);
    let c4: u32 = stir_lane(c3, b3, 4);
    let b4: u32 = b3.wrapping_add(a4);
    Lanes { a: a4, b: b4, c: c4 }
}

fn close_lanes(s: Lanes) -> (r: Lanes)
    ensures
        r == close(s),
{
    let c1: u32 = seal_lane(s.c, s.b, 14);
    let a1: u32 = seal_lane(s.a, c1, 11);
    let b1: u32 = seal_lane(s.b, a1, 25);
    let c2: u32 = seal_lane(c1, b1, 16);
    let a2: u32 = seal_lane(a1, c2, 4);
    let b2: u32 = seal_lane(b1, a2, 14);
    let c3: u32 = seal_lane(c2, b2, 24);
    Lanes { a: a2, b: b2, c: c3 }
}

fn read_byte(bytes: &[u8], off: usize, k: usize) -> (r: u32)
    requires
        off <= bytes@.len(),
        k < 12,
    ensures
        r == byte_at(bytes@, off + k),
{
    if bytes.len() - off > k {
        bytes[off + k] as u32
    } else {
        0u32
    }
}

fn read_word(bytes: &[u8], off: usize, k: usize) -> (r: u32)
    requires
        off <= bytes@.len(),
        k <= 8,
    ensures
        r == word_at(bytes@, off + k),
{
    read_byte(bytes, off, k) | (read_byte(bytes, off, k + 1) << 8u32) | (read_byte(
        bytes,
        off,
        k + 2,
    ) << 16u32) | (read_byte(bytes, off, k + 3) << 24u32)
}

fn absorb_block(bytes: &[u8], off: usize, st: Lanes) -> (r: Lanes)
    requires
        off <= bytes@.len(),
    ensures
        r == absorb(bytes@, off as int, st),
{
    Lanes {
        a: st.a.wrapping_add(read_word(bytes, off, 0)),
        b: st.b.wrapping_add(read_word(bytes, off, 4)),
        c: st.c.wrapping_add(read_word(bytes, off, 8)),
    }
}

/// Hashes a byte sequence to its 64-bit digest.
pub fn hash_bytes(bytes: &[u8]) -> (digest: u64)
    ensures
        digest == hash_of(bytes@),
{
    let len: usize = bytes.len();
    let v: u32 = LANE_INIT.wrapping_add(len as u32);
    let mut st = Lanes { a: v, b: v, c: v };
    let mut off: usize = 0;
    while len - off > 12
        invariant
            len == bytes@.len(),
            off <= len,
            lanes_from(bytes@, off as int, st) == lanes_from(
                bytes@,
                0,
                initial_lanes(bytes@.len()),
            ),
        decreases len - off,
    {
        st = scramble_lanes(absorb_block(bytes, off, st));
        off = off + 12;
    }
    if len - off > 0 {
        st = close_lanes(absorb_block(bytes, off, st));
    }
    (st.c as u64) | ((st.b as u64) << 32u64)
}

} // verus!
