//! Little-endian 32-bit words inside a byte sequence, and records of three of them.
//!
//! A single-precision number is handled by its bit pattern only: the engine moves
//! and rewrites such numbers, and leaves arithmetic on them to its caller.

use vstd::prelude::*;

verus! {

/// Three single-precision numbers, each given by its bit pattern.
#[derive(Clone, Copy, Debug, PartialEq, Eq)]
pub struct Vec3 {
    pub x: u32,
    pub y: u32,
    pub z: u32,
}

/// The little-endian word whose first byte is `s[i]`.
pub open spec fn word_at(s: Seq<u8>, i: int) -> u32 {
    (s[i] as int + 256 * (s[i + 1] as int) + 65536 * (s[i + 2] as int) + 16777216 * (s[i
        + 3] as int)) as u32
}

/// Byte `k` (0 is the least significant) of `w`.
pub open spec fn word_byte(w: u32, k: int) -> u8 {
    if k == 0 {
        (w % 256) as u8
    } else if k == 1 {
        ((w / 256) % 256) as u8
    } else if k == 2 {
        ((w / 65536) % 256) as u8
    } else {
        ((w / 16777216) % 256) as u8
    }
}

/// `s` with the four bytes from `i` on replaced by the little-endian form of `w`.
pub open spec fn with_word(s: Seq<u8>, i: int, w: u32) -> Seq<u8> {
    s.update(i, word_byte(w, 0)).update(i + 1, word_byte(w, 1)).update(i + 2, word_byte(w, 2)).update(
        i + 3,
        word_byte(w, 3),
    )
}

/// The record of three consecutive words that starts at `s[i]`.
pub open spec fn record_at(s: Seq<u8>, i: int) -> Vec3 {
    Vec3 { x: word_at(s, i), y: word_at(s, i + 4), z: word_at(s, i + 8) }
}

/// `s` with the twelve bytes from `i` on replaced by the record `r`.
pub open spec fn with_record(s: Seq<u8>, i: int, r: Vec3) -> Seq<u8> {
    with_word(with_word(with_word(s, i, r.x), i + 4, r.y), i + 8, r.z)
}

/// Writing a word and reading it back gives the word; bytes elsewhere keep their value.
pub proof fn lemma_with_word(s: Seq<u8>, i: int, w: u32)
    requires
        0 <= i,
        i + 4 <= s.len(),
    ensures
        with_word(s, i, w).len() == s.len(),
        word_at(with_word(s, i, w), i) == w,
        forall|j: int| 0 <= j < s.len() && !(i <= j < i + 4) ==> with_word(s, i, w)[j] == s[j],
{
    let b0 = word_byte(w, 0);
    let b1 = word_byte(w, 1);
    let b2 = word_byte(w, 2);
    let b3 = word_byte(w, 3);
    assert(b0 as int + 256 * (b1 as int) + 65536 * (b2 as int) + 16777216 * (b3 as int) == w);
}

/// A word read from `s` depends only on the four bytes it covers.
pub proof fn lemma_word_at_same(s: Seq<u8>, t: Seq<u8>, i: int)
    requires
        0 <= i,
        i + 4 <= s.len(),
        i + 4 <= t.len(),
        forall|j: int| i <= j < i + 4 ==> s[j] == t[j],
    ensures
        word_at(s, i) == word_at(t, i),
{
}

/// Writing a record and reading it back gives the record; bytes elsewhere keep
/// their value.
pub proof fn lemma_with_record(s: Seq<u8>, i: int, r: Vec3)
    requires
        0 <= i,
        i + 12 <= s.len(),
    ensures
        with_record(s, i, r).len() == s.len(),
        record_at(with_record(s, i, r), i) == r,
        forall|j: int|
            0 <= j < s.len() && !(i <= j < i + 12) ==> with_record(s, i, r)[j] == s[j],
{
    let s1 = with_word(s, i, r.x);
    let s2 = with_word(s1, i + 4, r.y);
    let s3 = with_word(s2, i + 8, r.z);
    lemma_with_word(s, i, r.x);
    lemma_with_word(s1, i + 4, r.y);
    lemma_with_word(s2, i + 8, r.z);
    lemma_word_at_same(s3, s1, i);
    lemma_word_at_same(s3, s2, i + 4);
}

/// Reads the little-endian word at `i`.
pub fn read_word(data: &[u8], i: usize) -> (w: u32)
    requires
        i + 4 <= data@.len(),
    ensures
        w == word_at(data@, i as int),
{
    let b0: u32 = data[i] as u32;
    let b1: u32 = data[i + 1] as u32;
    let b2: u32 = data[i + 2] as u32;
    let b3: u32 = data[i + 3] as u32;
    b0 + 256 * b1 + 65536 * b2 + 16777216 * b3
}

/// Overwrites the four bytes at `i` with the little-endian form of `w`.
pub fn write_word(data: &mut Vec<u8>, i: usize, w: u32)
    requires
        i + 4 <= old(data)@.len(),
    ensures
        final(data)@ == with_word(old(data)@, i as int, w),
{
    let n: usize = data.len();
    assert(i + 4 <= n);
    data[i] = (w % 256) as u8;
    data[i + 1] = ((w / 256) % 256) as u8;
    data[i + 2] = ((w / 65536) % 256) as u8;
    data[i + 3] = ((w / 16777216) % 256) as u8;
}

/// Reads the record of three words at `i`.
pub fn read_record(data: &[u8], i: usize) -> (r: Vec3)
    requires
        i + 12 <= data@.len(),
    ensures
        r == record_at(data@, i as int),
{
    let n: usize = data.len();
    assert(i + 12 <= n);
    Vec3 { x: read_word(data, i), y: read_word(data, i + 4), z: read_word(data, i + 8) }
}

/// Overwrites the twelve bytes at `i` with the record `r`.
pub fn write_record(data: &mut Vec<u8>, i: usize, r: Vec3)
    requires
        i + 12 <= old(data)@.len(),
    ensures
        final(data)@ == with_record(old(data)@, i as int, r),
{
    let n: usize = data.len();
    assert(i + 12 <= n);
    write_word(data, i, r.x);
    write_word(data, i + 4, r.y);
    write_word(data, i + 8, r.z);
}

/// The bit pattern of the number with the opposite sign.
pub open spec fn negated(w: u32) -> u32 {
    if w >= 0x8000_0000 {
        (w - 0x8000_0000) as u32
    } else {
        (w + 0x8000_0000) as u32
    }
}

/// Flips the sign of a single-precision number given by its bit pattern.
pub fn negate(w: u32) -> (r: u32)
    ensures
        r == negated(w),
        negated(r) == w,
{
    if w >= 0x8000_0000 {
        w - 0x8000_0000
    } else {
        w + 0x8000_0000
    }
}

} // verus!
