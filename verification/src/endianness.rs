//! The shared endianness-aware decoding rule: how a span of bytes is
//! interpreted as an unsigned integer, and how an integer is laid back out as
//! bytes. Every multi-byte header field goes through this one definition.

use vstd::prelude::*;

verus! {

/// Byte order of the multi-byte header fields, fixed by byte 5 of the
/// identification block.
#[derive(Clone, Copy, Debug, PartialEq, Eq, Structural)]
pub enum Endianness {
    Little,
    Big,
}

/// Value of the byte span `b[i..]` read least-significant byte first.
pub open spec fn le_value_from(b: Seq<u8>, i: int) -> int
    decreases b.len() - i,
{
    if i < 0 || i >= b.len() {
        0
    } else {
        b[i] + 0x100 * le_value_from(b, i + 1)
    }
}

/// Value of the whole span `b` read least-significant byte first.
pub open spec fn le_value(b: Seq<u8>) -> int {
    le_value_from(b, 0)
}

/// Value of the byte span `b[..i]` read most-significant byte first.
pub open spec fn be_value_upto(b: Seq<u8>, i: int) -> int
    decreases i,
{
    if i <= 0 || i > b.len() {
        0
    } else {
        0x100 * be_value_upto(b, i - 1) + b[i - 1]
    }
}

/// Value of the whole span `b` read most-significant byte first.
pub open spec fn be_value(b: Seq<u8>) -> int {
    be_value_upto(b, b.len() as int)
}

/// The uniform decoding rule: the integer a byte span denotes under the
/// given byte order.
pub open spec fn word_value(b: Seq<u8>, little: bool) -> int {
    if little {
        le_value(b)
    } else {
        be_value(b)
    }
}

/// Closed form and bounds for two-byte spans: `01 00` is 1 little-endian and
/// 256 big-endian.
pub proof fn lemma_word_value_2(b: Seq<u8>, little: bool)
    requires
        b.len() == 2,
    ensures
        word_value(b, little) == (if little {
            b[0] + 0x100 * b[1]
        } else {
            0x100 * b[0] + b[1]
        }),
        0 <= word_value(b, little) < 0x10000,
{
    assert(le_value_from(b, 2) == 0);
    assert(le_value_from(b, 1) == b[1]);
    assert(le_value_from(b, 0) == b[0] + 0x100 * b[1]);
    assert(be_value_upto(b, 0) == 0);
    assert(be_value_upto(b, 1) == b[0]);
    assert(be_value_upto(b, 2) == 0x100 * b[0] + b[1]);
}

/// Closed form and bounds for four-byte spans.
pub proof fn lemma_word_value_4(b: Seq<u8>, little: bool)
    requires
        b.len() == 4,
    ensures
        word_value(b, little) == (if little {
            b[0] + 0x100 * b[1] + 0x10000 * b[2] + 0x1000000 * b[3]
        } else {
            0x1000000 * b[0] + 0x10000 * b[1] + 0x100 * b[2] + b[3]
        }),
        0 <= word_value(b, little) < 0x100000000,
{
    assert(le_value_from(b, 4) == 0);
    assert(le_value_from(b, 3) == b[3]);
    assert(le_value_from(b, 2) == b[2] + 0x100 * b[3]);
    assert(le_value_from(b, 1) == b[1] + 0x100 * b[2] + 0x10000 * b[3]);
    assert(le_value_from(b, 0) == b[0] + 0x100 * b[1] + 0x10000 * b[2] + 0x1000000 * b[3]);
    assert(be_value_upto(b, 0) == 0);
    assert(be_value_upto(b, 1) == b[0]);
    assert(be_value_upto(b, 2) == 0x100 * b[0] + b[1]);
    assert(be_value_upto(b, 3) == 0x10000 * b[0] + 0x100 * b[1] + b[2]);
    assert(be_value_upto(b, 4) == 0x1000000 * b[0] + 0x10000 * b[1] + 0x100 * b[2] + b[3]);
}

/// Closed form and bounds for eight-byte spans.
pub proof fn lemma_word_value_8(b: Seq<u8>, little: bool)
    requires
        b.len() == 8,
    ensures
        word_value(b, little) == (if little {
            b[0] + 0x100 * b[1] + 0x10000 * b[2] + 0x1000000 * b[3] + 0x100000000 * b[4]
                + 0x10000000000 * b[5] + 0x1000000000000 * b[6] + 0x100000000000000 * b[7]
        } else {
            0x100000000000000 * b[0] + 0x1000000000000 * b[1] + 0x10000000000 * b[2]
                + 0x100000000 * b[3] + 0x1000000 * b[4] + 0x10000 * b[5] + 0x100 * b[6] + b[7]
        }),
        0 <= word_value(b, little) < 0x10000000000000000,
{
    assert(le_value_from(b, 8) == 0);
    assert(le_value_from(b, 7) == b[7]);
    assert(le_value_from(b, 6) == b[6] + 0x100 * b[7]);
    assert(le_value_from(b, 5) == b[5] + 0x100 * b[6] + 0x10000 * b[7]);
    assert(le_value_from(b, 4) == b[4] + 0x100 * b[5] + 0x10000 * b[6] + 0x1000000 * b[7]);
    assert(le_value_from(b, 3) == b[3] + 0x100 * b[4] + 0x10000 * b[5] + 0x1000000 * b[6]
        + 0x100000000 * b[7]);
    assert(le_value_from(b, 2) == b[2] + 0x100 * b[3] + 0x10000 * b[4] + 0x1000000 * b[5]
        + 0x100000000 * b[6] + 0x10000000000 * b[7]);
    assert(le_value_from(b, 1) == b[1] + 0x100 * b[2] + 0x10000 * b[3] + 0x1000000 * b[4]
        + 0x100000000 * b[5] + 0x10000000000 * b[6] + 0x1000000000000 * b[7]);
    assert(le_value_from(b, 0) == b[0] + 0x100 * b[1] + 0x10000 * b[2] + 0x1000000 * b[3]
        + 0x100000000 * b[4] + 0x10000000000 * b[5] + 0x1000000000000 * b[6]
        + 0x100000000000000 * b[7]);
    assert(be_value_upto(b, 0) == 0);
    assert(be_value_upto(b, 1) == b[0]);
    assert(be_value_upto(b, 2) == 0x100 * b[0] + b[1]);
    assert(be_value_upto(b, 3) == 0x10000 * b[0] + 0x100 * b[1] + b[2]);
    assert(be_value_upto(b, 4) == 0x1000000 * b[0] + 0x10000 * b[1] + 0x100 * b[2] + b[3]);
    assert(be_value_upto(b, 5) == 0x100000000 * b[0] + 0x1000000 * b[1] + 0x10000 * b[2]
        + 0x100 * b[3] + b[4]);
    assert(be_value_upto(b, 6) == 0x10000000000 * b[0] + 0x100000000 * b[1] + 0x1000000 * b[2]
        + 0x10000 * b[3] + 0x100 * b[4] + b[5]);
    assert(be_value_upto(b, 7) == 0x1000000000000 * b[0] + 0x10000000000 * b[1]
        + 0x100000000 * b[2] + 0x1000000 * b[3] + 0x10000 * b[4] + 0x100 * b[5] + b[6]);
    assert(be_value_upto(b, 8) == 0x100000000000000 * b[0] + 0x1000000000000 * b[1]
        + 0x10000000000 * b[2] + 0x100000000 * b[3] + 0x1000000 * b[4] + 0x10000 * b[5]
        + 0x100 * b[6] + b[7]);
}

/// An integer read from a span of bytes of the type's width, honouring the
/// requested byte order.
pub trait EndianRead: Sized {
    /// How many bytes one value of this type occupies.
    spec fn byte_width() -> nat;

    /// The mathematical integer this value stands for.
    spec fn as_value(self) -> int;

    /// Decode one value from exactly `byte_width` bytes.
    fn read_from(bytes: &[u8], is_little_endian: bool) -> (r: Self)
        requires
            bytes@.len() == Self::byte_width(),
        ensures
            r.as_value() == word_value(bytes@, is_little_endian),
    ;
}

impl EndianRead for u16 {
    open spec fn byte_width() -> nat {
        2
    }

    open spec fn as_value(self) -> int {
        self as int
    }

    fn read_from(bytes: &[u8], is_little_endian: bool) -> (r: Self) {
        proof {
            lemma_word_value_2(bytes@, is_little_endian);
        }
        let b0 = bytes[0] as u16;
        let b1 = bytes[1] as u16;
        if is_little_endian {
            b0 + b1 * 0x100
        } else {
            b0 * 0x100 + b1
        }
    }
}

impl EndianRead for u32 {
    open spec fn byte_width() -> nat {
        4
    }

    open spec fn as_value(self) -> int {
        self as int
    }

    fn read_from(bytes: &[u8], is_little_endian: bool) -> (r: Self) {
        proof {
            lemma_word_value_4(bytes@, is_little_endian);
        }
        let b0 = bytes[0] as u32;
        let b1 = bytes[1] as u32;
        let b2 = bytes[2] as u32;
        let b3 = bytes[3] as u32;
        if is_little_endian {
            b0 + b1 * 0x100 + b2 * 0x10000 + b3 * 0x1000000
        } else {
            b0 * 0x1000000 + b1 * 0x10000 + b2 * 0x100 + b3
        }
    }
}

impl EndianRead for u64 {
    open spec fn byte_width() -> nat {
        8
    }

    open spec fn as_value(self) -> int {
        self as int
    }

    fn read_from(bytes: &[u8], is_little_endian: bool) -> (r: Self) {
        proof {
            lemma_word_value_8(bytes@, is_little_endian);
        }
        let b0 = bytes[0] as u64;
        let b1 = bytes[1] as u64;
        let b2 = bytes[2] as u64;
        let b3 = bytes[3] as u64;
        let b4 = bytes[4] as u64;
        let b5 = bytes[5] as u64;
        let b6 = bytes[6] as u64;
        let b7 = bytes[7] as u64;
        if is_little_endian {
            b0 + b1 * 0x100 + b2 * 0x10000 + b3 * 0x1000000 + b4 * 0x100000000
                + b5 * 0x10000000000 + b6 * 0x1000000000000 + b7 * 0x100000000000000
        } else {
            b0 * 0x100000000000000 + b1 * 0x1000000000000 + b2 * 0x10000000000 + b3 * 0x100000000
                + b4 * 0x1000000 + b5 * 0x10000 + b6 * 0x100 + b7
        }
    }
}

/// Append the two bytes of `x` in the given byte order; the bytes already in
/// `v` keep their places and values.
pub fn append_u16(v: &mut Vec<u8>, x: u16, is_little_endian: bool)
    ensures
        final(v)@.len() == old(v)@.len() + 2,
        forall|i: int| 0 <= i < old(v)@.len() ==> final(v)@[i] == old(v)@[i],
        word_value(
            final(v)@.subrange(old(v)@.len() as int, old(v)@.len() as int + 2),
            is_little_endian,
        ) == x,
{
    let lo = (x % 0x100) as u8;
    let hi = (x / 0x100) as u8;
    if is_little_endian {
        v.push(lo);
        v.push(hi);
    } else {
        v.push(hi);
        v.push(lo);
    }
    proof {
        let s = v@.subrange(old(v)@.len() as int, old(v)@.len() as int + 2);
        lemma_word_value_2(s, is_little_endian);
    }
}

/// Append the four bytes of `x` in the given byte order; the bytes already in
/// `v` keep their places and values.
pub fn append_u32(v: &mut Vec<u8>, x: u32, is_little_endian: bool)
    ensures
        final(v)@.len() == old(v)@.len() + 4,
        forall|i: int| 0 <= i < old(v)@.len() ==> final(v)@[i] == old(v)@[i],
        word_value(
            final(v)@.subrange(old(v)@.len() as int, old(v)@.len() as int + 4),
            is_little_endian,
        ) == x,
{
    let b0 = (x % 0x100) as u8;
    let x1 = x / 0x100;
    let b1 = (x1 % 0x100) as u8;
    let x2 = x1 / 0x100;
    let b2 = (x2 % 0x100) as u8;
    let b3 = (x2 / 0x100) as u8;
    if is_little_endian {
        v.push(b0);
        v.push(b1);
        v.push(b2);
        v.push(b3);
    } else {
        v.push(b3);
        v.push(b2);
        v.push(b1);
        v.push(b0);
    }
    proof {
        let s = v@.subrange(old(v)@.len() as int, old(v)@.len() as int + 4);
        lemma_word_value_4(s, is_little_endian);
    }
}

/// Append the eight bytes of `x` in the given byte order; the bytes already
/// in `v` keep their places and values.
pub fn append_u64(v: &mut Vec<u8>, x: u64, is_little_endian: bool)
    ensures
        final(v)@.len() == old(v)@.len() + 8,
        forall|i: int| 0 <= i < old(v)@.len() ==> final(v)@[i] == old(v)@[i],
        word_value(
            final(v)@.subrange(old(v)@.len() as int, old(v)@.len() as int + 8),
            is_little_endian,
        ) == x,
{
    let b0 = (x % 0x100) as u8;
    let x1 = x / 0x100;
    let b1 = (x1 % 0x100) as u8;
    let x2 = x1 / 0x100;
    let b2 = (x2 % 0x100) as u8;
    let x3 = x2 / 0x100;
    let b3 = (x3 % 0x100) as u8;
    let x4 = x3 / 0x100;
    let b4 = (x4 % 0x100) as u8;
    let x5 = x4 / 0x100;
    let b5 = (x5 % 0x100) as u8;
    let x6 = x5 / 0x100;
    let b6 = (x6 % 0x100) as u8;
    let b7 = (x6 / 0x100) as u8;
    if is_little_endian {
        v.push(b0);
        v.push(b1);
        v.push(b2);
        v.push(b3);
        v.push(b4);
        v.push(b5);
        v.push(b6);
        v.push(b7);
    } else {
        v.push(b7);
        v.push(b6);
        v.push(b5);
        v.push(b4);
        v.push(b3);
        v.push(b2);
        v.push(b1);
        v.push(b0);
    }
    proof {
        let s = v@.subrange(old(v)@.len() as int, old(v)@.len() as int + 8);
        lemma_word_value_8(s, is_little_endian);
    }
}

} // verus!
