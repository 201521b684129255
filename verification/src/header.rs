//! The complete decode pipeline for the 64-bit ELF header: identification
//! check, endianness-aware decode of every fixed-offset field, the one
//! value-range check (`e_type`), and the encoder that lays a header back out
//! as bytes.

use crate::arch64::{e_ident_error, Elf64BitEIdentValidationErrors, Elf64BitValidator};
use crate::def::{
    class_ok, e_type_value_ok, encoding_ok, field_value, ident_valid, is_little, magic_ok,
    padding_ok, version_ok, Elf64Field, Elf64_Ehdr,
};
use crate::endianness::EndianRead;
use crate::parser::Parseable;
use vstd::prelude::*;
use vstd::slice::slice_subrange;

verus! {

/// Why a buffer was rejected as a 64-bit ELF header: a bad identification
/// block, a buffer too short for a named field, or an `e_type` value outside
/// the accepted set.
#[derive(Debug, Clone, Copy, PartialEq, Eq, Structural)]
pub enum Elf64HeaderError {
    Ident(Elf64BitEIdentValidationErrors),
    FieldSize(Elf64Field),
    InvalidETypeValue(u16),
}

/// A buffer holds a complete, acceptable 64-bit ELF header: a valid
/// identification block, all 64 header bytes present, and an accepted
/// `e_type` value. Every other field is decoded without value validation.
pub open spec fn header_valid(b: Seq<u8>) -> bool {
    &&& ident_valid(b)
    &&& b.len() >= 64
    &&& e_type_value_ok(field_value(b, Elf64Field::EType))
}

/// The first violation in an unacceptable buffer, in the order the decoder
/// works: the identification block, then each field in offset order, each
/// checked for size before value. Meaningful only when `!header_valid(b)`.
pub open spec fn header_error(b: Seq<u8>) -> Elf64HeaderError {
    if !ident_valid(b) {
        Elf64HeaderError::Ident(e_ident_error(b))
    } else if b.len() < 18 {
        Elf64HeaderError::FieldSize(Elf64Field::EType)
    } else if !e_type_value_ok(field_value(b, Elf64Field::EType)) {
        Elf64HeaderError::InvalidETypeValue(field_value(b, Elf64Field::EType) as u16)
    } else if b.len() < 20 {
        Elf64HeaderError::FieldSize(Elf64Field::EMachine)
    } else if b.len() < 24 {
        Elf64HeaderError::FieldSize(Elf64Field::EVersion)
    } else if b.len() < 32 {
        Elf64HeaderError::FieldSize(Elf64Field::EEntry)
    } else if b.len() < 40 {
        Elf64HeaderError::FieldSize(Elf64Field::EPhoff)
    } else if b.len() < 48 {
        Elf64HeaderError::FieldSize(Elf64Field::EShoff)
    } else if b.len() < 52 {
        Elf64HeaderError::FieldSize(Elf64Field::EFlags)
    } else if b.len() < 54 {
        Elf64HeaderError::FieldSize(Elf64Field::EEhsize)
    } else if b.len() < 56 {
        Elf64HeaderError::FieldSize(Elf64Field::EPhentsize)
    } else if b.len() < 58 {
        Elf64HeaderError::FieldSize(Elf64Field::EPhnum)
    } else if b.len() < 60 {
        Elf64HeaderError::FieldSize(Elf64Field::EShentsize)
    } else if b.len() < 62 {
        Elf64HeaderError::FieldSize(Elf64Field::EShnum)
    } else {
        Elf64HeaderError::FieldSize(Elf64Field::EShstrndx)
    }
}

/// The header `h` holds exactly the values the buffer's byte spans denote:
/// the identification block verbatim, and every scalar field read with the
/// endianness that byte 5 prescribes.
pub open spec fn decodes_to(b: Seq<u8>, h: Elf64_Ehdr) -> bool {
    &&& h.e_ident@ == b.subrange(0, 16)
    &&& h.e_type == field_value(b, Elf64Field::EType)
    &&& h.e_machine == field_value(b, Elf64Field::EMachine)
    &&& h.e_version == field_value(b, Elf64Field::EVersion)
    &&& h.e_entry == field_value(b, Elf64Field::EEntry)
    &&& h.e_phoff == field_value(b, Elf64Field::EPhoff)
    &&& h.e_shoff == field_value(b, Elf64Field::EShoff)
    &&& h.e_flags == field_value(b, Elf64Field::EFlags)
    &&& h.e_ehsize == field_value(b, Elf64Field::EEhsize)
    &&& h.e_phentsize == field_value(b, Elf64Field::EPhentsize)
    &&& h.e_phnum == field_value(b, Elf64Field::EPhnum)
    &&& h.e_shentsize == field_value(b, Elf64Field::EShentsize)
    &&& h.e_shnum == field_value(b, Elf64Field::EShnum)
    &&& h.e_shstrndx == field_value(b, Elf64Field::EShstrndx)
}

/// A header whose own fields are acceptable: its identification block is
/// valid and its `e_type` value is in the accepted set. Every header a
/// successful decode produces satisfies this.
pub open spec fn header_wf(h: Elf64_Ehdr) -> bool {
    &&& ident_valid(h.e_ident@)
    &&& e_type_value_ok(h.e_type as int)
}

/// Lay a well-formed header back out as the 64 bytes it decodes from, using
/// the endianness its own identification block prescribes. Decoding the
/// result yields exactly `h` again.
pub fn encode(h: &Elf64_Ehdr) -> (r: Vec<u8>)
    requires
        header_wf(*h),
    ensures
        r@.len() == 64,
        header_valid(r@),
        decodes_to(r@, *h),
{
    let mut v: Vec<u8> = Vec::new();
    let mut i: usize = 0;
    while i < 16
        invariant
            i <= 16,
            v@.len() == i,
            forall|j: int| 0 <= j < i ==> v@[j] == h.e_ident@[j],
        decreases 16 - i,
    {
        v.push(h.e_ident[i]);
        i += 1;
    }
    let ghost s16 = v@;
    let is_le = h.e_ident[5] == 1;
    crate::endianness::append_u16(&mut v, h.e_type, is_le);
    let ghost s18 = v@;
    crate::endianness::append_u16(&mut v, h.e_machine, is_le);
    let ghost s20 = v@;
    crate::endianness::append_u32(&mut v, h.e_version, is_le);
    let ghost s24 = v@;
    crate::endianness::append_u64(&mut v, h.e_entry, is_le);
    let ghost s32 = v@;
    crate::endianness::append_u64(&mut v, h.e_phoff, is_le);
    let ghost s40 = v@;
    crate::endianness::append_u64(&mut v, h.e_shoff, is_le);
    let ghost s48 = v@;
    crate::endianness::append_u32(&mut v, h.e_flags, is_le);
    let ghost s52 = v@;
    crate::endianness::append_u16(&mut v, h.e_ehsize, is_le);
    let ghost s54 = v@;
    crate::endianness::append_u16(&mut v, h.e_phentsize, is_le);
    let ghost s56 = v@;
    crate::endianness::append_u16(&mut v, h.e_phnum, is_le);
    let ghost s58 = v@;
    crate::endianness::append_u16(&mut v, h.e_shentsize, is_le);
    let ghost s60 = v@;
    crate::endianness::append_u16(&mut v, h.e_shnum, is_le);
    let ghost s62 = v@;
    crate::endianness::append_u16(&mut v, h.e_shstrndx, is_le);
    proof {
        assert(forall|j: int| 0 <= j < 62 ==> v@[j] == s62[j]);
        assert(forall|j: int| 0 <= j < 60 ==> v@[j] == s60[j]);
        assert(forall|j: int| 0 <= j < 58 ==> v@[j] == s58[j]);
        assert(forall|j: int| 0 <= j < 56 ==> v@[j] == s56[j]);
        assert(forall|j: int| 0 <= j < 54 ==> v@[j] == s54[j]);
        assert(forall|j: int| 0 <= j < 52 ==> v@[j] == s52[j]);
        assert(forall|j: int| 0 <= j < 48 ==> v@[j] == s48[j]);
        assert(forall|j: int| 0 <= j < 40 ==> v@[j] == s40[j]);
        assert(forall|j: int| 0 <= j < 32 ==> v@[j] == s32[j]);
        assert(forall|j: int| 0 <= j < 24 ==> v@[j] == s24[j]);
        assert(forall|j: int| 0 <= j < 20 ==> v@[j] == s20[j]);
        assert(forall|j: int| 0 <= j < 18 ==> v@[j] == s18[j]);
        assert(forall|j: int| 0 <= j < 16 ==> v@[j] == s16[j]);
        assert(v@.subrange(0, 16) =~= h.e_ident@);
        assert(v@.subrange(16, 18) =~= s18.subrange(16, 18));
        assert(v@.subrange(18, 20) =~= s20.subrange(18, 20));
        assert(v@.subrange(20, 24) =~= s24.subrange(20, 24));
        assert(v@.subrange(24, 32) =~= s32.subrange(24, 32));
        assert(v@.subrange(32, 40) =~= s40.subrange(32, 40));
        assert(v@.subrange(40, 48) =~= s48.subrange(40, 48));
        assert(v@.subrange(48, 52) =~= s52.subrange(48, 52));
        assert(v@.subrange(52, 54) =~= s54.subrange(52, 54));
        assert(v@.subrange(54, 56) =~= s56.subrange(54, 56));
        assert(v@.subrange(56, 58) =~= s58.subrange(56, 58));
        assert(v@.subrange(58, 60) =~= s60.subrange(58, 60));
        assert(v@.subrange(60, 62) =~= s62.subrange(60, 62));
        assert(v@.subrange(62, 64) =~= v@.subrange(62, 64));
        assert(is_little(v@) == is_le);
    }
    v
}

impl Parseable for Elf64_Ehdr {
    open spec fn parse_ok(bytes: Seq<u8>, v: Self) -> bool {
        header_valid(bytes) && decodes_to(bytes, v)
    }

    open spec fn parse_err(bytes: Seq<u8>, e: Elf64HeaderError) -> bool {
        !header_valid(bytes) && e == header_error(bytes)
    }

    fn parse(bytes: &[u8]) -> (r: Result<Self, Elf64HeaderError>) {
        let mut validator = Elf64BitValidator::new(bytes);
        if let Err(e) = validator.validate_e_ident() {
            return Err(Elf64HeaderError::Ident(e));
        }
        let is_le = bytes[5] == 1;
        if bytes.len() < 18 {
            return Err(Elf64HeaderError::FieldSize(Elf64Field::EType));
        }
        let e_type = u16::read_from(slice_subrange(bytes, 16, 18), is_le);
        if !(e_type <= 4 || (0xfe00 <= e_type && e_type <= 0xfeff) || 0xff00 <= e_type) {
            return Err(Elf64HeaderError::InvalidETypeValue(e_type));
        }
        if bytes.len() < 20 {
            return Err(Elf64HeaderError::FieldSize(Elf64Field::EMachine));
        }
        let e_machine = u16::read_from(slice_subrange(bytes, 18, 20), is_le);
        if bytes.len() < 24 {
            return Err(Elf64HeaderError::FieldSize(Elf64Field::EVersion));
        }
        let e_version = u32::read_from(slice_subrange(bytes, 20, 24), is_le);
        if bytes.len() < 32 {
            return Err(Elf64HeaderError::FieldSize(Elf64Field::EEntry));
        }
        let e_entry = u64::read_from(slice_subrange(bytes, 24, 32), is_le);
        if bytes.len() < 40 {
            return Err(Elf64HeaderError::FieldSize(Elf64Field::EPhoff));
        }
        let e_phoff = u64::read_from(slice_subrange(bytes, 32, 40), is_le);
        if bytes.len() < 48 {
            return Err(Elf64HeaderError::FieldSize(Elf64Field::EShoff));
        }
        let e_shoff = u64::read_from(slice_subrange(bytes, 40, 48), is_le);
        if bytes.len() < 52 {
            return Err(Elf64HeaderError::FieldSize(Elf64Field::EFlags));
        }
        let e_flags = u32::read_from(slice_subrange(bytes, 48, 52), is_le);
        if bytes.len() < 54 {
            return Err(Elf64HeaderError::FieldSize(Elf64Field::EEhsize));
        }
        let e_ehsize = u16::read_from(slice_subrange(bytes, 52, 54), is_le);
        if bytes.len() < 56 {
            return Err(Elf64HeaderError::FieldSize(Elf64Field::EPhentsize));
        }
        let e_phentsize = u16::read_from(slice_subrange(bytes, 54, 56), is_le);
        if bytes.len() < 58 {
            return Err(Elf64HeaderError::FieldSize(Elf64Field::EPhnum));
        }
        let e_phnum = u16::read_from(slice_subrange(bytes, 56, 58), is_le);
        if bytes.len() < 60 {
            return Err(Elf64HeaderError::FieldSize(Elf64Field::EShentsize));
        }
        let e_shentsize = u16::read_from(slice_subrange(bytes, 58, 60), is_le);
        if bytes.len() < 62 {
            return Err(Elf64HeaderError::FieldSize(Elf64Field::EShnum));
        }
        let e_shnum = u16::read_from(slice_subrange(bytes, 60, 62), is_le);
        if bytes.len() < 64 {
            return Err(Elf64HeaderError::FieldSize(Elf64Field::EShstrndx));
        }
        let e_shstrndx = u16::read_from(slice_subrange(bytes, 62, 64), is_le);
        let e_ident: [u8; 16] = [
            bytes[0],
            bytes[1],
            bytes[2],
            bytes[3],
            bytes[4],
            bytes[5],
            bytes[6],
            bytes[7],
            bytes[8],
            bytes[9],
            bytes[10],
            bytes[11],
            bytes[12],
            bytes[13],
            bytes[14],
            bytes[15],
        ];
        proof {
            assert(e_ident@ =~= bytes@.subrange(0, 16));
        }
        Ok(
            Elf64_Ehdr {
                e_ident,
                e_type,
                e_machine,
                e_version,
                e_entry,
                e_phoff,
                e_shoff,
                e_flags,
                e_ehsize,
                e_phentsize,
                e_phnum,
                e_shentsize,
                e_shnum,
                e_shstrndx,
            },
        )
    }
}

/// Any buffer shorter than the 16-byte identification block is rejected
/// with the identification size error, whatever it holds.
pub proof fn lemma_short_buffer_rejected(b: Seq<u8>)
    requires
        b.len() < 16,
    ensures
        !header_valid(b),
        header_error(b) == Elf64HeaderError::Ident(
            Elf64BitEIdentValidationErrors::InvalidEIdentSize,
        ),
{
}

/// Any buffer of identification size whose first four bytes are not the
/// magic number is rejected with the magic-mismatch error, regardless of
/// every byte after the fourth.
pub proof fn lemma_bad_magic_rejected(b: Seq<u8>)
    requires
        b.len() >= 16,
        !magic_ok(b),
    ensures
        !header_valid(b),
        header_error(b) == Elf64HeaderError::Ident(
            Elf64BitEIdentValidationErrors::InvalidMagicNumbers,
        ),
{
}

/// Any buffer with a valid magic whose class byte is not the 64-bit code is
/// rejected with the unsupported-class error carrying that byte; the 32-bit
/// code `1` in particular.
pub proof fn lemma_bad_class_rejected(b: Seq<u8>)
    requires
        b.len() >= 16,
        magic_ok(b),
        b[4] != 2,
    ensures
        !header_valid(b),
        header_error(b) == Elf64HeaderError::Ident(
            Elf64BitEIdentValidationErrors::Non64BitELF(b[4]),
        ),
{
}

/// Any buffer that reaches the endianness check with a code outside `{1,2}`
/// is rejected with the invalid-endianness error carrying that byte, and the
/// outcome depends on the first six bytes alone: no later byte is
/// interpreted.
pub proof fn lemma_bad_encoding_rejected(b1: Seq<u8>, b2: Seq<u8>)
    requires
        b1.len() >= 16,
        magic_ok(b1),
        class_ok(b1),
        b1[5] != 1,
        b1[5] != 2,
        b2.len() >= 16,
        forall|i: int| 0 <= i < 6 ==> b2[i] == b1[i],
    ensures
        !header_valid(b1),
        header_error(b1) == Elf64HeaderError::Ident(
            Elf64BitEIdentValidationErrors::InvalidEndianness(b1[5]),
        ),
        header_error(b2) == header_error(b1),
{
    assert(b2[0] == b1[0]);
    assert(b2[1] == b1[1]);
    assert(b2[2] == b1[2]);
    assert(b2[3] == b1[3]);
    assert(b2[4] == b1[4]);
    assert(b2[5] == b1[5]);
}

/// A buffer valid through the version check but with any nonzero reserved
/// padding byte is rejected with the invalid-padding error specifically.
pub proof fn lemma_bad_padding_rejected(b: Seq<u8>, k: int)
    requires
        b.len() >= 16,
        magic_ok(b),
        class_ok(b),
        encoding_ok(b),
        version_ok(b),
        9 <= k < 16,
        b[k] != 0,
    ensures
        !header_valid(b),
        header_error(b) == Elf64HeaderError::Ident(
            Elf64BitEIdentValidationErrors::InvalidPadding,
        ),
{
    assert(!padding_ok(b));
}

/// The `e_machine` and `e_version` fields are decoded but never validated:
/// changing their bytes (offsets 18 through 23) in an acceptable buffer,
/// to anything at all, leaves it acceptable, and every other field of the
/// decoded header keeps its value.
pub proof fn lemma_machine_version_unvalidated(b1: Seq<u8>, b2: Seq<u8>)
    requires
        b1.len() == b2.len(),
        forall|i: int| 0 <= i < b1.len() && !(18 <= i < 24) ==> b2[i] == b1[i],
        header_valid(b1),
    ensures
        header_valid(b2),
        b2.subrange(0, 16) == b1.subrange(0, 16),
        field_value(b2, Elf64Field::EType) == field_value(b1, Elf64Field::EType),
        field_value(b2, Elf64Field::EEntry) == field_value(b1, Elf64Field::EEntry),
{
    assert(b2.subrange(0, 16) =~= b1.subrange(0, 16));
    assert(forall|i: int| 0 <= i < 16 ==> b2[i] == b1[i]);
    assert(b2.subrange(16, 18) =~= b1.subrange(16, 18));
    assert(b2.subrange(24, 32) =~= b1.subrange(24, 32));
}

/// What an acceptable buffer decodes to is itself a well-formed header, so
/// it can be handed straight back to `encode`.
pub proof fn lemma_decoded_header_wf(b: Seq<u8>, h: Elf64_Ehdr)
    requires
        header_valid(b),
        decodes_to(b, h),
    ensures
        header_wf(h),
{
    assert(forall|i: int| 0 <= i < 16 ==> h.e_ident@[i] == b[i]);
}

/// A buffer decodes to at most one header: the byte spans pin every field.
pub proof fn lemma_decode_unique(b: Seq<u8>, h1: Elf64_Ehdr, h2: Elf64_Ehdr)
    requires
        decodes_to(b, h1),
        decodes_to(b, h2),
    ensures
        h1 == h2,
{
    assert(h1.e_ident =~= h2.e_ident);
}

} // verus!

