//! The 64-bit ELF header layout: the scalar field types, the header record,
//! and the validity predicates over the raw bytes of the identification
//! block.

use crate::endianness::{word_value, Endianness};
use vstd::prelude::*;

verus! {

#[allow(non_camel_case_types)]
pub type Elf64_Half = u16;

#[allow(non_camel_case_types)]
pub type Elf64_Word = u32;

#[allow(non_camel_case_types)]
pub type Elf64_Addr = u64;

#[allow(non_camel_case_types)]
pub type Elf64_Off = u64;

/// The complete, decoded 64-bit ELF file header. Constructed only by a
/// successful decode; every multi-byte field holds the value its byte span
/// denotes under the endianness that byte 5 of `e_ident` prescribes.
#[allow(non_camel_case_types)]
#[derive(Debug, Copy, Clone)]
pub struct Elf64_Ehdr {
    pub e_ident: [u8; 16],
    pub e_type: Elf64_Half,
    pub e_machine: Elf64_Half,
    pub e_version: Elf64_Word,
    pub e_entry: Elf64_Addr,
    pub e_phoff: Elf64_Off,
    pub e_shoff: Elf64_Off,
    pub e_flags: Elf64_Word,
    pub e_ehsize: Elf64_Half,
    pub e_phentsize: Elf64_Half,
    pub e_phnum: Elf64_Half,
    pub e_shentsize: Elf64_Half,
    pub e_shnum: Elf64_Half,
    pub e_shstrndx: Elf64_Half,
}

impl Elf64_Ehdr {
    /// The byte order the header's own identification block prescribes.
    pub fn endianness(&self) -> (r: Endianness)
        requires
            encoding_ok(self.e_ident@),
        ensures
            r == (if is_little(self.e_ident@) {
                Endianness::Little
            } else {
                Endianness::Big
            }),
    {
        if self.e_ident[5] == 1 {
            Endianness::Little
        } else {
            Endianness::Big
        }
    }
}

/// Bytes 0-3 are the magic number `7F 45 4C 46`.
pub open spec fn magic_ok(b: Seq<u8>) -> bool {
    &&& b[0] == 0x7f
    &&& b[1] == 0x45
    &&& b[2] == 0x4c
    &&& b[3] == 0x46
}

/// Byte 4 names the 64-bit file class; `1` (32-bit) and everything else is
/// rejected.
pub open spec fn class_ok(b: Seq<u8>) -> bool {
    b[4] == 2
}

/// Byte 5 names the byte order: `1` little-endian or `2` big-endian.
pub open spec fn encoding_ok(b: Seq<u8>) -> bool {
    b[5] == 1 || b[5] == 2
}

/// The decoded multi-byte fields are little-endian exactly when byte 5 is
/// `1`.
pub open spec fn is_little(b: Seq<u8>) -> bool {
    b[5] == 1
}

/// Byte 6 is the header version, fixed at `1`.
pub open spec fn version_ok(b: Seq<u8>) -> bool {
    b[6] == 1
}

/// Bytes 9-15 are reserved padding and must all be zero. Bytes 7 and 8
/// (OS ABI and ABI version) are deliberately left unconstrained.
pub open spec fn padding_ok(b: Seq<u8>) -> bool {
    forall|i: int| 9 <= i < 16 ==> b[i] == 0
}

/// The whole identification block is acceptable: at least 16 bytes are
/// present and every constrained byte holds a legal value.
pub open spec fn ident_valid(b: Seq<u8>) -> bool {
    &&& b.len() >= 16
    &&& magic_ok(b)
    &&& class_ok(b)
    &&& encoding_ok(b)
    &&& version_ok(b)
    &&& padding_ok(b)
}

/// The scalar fields that follow the identification block, in offset order.
#[derive(Debug, Clone, Copy, PartialEq, Eq, Structural)]
pub enum Elf64Field {
    EType,
    EMachine,
    EVersion,
    EEntry,
    EPhoff,
    EShoff,
    EFlags,
    EEhsize,
    EPhentsize,
    EPhnum,
    EShentsize,
    EShnum,
    EShstrndx,
}

/// Fixed byte offset of each field in the 64-bit header layout.
pub open spec fn field_offset(f: Elf64Field) -> int {
    match f {
        Elf64Field::EType => 16,
        Elf64Field::EMachine => 18,
        Elf64Field::EVersion => 20,
        Elf64Field::EEntry => 24,
        Elf64Field::EPhoff => 32,
        Elf64Field::EShoff => 40,
        Elf64Field::EFlags => 48,
        Elf64Field::EEhsize => 52,
        Elf64Field::EPhentsize => 54,
        Elf64Field::EPhnum => 56,
        Elf64Field::EShentsize => 58,
        Elf64Field::EShnum => 60,
        Elf64Field::EShstrndx => 62,
    }
}

/// Width in bytes of each field in the 64-bit header layout.
pub open spec fn field_width(f: Elf64Field) -> int {
    match f {
        Elf64Field::EType => 2,
        Elf64Field::EMachine => 2,
        Elf64Field::EVersion => 4,
        Elf64Field::EEntry => 8,
        Elf64Field::EPhoff => 8,
        Elf64Field::EShoff => 8,
        Elf64Field::EFlags => 4,
        Elf64Field::EEhsize => 2,
        Elf64Field::EPhentsize => 2,
        Elf64Field::EPhnum => 2,
        Elf64Field::EShentsize => 2,
        Elf64Field::EShnum => 2,
        Elf64Field::EShstrndx => 2,
    }
}

/// One past the last byte of a field: the least buffer length that can hold
/// it.
pub open spec fn field_end(f: Elf64Field) -> int {
    field_offset(f) + field_width(f)
}

/// The byte span a field occupies in the buffer.
pub open spec fn field_bytes(b: Seq<u8>, f: Elf64Field) -> Seq<u8> {
    b.subrange(field_offset(f), field_end(f))
}

/// The value a field decodes to: its byte span read with the endianness that
/// byte 5 of the identification block prescribes.
pub open spec fn field_value(b: Seq<u8>, f: Elf64Field) -> int {
    word_value(field_bytes(b, f), is_little(b))
}

/// The closed set of `e_type` values the specification accepts: the five
/// standard kinds plus the OS-specific and processor-specific ranges.
pub open spec fn e_type_value_ok(v: int) -> bool {
    (0 <= v <= 4) || (0xfe00 <= v <= 0xfeff) || (0xff00 <= v <= 0xffff)
}

} // verus!
