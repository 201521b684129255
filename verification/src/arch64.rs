//! Field-by-field validation of a 64-bit ELF header over the whole file
//! buffer: a validator that borrows the buffer and checks the
//! identification block, `e_type` and `e_machine` at their fixed offsets.

use crate::def::{
    class_ok, e_type_value_ok, encoding_ok, field_value, ident_valid, is_little, magic_ok,
    version_ok, Elf64Field,
};
use crate::endianness::EndianRead;
use vstd::prelude::*;
use vstd::slice::slice_subrange;

verus! {

/// Why the identification block of the buffer was rejected; the variants
/// that carry a byte hold the offending value.
#[derive(Debug, Clone, Copy, PartialEq, Eq, Structural)]
pub enum Elf64BitEIdentValidationErrors {
    NonELFFileError,
    InvalidEIdentSize,
    InvalidMagicNumbers,
    Non64BitELF(u8),
    InvalidELFVersion(u8),
    InvalidEndianness(u8),
    InvalidPadding,
}

/// Why the `e_type` field was rejected.
#[derive(Debug, Clone, Copy, PartialEq, Eq, Structural)]
pub enum Elf64BitETypeValidationErrors {
    InvalidETypeSize,
    InvalidEndianness(u8),
    InvalidETypeValue(u16),
}

/// Why the `e_machine` field was rejected. The field's value is never
/// constrained; only a short buffer or a bad endianness byte can fail.
#[derive(Debug, Clone, Copy, PartialEq, Eq, Structural)]
pub enum Elf64BitEMachineValidationErrors {
    InvalidEMachSize,
    InvalidEndianness(u8),
}

/// The first violation `validate_e_ident` reports on a buffer whose
/// identification block is unacceptable, checked in offset order.
pub open spec fn e_ident_error(b: Seq<u8>) -> Elf64BitEIdentValidationErrors {
    if b.len() < 16 {
        Elf64BitEIdentValidationErrors::InvalidEIdentSize
    } else if !magic_ok(b) {
        Elf64BitEIdentValidationErrors::InvalidMagicNumbers
    } else if !class_ok(b) {
        Elf64BitEIdentValidationErrors::Non64BitELF(b[4])
    } else if !encoding_ok(b) {
        Elf64BitEIdentValidationErrors::InvalidEndianness(b[5])
    } else if !version_ok(b) {
        Elf64BitEIdentValidationErrors::InvalidELFVersion(b[6])
    } else {
        Elf64BitEIdentValidationErrors::InvalidPadding
    }
}

/// `validate_e_type` accepts exactly the buffers that can hold the field,
/// name a legal endianness, and hold an accepted `e_type` value.
pub open spec fn e_type_accepted(b: Seq<u8>) -> bool {
    &&& b.len() >= 18
    &&& encoding_ok(b)
    &&& e_type_value_ok(field_value(b, Elf64Field::EType))
}

/// The first violation `validate_e_type` reports, in the order it checks:
/// size, then endianness, then value.
pub open spec fn e_type_error(b: Seq<u8>) -> Elf64BitETypeValidationErrors {
    if b.len() < 18 {
        Elf64BitETypeValidationErrors::InvalidETypeSize
    } else if !encoding_ok(b) {
        Elf64BitETypeValidationErrors::InvalidEndianness(b[5])
    } else {
        Elf64BitETypeValidationErrors::InvalidETypeValue(
            field_value(b, Elf64Field::EType) as u16,
        )
    }
}

/// `validate_e_machine` accepts exactly the buffers that can hold the field
/// and name a legal endianness; the field's value is deliberately
/// unconstrained.
pub open spec fn e_machine_accepted(b: Seq<u8>) -> bool {
    b.len() >= 20 && encoding_ok(b)
}

/// The first violation `validate_e_machine` reports: size, then endianness.
pub open spec fn e_machine_error(b: Seq<u8>) -> Elf64BitEMachineValidationErrors {
    if b.len() < 20 {
        Elf64BitEMachineValidationErrors::InvalidEMachSize
    } else {
        Elf64BitEMachineValidationErrors::InvalidEndianness(b[5])
    }
}

/// A validator borrowing the whole candidate file buffer read-only; its view
/// is the buffer's byte sequence.
pub struct Elf64BitValidator<'a> {
    base: &'a [u8],
}

impl<'a> View for Elf64BitValidator<'a> {
    type V = Seq<u8>;

    closed spec fn view(&self) -> Seq<u8> {
        self.base@
    }
}

impl<'a> Elf64BitValidator<'a> {
    /// Wrap a buffer; nothing is read or checked yet.
    pub fn new(base_bytes: &'a [u8]) -> (r: Self)
        ensures
            r@ == base_bytes@,
    {
        Elf64BitValidator { base: base_bytes }
    }

    /// Validate the identification block at the head of the buffer and hand
    /// back its 16 bytes, or the first violation in offset order.
    pub fn validate_e_ident(&mut self) -> (r: Result<
        Box<&'a [u8]>,
        Elf64BitEIdentValidationErrors,
    >)
        ensures
            final(self)@ == old(self)@,
            r is Ok <==> ident_valid(old(self)@),
            r matches Ok(eid) ==> eid@ == old(self)@.subrange(0, 16),
            r matches Err(e) ==> e == e_ident_error(old(self)@),
    {
        let base = self.base;
        if base.len() < 16 {
            return Err(Elf64BitEIdentValidationErrors::InvalidEIdentSize);
        }
        let e_ident = slice_subrange(base, 0, 16);
        if e_ident[0] != 0x7f || e_ident[1] != 0x45 || e_ident[2] != 0x4c || e_ident[3] != 0x46 {
            return Err(Elf64BitEIdentValidationErrors::InvalidMagicNumbers);
        }
        if e_ident[4] != 2 {
            return Err(Elf64BitEIdentValidationErrors::Non64BitELF(e_ident[4]));
        }
        if e_ident[5] != 1 && e_ident[5] != 2 {
            return Err(Elf64BitEIdentValidationErrors::InvalidEndianness(e_ident[5]));
        }
        if e_ident[6] != 1 {
            return Err(Elf64BitEIdentValidationErrors::InvalidELFVersion(e_ident[6]));
        }
        let mut i: usize = 9;
        while i < 16
            invariant
                9 <= i <= 16,
                e_ident@ == old(self)@.subrange(0, 16),
                old(self)@.len() >= 16,
                magic_ok(old(self)@),
                class_ok(old(self)@),
                encoding_ok(old(self)@),
                version_ok(old(self)@),
                forall|j: int| 9 <= j < i ==> old(self)@[j] == 0,
            decreases 16 - i,
        {
            if e_ident[i] != 0 {
                return Err(Elf64BitEIdentValidationErrors::InvalidPadding);
            }
            i += 1;
        }
        Ok(Box::new(e_ident))
    }

    /// Decode and validate the `e_type` field with the endianness that byte
    /// 5 prescribes, and hand back the field's two raw bytes.
    pub fn validate_e_type(&self) -> (r: Result<Box<&'a [u8]>, Elf64BitETypeValidationErrors>)
        ensures
            r is Ok <==> e_type_accepted(self@),
            r matches Ok(bts) ==> bts@ == self@.subrange(16, 18),
            r matches Err(e) ==> e == e_type_error(self@),
    {
        if self.base.len() < 18 {
            return Err(Elf64BitETypeValidationErrors::InvalidETypeSize);
        }
        let endianness = self.get_endianness();
        let e_type_bytes = slice_subrange(self.base, 16, 18);
        let end_blk_anlzr = if endianness == 1 {
            true
        } else if endianness == 2 {
            false
        } else {
            return Err(Elf64BitETypeValidationErrors::InvalidEndianness(endianness));
        };
        let e_type = u16::read_from(e_type_bytes, end_blk_anlzr);
        assert(e_type == field_value(self@, Elf64Field::EType));
        if !(e_type <= 4 || (0xfe00 <= e_type && e_type <= 0xfeff) || 0xff00 <= e_type) {
            return Err(Elf64BitETypeValidationErrors::InvalidETypeValue(e_type));
        }
        Ok(Box::new(e_type_bytes))
    }

    /// Check that the buffer can hold the `e_machine` field and names a
    /// legal endianness, and hand back the field's two raw bytes; the value
    /// itself is accepted unconditionally.
    pub fn validate_e_machine(&self) -> (r: Result<
        Box<&'a [u8]>,
        Elf64BitEMachineValidationErrors,
    >)
        ensures
            r is Ok <==> e_machine_accepted(self@),
            r matches Ok(bts) ==> bts@ == self@.subrange(18, 20),
            r matches Err(e) ==> e == e_machine_error(self@),
    {
        if self.base.len() < 20 {
            return Err(Elf64BitEMachineValidationErrors::InvalidEMachSize);
        }
        let endianness = self.get_endianness();
        if endianness != 1 && endianness != 2 {
            return Err(Elf64BitEMachineValidationErrors::InvalidEndianness(endianness));
        }
        let e_machine_bytes = slice_subrange(self.base, 18, 20);
        Ok(Box::new(e_machine_bytes))
    }

    /// Read the endianness byte at offset 5.
    fn get_endianness(&self) -> (r: u8)
        requires
            self@.len() > 5,
        ensures
            r == self@[5],
    {
        self.base[5]
    }
}

} // verus!
