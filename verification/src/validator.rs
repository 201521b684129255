//! Validation of an identification block handed over on its own, as a free
//! function over the `e_ident` bytes at the head of the given slice.

use crate::def::{class_ok, encoding_ok, ident_valid, magic_ok, version_ok};
use vstd::prelude::*;

verus! {

/// Why an identification block was rejected; the variants that carry a byte
/// hold the offending value.
#[derive(Debug, Clone, Copy, PartialEq, Eq, Structural)]
pub enum Elf64BitEIdentValidationErrors {
    NonELFFileError,
    InvalidEIdentSize,
    InvalidMagicNumbers,
    Non64BitELF(u8),
    InvalidELFVersion(u8),
    InvalidEndianness(u8),
    InvalidPadding,
}

/// The first violation in an unacceptable `e_ident` block, checked in offset
/// order. Meaningful only when `validate_eident` rejects.
pub open spec fn eident_error(b: Seq<u8>) -> Elf64BitEIdentValidationErrors {
    if b.len() < 16 {
        Elf64BitEIdentValidationErrors::InvalidEIdentSize
    } else if !magic_ok(b) {
        Elf64BitEIdentValidationErrors::InvalidMagicNumbers
    } else if !class_ok(b) {
        Elf64BitEIdentValidationErrors::Non64BitELF(b[4])
    } else if !encoding_ok(b) {
        Elf64BitEIdentValidationErrors::InvalidEndianness(b[5])
    } else if !version_ok(b) {
        Elf64BitEIdentValidationErrors::InvalidELFVersion(b[6])
    } else {
        Elf64BitEIdentValidationErrors::InvalidPadding
    }
}

/// Accept exactly the slices that hold the 16 identification bytes and
/// whose constrained bytes are all legal; reject everything else with the
/// first violation in offset order.
pub fn validate_eident(e_ident: &[u8]) -> (r: Result<(), Elf64BitEIdentValidationErrors>)
    ensures
        r is Ok <==> ident_valid(e_ident@),
        r matches Err(e) ==> e == eident_error(e_ident@),
{
    if e_ident.len() < 16 {
        return Err(Elf64BitEIdentValidationErrors::InvalidEIdentSize);
    }
    if e_ident[0] != 0x7f || e_ident[1] != 0x45 || e_ident[2] != 0x4c || e_ident[3] != 0x46 {
        return Err(Elf64BitEIdentValidationErrors::InvalidMagicNumbers);
    }
    if e_ident[4] != 2 {
        return Err(Elf64BitEIdentValidationErrors::Non64BitELF(e_ident[4]));
    }
    if e_ident[5] != 1 && e_ident[5] != 2 {
        return Err(Elf64BitEIdentValidationErrors::InvalidEndianness(e_ident[5]));
    }
    if e_ident[6] != 1 {
        return Err(Elf64BitEIdentValidationErrors::InvalidELFVersion(e_ident[6]));
    }
    let mut i: usize = 9;
    while i < 16
        invariant
            9 <= i <= 16,
            e_ident@.len() >= 16,
            magic_ok(e_ident@),
            class_ok(e_ident@),
            encoding_ok(e_ident@),
            version_ok(e_ident@),
            forall|j: int| 9 <= j < i ==> e_ident@[j] == 0,
        decreases 16 - i,
    {
        if e_ident[i] != 0 {
            return Err(Elf64BitEIdentValidationErrors::InvalidPadding);
        }
        i += 1;
    }
    Ok(())
}

} // verus!
