//! Decoding and validation of the 64-bit ELF file header.
//!
//! The entry point is [`parser::Parseable::parse`] implemented for
//! [`def::Elf64_Ehdr`]: it takes an untrusted byte buffer, validates the
//! 16-byte identification block, and decodes every fixed-offset header field
//! with the endianness that the identification block prescribes, or rejects
//! the buffer with an error naming the first violation found.

pub mod arch64;
pub mod def;
pub mod endianness;
pub mod header;
pub mod parser;
pub mod validator;
