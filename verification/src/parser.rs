//! The decoding entry point: a type that can be materialized from a raw byte
//! buffer or rejected with a header error.

use crate::header::Elf64HeaderError;
use vstd::prelude::*;

verus! {

/// A value decodable from an untrusted byte buffer. The two spec functions
/// pin the implementation down: exactly one of them holds of the outcome.
pub trait Parseable: Sized {
    /// When `bytes` decodes successfully to the value `v`.
    spec fn parse_ok(bytes: Seq<u8>, v: Self) -> bool;

    /// When decoding `bytes` fails with the error `e`.
    spec fn parse_err(bytes: Seq<u8>, e: Elf64HeaderError) -> bool;

    /// Decode one value from the buffer, or report the first violation
    /// found; the buffer is only read, never changed or retained.
    fn parse(bytes: &[u8]) -> (r: Result<Self, Elf64HeaderError>)
        ensures
            (match r {
                Ok(v) => Self::parse_ok(bytes@, v),
                Err(e) => Self::parse_err(bytes@, e),
            }),
    ;
}

} // verus!
