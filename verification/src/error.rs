//! Why a read was refused.
use vstd::prelude::*;

verus! {

/// The ways in which a buffer can fail to hold what a read asks of it.
///
/// A refused read hands back one of these instead of stopping the program, so a
/// caller decides what a malformed buffer means. No read hands out part of a result.
#[derive(Clone, Copy, Debug, PartialEq, Eq, Structural)]
pub enum ReadError {
    /// The buffer has fewer bytes than one value of the type.
    TooShort,
    /// The buffer does not start at a multiple of the type's alignment.
    Misaligned,
    /// The element type has size zero, so the number of elements is undefined.
    ZeroSized,
    /// The buffer's length is not a whole number of elements.
    PartialElement,
    /// No zero byte ends the string.
    NoTerminator,
    /// The bytes before the terminator are not well-formed UTF-8.
    InvalidUtf8,
}

} // verus!
