//! What this library takes from the standard library without proof.
//!
//! Each item below gives a contract to one function of `core`. The verifier believes
//! these contracts; everything else in the library is proved from them.
use vstd::prelude::*;
use vstd::string::StringSliceAdditionalSpecFns;
use vstd::utf8::valid_utf8;
use crate::digits::{bytes_of, ByteOrder};

verus! {

/// `<[u8]>::as_ptr`, turned into a number: the address at which `bytes` starts.
///
/// An address is the allocator's and the machine's business, so nothing is claimed of
/// the result: verified code decides what to do with it for every value it can take.
#[verifier::external_body]
pub(crate) fn start_address(bytes: &[u8]) -> (address: usize) {
    bytes.as_ptr() as usize
}

/// `u16::to_ne_bytes`: the two bytes that hold `value` in this machine's memory.
///
/// The standard library documents the result as the value's representation in the
/// byte order of the target. Which order that is, it leaves to the machine, so the
/// contract claims only that it is one of the two.
#[verifier::external_body]
pub(crate) fn native_bytes(value: u16) -> (bytes: [u8; 2])
    ensures
        bytes@ == bytes_of(value as nat, 2, ByteOrder::Little) || bytes@ == bytes_of(
            value as nat,
            2,
            ByteOrder::Big,
        ),
{
    value.to_ne_bytes()
}

/// `core::str::Utf8Error`, carried from `core::str::from_utf8` to the place where it
/// is turned into this library's own error; nothing is read from it.
#[verifier::external_type_specification]
#[verifier::external_body]
pub struct ExUtf8Error(core::str::Utf8Error);

/// `core::str::from_utf8` succeeds exactly on well-formed UTF-8, and the string it
/// then hands out is made of the very bytes it was given.
pub assume_specification[ core::str::from_utf8 ](bytes: &[u8]) -> (text: Result<
    &str,
    core::str::Utf8Error,
>)
    ensures
        text is Ok <==> valid_utf8(bytes@),
        text matches Ok(s) ==> s.spec_bytes() == bytes@,
;

} // verus!
