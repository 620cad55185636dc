//! Typed views of byte buffers: single values, arrays, and zero-terminated text.
//!
//! The caller owns a buffer of bytes laid out by some outside format; this library
//! reads it as integers, as arrays of integers, or as UTF-8 strings that a zero byte
//! ends. It owns no memory, it does not change the buffer, and it converts no byte
//! order: what is read is what the machine would find in its own memory.
//!
//! There are two ways in. The checked reads ([`read`], [`readarray`], [`readstr`],
//! [`readstr2null`]) look at length, alignment and encoding, and refuse a buffer
//! that does not fit with a [`ReadError`]; they never stop the program. The
//! unchecked reads ([`readunsafe`], [`read_arrayunsafe`], [`read_strunsafe`]) leave
//! that to the caller, who has to prove their preconditions.
//!
//! Integers are decoded from their bytes rather than reinterpreted in place, so no
//! read depends on the address of a buffer for its safety. The checked reads still
//! refuse a misaligned buffer, as a layout that the format does not allow.
pub mod digits;
pub mod error;
pub mod layout;
pub mod pod;
mod sealed;
pub mod text;
mod trusted;
pub mod typed;

pub use crate::digits::ByteOrder;
pub use crate::error::ReadError;
pub use crate::pod::Pod;
pub use crate::text::{read_strbytes, read_strunsafe, readstr, readstr2null, StrReadIter};
pub use crate::typed::{
    read, read_arrayunsafe, read_with, readarray, readarray_with, readunsafe, TypedSlice,
};
