//! Keeps the set of plain-data types closed.
use vstd::prelude::*;

verus! {

/// Implemented for the types that are `Pod`, and for no others. The module is
/// private, so no other crate can name the trait, and none can add to the set.
pub trait Sealed {

}

impl Sealed for u8 {

}

impl Sealed for u16 {

}

impl Sealed for u32 {

}

impl Sealed for u64 {

}

impl Sealed for u128 {

}

impl Sealed for i8 {

}

impl Sealed for i16 {

}

impl Sealed for i32 {

}

impl Sealed for i64 {

}

impl Sealed for i128 {

}

} // verus!
