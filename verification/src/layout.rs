//! Size and alignment: does a buffer of a given length, starting at a given
//! address, have room for a value, or for an array, of a type of a given layout?
//!
//! Everything here works on plain numbers, so the rules can be used, and tried,
//! without a buffer or a type at hand.
use vstd::prelude::*;
use crate::error::ReadError;

verus! {

/// `address` is a multiple of `align`. No address is aligned to zero.
pub open spec fn aligned(address: nat, align: nat) -> bool {
    align != 0 && address % align == 0
}

/// `len` is a whole number of times `size`.
pub open spec fn multiple_of(len: nat, size: nat) -> bool {
    exists|count: nat| len == #[trigger] (count * size)
}

/// For a size that is not zero, the multiples are the lengths that leave no
/// remainder, and the quotient says how many times the size goes into them.
pub proof fn lemma_multiple_of(len: nat, size: nat)
    requires
        size > 0,
    ensures
        multiple_of(len, size) <==> len % size == 0,
        forall|count: nat| len == #[trigger] (count * size) ==> len / size == count,
{
    if len % size == 0 {
        lemma_quotient(len, size);
        assert(len == (len / size) * size);
    }
    assert forall|count: nat| len == #[trigger] (count * size) implies len % size == 0 && len
        / size == count by {
        lemma_product(count, size);
    }
}

/// A length that leaves no remainder is the size times the quotient.
pub(crate) proof fn lemma_quotient(len: nat, size: nat)
    by (nonlinear_arith)
    requires
        size > 0,
        len % size == 0,
    ensures
        len == (len / size) * size,
{
}

/// A product leaves no remainder, and its quotient is the other factor.
proof fn lemma_product(count: nat, size: nat)
    by (nonlinear_arith)
    requires
        size > 0,
    ensures
        (count * size) % size == 0,
        (count * size) / size == count,
{
}

/// What a read of one value answers, from the layout alone: the value needs `size`
/// bytes, and the buffer has to start at a multiple of `align`. Length is looked at
/// first.
pub open spec fn value_layout(len: nat, address: nat, size: nat, align: nat) -> Result<
    (),
    ReadError,
> {
    if len < size {
        Err(ReadError::TooShort)
    } else if !aligned(address, align) {
        Err(ReadError::Misaligned)
    } else {
        Ok(())
    }
}

/// What a read of an array answers, from the layout alone: the number of elements,
/// `len / size`, where the element has a size, the buffer is a whole number of
/// elements long and it starts at a multiple of `align`. The three are looked at in
/// that order.
pub open spec fn array_layout(len: nat, address: nat, size: nat, align: nat) -> Result<
    nat,
    ReadError,
> {
    if size == 0 {
        Err(ReadError::ZeroSized)
    } else if len % size != 0 {
        Err(ReadError::PartialElement)
    } else if !aligned(address, align) {
        Err(ReadError::Misaligned)
    } else {
        Ok(len / size)
    }
}

/// Tells whether `address` is a multiple of `align`.
pub fn is_aligned(address: usize, align: usize) -> (yes: bool)
    ensures
        yes == aligned(address as nat, align as nat),
{
    align != 0 && address % align == 0
}

/// Decides whether a buffer of `len` bytes at `address` can be read as one value of
/// `size` bytes aligned to `align`.
pub fn check_value(len: usize, address: usize, size: usize, align: usize) -> (verdict: Result<
    (),
    ReadError,
>)
    ensures
        verdict == value_layout(len as nat, address as nat, size as nat, align as nat),
{
    if len < size {
        Err(ReadError::TooShort)
    } else if !is_aligned(address, align) {
        Err(ReadError::Misaligned)
    } else {
        Ok(())
    }
}

/// Decides whether a buffer of `len` bytes at `address` can be read as an array of
/// elements of `size` bytes aligned to `align`, and counts the elements.
pub fn check_array(len: usize, address: usize, size: usize, align: usize) -> (verdict: Result<
    usize,
    ReadError,
>)
    ensures
        match verdict {
            Ok(count) => array_layout(len as nat, address as nat, size as nat, align as nat) == Ok::<
                nat,
                ReadError,
            >(count as nat),
            Err(error) => array_layout(len as nat, address as nat, size as nat, align as nat)
                == Err::<nat, ReadError>(error),
        },
{
    if size == 0 {
        Err(ReadError::ZeroSized)
    } else if len % size != 0 {
        Err(ReadError::PartialElement)
    } else if !is_aligned(address, align) {
        Err(ReadError::Misaligned)
    } else {
        Ok(len / size)
    }
}

} // verus!
