//! Reading a buffer as one value, or as an array of values, of a plain-data type.
//!
//! Nothing here reinterprets memory in place: a value is decoded from the bytes that
//! hold it. An array is a view that keeps the borrowed buffer and decodes an element
//! when it is asked for, so taking the view copies nothing and allocates nothing.
//!
//! A checked read is refused, with a [`ReadError`], where the buffer does not fit
//! the type. The unchecked reads leave the fitting to the caller, as a precondition.
use vstd::prelude::*;
use vstd::layout::{align_of, size_of};
use vstd::slice::slice_subrange;
use core::marker::PhantomData;
use crate::digits::{bytes_of, le_digits, ByteOrder};
use crate::error::ReadError;
use crate::layout::{
    aligned, array_layout, check_array, check_value, lemma_multiple_of, lemma_quotient,
    multiple_of, value_layout,
};
use crate::pod::Pod;
use crate::trusted::{native_bytes, start_address};

verus! {

/// The bytes of the element at `index`, in a buffer of elements of type `T`.
pub open spec fn element_bytes<T: Pod>(bytes: Seq<u8>, index: int) -> Seq<u8> {
    bytes.subrange(index * size_of::<T>(), (index + 1) * size_of::<T>())
}

/// The values that `bytes` hold one after the other, as many as fit whole.
pub open spec fn elements<T: Pod>(bytes: Seq<u8>, order: ByteOrder) -> Seq<T> {
    Seq::new(
        bytes.len() / size_of::<T>(),
        |index: int| T::from_raw(element_bytes::<T>(bytes, index), order),
    )
}

/// What a checked read of one `T` answers for a buffer that holds `bytes` and starts
/// at `address`, on a machine of byte order `order`: the value that the first
/// `size_of::<T>()` bytes hold, where the layout allows it.
pub open spec fn read_spec<T: Pod>(bytes: Seq<u8>, address: usize, order: ByteOrder) -> Result<
    T,
    ReadError,
> {
    match value_layout(bytes.len(), address as nat, size_of::<T>(), align_of::<T>()) {
        Ok(_) => Ok(T::from_raw(bytes.subrange(0, size_of::<T>() as int), order)),
        Err(error) => Err(error),
    }
}

/// What a checked read of an array of `T` answers for a buffer that holds `bytes` and
/// starts at `address`, on a machine of byte order `order`: all the elements of the
/// buffer, where the layout allows it.
pub open spec fn readarray_spec<T: Pod>(
    bytes: Seq<u8>,
    address: usize,
    order: ByteOrder,
) -> Result<Seq<T>, ReadError> {
    match array_layout(bytes.len(), address as nat, size_of::<T>(), align_of::<T>()) {
        Ok(_) => Ok(elements::<T>(bytes, order)),
        Err(error) => Err(error),
    }
}

/// A borrowed buffer seen as consecutive elements of type `T`.
///
/// The buffer is a whole number of elements long, and `T` has a size. The view owns
/// nothing and lives no longer than the buffer.
#[derive(Debug)]
pub struct TypedSlice<'a, T: Pod> {
    bytes: &'a [u8],
    order: ByteOrder,
    element: PhantomData<T>,
}

impl<'a, T: Pod> Clone for TypedSlice<'a, T> {
    /// A second view of the same buffer.
    fn clone(&self) -> (copy: Self)
        ensures
            copy.bytes() == self.bytes(),
            copy.order() == self.order(),
    {
        proof {
            use_type_invariant(self);
        }
        TypedSlice { bytes: self.bytes, order: self.order, element: PhantomData }
    }
}

impl<'a, T: Pod> TypedSlice<'a, T> {
    #[verifier::type_invariant]
    spec fn whole(&self) -> bool {
        size_of::<T>() > 0 && self.bytes@.len() % size_of::<T>() == 0
    }

    /// The bytes of the buffer that the view was taken of.
    pub closed spec fn bytes(&self) -> Seq<u8> {
        self.bytes@
    }

    /// The byte order in which the elements are read.
    pub closed spec fn order(&self) -> ByteOrder {
        self.order
    }

    /// The elements, in the order of the buffer.
    pub open spec fn view(&self) -> Seq<T> {
        elements::<T>(self.bytes(), self.order())
    }

    /// The number of elements: the buffer's length divided by the size of one.
    pub fn len(&self) -> (count: usize)
        ensures
            count == self@.len(),
            count * size_of::<T>() == self.bytes().len(),
    {
        proof {
            use_type_invariant(self);
            lemma_quotient(self.bytes@.len(), size_of::<T>());
        }
        self.bytes.len() / core::mem::size_of::<T>()
    }

    /// The element at `index`, or `None` past the end.
    pub fn get(&self, index: usize) -> (element: Option<T>)
        ensures
            element == if index < self@.len() {
                Some(self@[index as int])
            } else {
                None
            },
            element matches Some(value) ==> value.raw_bytes(self.order()) == element_bytes::<T>(
                self.bytes(),
                index as int,
            ),
    {
        proof {
            use_type_invariant(self);
        }
        let size = core::mem::size_of::<T>();
        if index < self.bytes.len() / size {
            proof {
                lemma_element_in_bounds(self.bytes@.len(), size as nat, index as nat);
            }
            let start = index * size;
            let chunk = slice_subrange(self.bytes, start, start + size);
            proof {
                T::lemma_from_raw(chunk@, self.order);
            }
            Some(T::decode(chunk, self.order))
        } else {
            None
        }
    }

    /// The buffer itself.
    pub fn as_bytes(&self) -> (bytes: &'a [u8])
        ensures
            bytes@ == self.bytes(),
    {
        self.bytes
    }
}

/// An element below the count lies inside the buffer.
proof fn lemma_element_in_bounds(len: nat, size: nat, index: nat)
    by (nonlinear_arith)
    requires
        size > 0,
        index < len / size,
    ensures
        index * size + size <= len,
        index * size + size == (index + 1) * size,
{
}

/// The byte order of a machine that holds the number one as the two bytes `one`:
/// the low byte comes first on a little-endian machine, and last on a big-endian one.
fn native_order(one: [u8; 2]) -> (order: ByteOrder)
    ensures
        order == ByteOrder::Little <==> one@[0] == 1,
        one@ == bytes_of(1, 2, ByteOrder::Little) ==> order == ByteOrder::Little,
        one@ == bytes_of(1, 2, ByteOrder::Big) ==> order == ByteOrder::Big,
{
    proof {
        reveal_with_fuel(le_digits, 3);
        assert(le_digits(1, 2) =~= seq![1u8, 0u8]);
        assert(le_digits(1, 2).reverse() =~= seq![0u8, 1u8]);
    }
    if one[0] == 1 {
        ByteOrder::Little
    } else {
        ByteOrder::Big
    }
}

/// Reads the start of `input` as a `T` without looking at the layout: the caller
/// guarantees that `input` has the bytes of a whole `T`.
///
/// The value is the one that the first `size_of::<T>()` bytes hold in the machine's
/// byte order, whichever that is. Bytes beyond them are ignored.
pub fn readunsafe<T: Pod>(input: &[u8]) -> (value: T)
    requires
        size_of::<T>() <= input@.len(),
    ensures
        exists|order: ByteOrder|
            value == #[trigger] T::from_raw(input@.subrange(0, size_of::<T>() as int), order),
{
    decode_prefix::<T>(input, native_order(native_bytes(1)))
}

fn decode_prefix<T: Pod>(input: &[u8], order: ByteOrder) -> (value: T)
    requires
        size_of::<T>() <= input@.len(),
    ensures
        value == T::from_raw(input@.subrange(0, size_of::<T>() as int), order),
{
    let prefix = slice_subrange(input, 0, core::mem::size_of::<T>());
    T::decode(prefix, order)
}

/// Reads the start of `input` as a `T`, for a buffer that starts at `address` on a
/// machine of byte order `order`.
///
/// This is [`read`] with the two things that only the machine knows handed in.
pub fn read_with<T: Pod>(input: &[u8], address: usize, order: ByteOrder) -> (outcome: Result<
    T,
    ReadError,
>)
    ensures
        outcome == read_spec::<T>(input@, address, order),
        outcome matches Ok(value) ==> value.raw_bytes(order) == input@.subrange(
            0,
            size_of::<T>() as int,
        ),
{
    match check_value(
        input.len(),
        address,
        core::mem::size_of::<T>(),
        core::mem::align_of::<T>(),
    ) {
        Ok(_) => {
            proof {
                T::lemma_from_raw(input@.subrange(0, size_of::<T>() as int), order);
            }
            Ok(decode_prefix::<T>(input, order))
        },
        Err(error) => Err(error),
    }
}

/// Reads the start of `input` as a `T`.
///
/// The read is refused with `TooShort` where `input` has fewer than `size_of::<T>()`
/// bytes, and otherwise with `Misaligned` where `input` does not start at a multiple
/// of `align_of::<T>()`. Else the value is the one that the first `size_of::<T>()`
/// bytes hold in the machine's byte order; bytes beyond them are ignored.
///
/// Where the buffer starts and which byte order the machine has is not known before
/// the program runs: the outcome is what [`read_spec`] says for some address and
/// some byte order.
pub fn read<T: Pod>(input: &[u8]) -> (outcome: Result<T, ReadError>)
    ensures
        exists|address: usize, order: ByteOrder|
            outcome == read_spec::<T>(input@, address, order),
        outcome == Err::<T, ReadError>(ReadError::TooShort) <==> input@.len() < size_of::<T>(),
        input@.len() >= size_of::<T>() && align_of::<T>() == 1 ==> outcome is Ok,
{
    read_with(input, start_address(input), native_order(native_bytes(1)))
}

/// Takes `input` as an array of `T` without looking at the layout: the caller
/// guarantees that `T` has a size and that `input` is a whole number of elements
/// long.
///
/// The elements are read in the machine's byte order, whichever that is.
pub fn read_arrayunsafe<'a, T: Pod>(input: &'a [u8]) -> (array: TypedSlice<'a, T>)
    requires
        size_of::<T>() > 0,
        input@.len() % size_of::<T>() == 0,
    ensures
        array.bytes() == input@,
{
    TypedSlice { bytes: input, order: native_order(native_bytes(1)), element: PhantomData }
}

/// Takes `input` as an array of `T`, for a buffer that starts at `address` on a
/// machine of byte order `order`.
///
/// This is [`readarray`] with the two things that only the machine knows handed in.
pub fn readarray_with<'a, T: Pod>(input: &'a [u8], address: usize, order: ByteOrder) -> (outcome:
    Result<TypedSlice<'a, T>, ReadError>)
    ensures
        match outcome {
            Ok(array) => {
                &&& readarray_spec::<T>(input@, address, order) == Ok::<Seq<T>, ReadError>(array@)
                &&& array.bytes() == input@
                &&& array.order() == order
            },
            Err(error) => readarray_spec::<T>(input@, address, order) == Err::<
                Seq<T>,
                ReadError,
            >(error),
        },
{
    match check_array(
        input.len(),
        address,
        core::mem::size_of::<T>(),
        core::mem::align_of::<T>(),
    ) {
        Ok(_) => Ok(TypedSlice { bytes: input, order, element: PhantomData }),
        Err(error) => Err(error),
    }
}

/// Takes the whole of `input` as an array of `T`.
///
/// The read is refused with `ZeroSized` where `T` has no size; otherwise with
/// `PartialElement` where the length of `input` is not a multiple of `size_of::<T>()`;
/// otherwise with `Misaligned` where `input` does not start at a multiple of
/// `align_of::<T>()`. Else the array has `input.len() / size_of::<T>()` elements, in
/// the order of the buffer, each read in the machine's byte order.
///
/// Where the buffer starts and which byte order the machine has is not known before
/// the program runs: the outcome is what [`readarray_spec`] says for some address
/// and some byte order.
pub fn readarray<'a, T: Pod>(input: &'a [u8]) -> (outcome: Result<TypedSlice<'a, T>, ReadError>)
    ensures
        exists|address: usize, order: ByteOrder|
            match outcome {
                Ok(array) => {
                    &&& #[trigger] readarray_spec::<T>(input@, address, order) == Ok::<
                        Seq<T>,
                        ReadError,
                    >(array@)
                    &&& array.bytes() == input@
                    &&& array.order() == order
                },
                Err(error) => readarray_spec::<T>(input@, address, order) == Err::<
                    Seq<T>,
                    ReadError,
                >(error),
            },
        outcome matches Err(ReadError::ZeroSized) <==> size_of::<T>() == 0,
        outcome matches Err(ReadError::PartialElement) <==> size_of::<T>() > 0 && input@.len() % size_of::<
            T,
        >() != 0,
        size_of::<T>() > 0 && input@.len() % size_of::<T>() == 0 && align_of::<T>() == 1
            ==> outcome is Ok,
{
    readarray_with(input, start_address(input), native_order(native_bytes(1)))
}

/// A checked read of a buffer that is long enough and starts at an aligned address
/// gives a value whose raw bytes are the first `size_of::<T>()` bytes of the buffer.
pub proof fn lemma_read_gives_prefix<T: Pod>(bytes: Seq<u8>, address: usize, order: ByteOrder)
    requires
        bytes.len() >= size_of::<T>(),
        aligned(address as nat, align_of::<T>()),
    ensures
        read_spec::<T>(bytes, address, order) is Ok,
        read_spec::<T>(bytes, address, order).unwrap().raw_bytes(order) == bytes.subrange(
            0,
            size_of::<T>() as int,
        ),
{
    T::lemma_from_raw(bytes.subrange(0, size_of::<T>() as int), order);
}

/// A checked read of a buffer that starts with the raw bytes of `value`, at an
/// aligned address, gives `value` back.
pub proof fn lemma_read_round_trip<T: Pod>(
    value: T,
    bytes: Seq<u8>,
    address: usize,
    order: ByteOrder,
)
    requires
        bytes.len() >= size_of::<T>(),
        bytes.subrange(0, size_of::<T>() as int) == value.raw_bytes(order),
        aligned(address as nat, align_of::<T>()),
    ensures
        read_spec::<T>(bytes, address, order) == Ok::<T, ReadError>(value),
{
    value.lemma_raw_bytes(order);
}

/// A checked read of a buffer that does not start at an aligned address is refused,
/// however long the buffer is.
pub proof fn lemma_read_refuses_misaligned<T: Pod>(
    bytes: Seq<u8>,
    address: usize,
    order: ByteOrder,
)
    requires
        bytes.len() >= size_of::<T>(),
        !aligned(address as nat, align_of::<T>()),
    ensures
        read_spec::<T>(bytes, address, order) == Err::<T, ReadError>(ReadError::Misaligned),
{
}

/// A checked array read of a buffer whose length is not a multiple of the size of an
/// element is refused.
pub proof fn lemma_readarray_refuses_partial_element<T: Pod>(
    bytes: Seq<u8>,
    address: usize,
    order: ByteOrder,
)
    requires
        !multiple_of(bytes.len(), size_of::<T>()),
    ensures
        readarray_spec::<T>(bytes, address, order) is Err,
        size_of::<T>() > 0 ==> readarray_spec::<T>(bytes, address, order) == Err::<
            Seq<T>,
            ReadError,
        >(ReadError::PartialElement),
{
    if size_of::<T>() > 0 {
        lemma_multiple_of(bytes.len(), size_of::<T>());
    }
}

/// A checked array read of a buffer of `count` times the size of an element, at an
/// aligned address, gives `count` elements, and the raw bytes of each are the bytes
/// of the buffer at its place.
pub proof fn lemma_readarray_gives_elements<T: Pod>(
    bytes: Seq<u8>,
    count: nat,
    address: usize,
    order: ByteOrder,
)
    requires
        size_of::<T>() > 0,
        bytes.len() == count * size_of::<T>(),
        aligned(address as nat, align_of::<T>()),
    ensures
        readarray_spec::<T>(bytes, address, order) is Ok,
        readarray_spec::<T>(bytes, address, order).unwrap().len() == count,
        forall|index: int|
            0 <= index < count ==> (#[trigger] readarray_spec::<T>(
                bytes,
                address,
                order,
            ).unwrap()[index]).raw_bytes(order) == element_bytes::<T>(bytes, index),
{
    lemma_multiple_of(bytes.len(), size_of::<T>());
    assert forall|index: int| 0 <= index < count implies (#[trigger] readarray_spec::<T>(
        bytes,
        address,
        order,
    ).unwrap()[index]).raw_bytes(order) == element_bytes::<T>(bytes, index) by {
        lemma_element_in_bounds(bytes.len(), size_of::<T>(), index as nat);
        T::lemma_from_raw(element_bytes::<T>(bytes, index), order);
    }
}

/// A checked array read for an element type of size zero is refused, whatever the
/// buffer holds.
pub proof fn lemma_readarray_refuses_zero_sized<T: Pod>(
    bytes: Seq<u8>,
    address: usize,
    order: ByteOrder,
)
    requires
        size_of::<T>() == 0,
    ensures
        readarray_spec::<T>(bytes, address, order) == Err::<Seq<T>, ReadError>(
            ReadError::ZeroSized,
        ),
{
}

} // verus!
