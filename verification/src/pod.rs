//! The types that any bytes can be read as.
use vstd::prelude::*;
use vstd::layout::size_of;
use crate::digits::{
    bytes_of, lemma_bytes_of_value, lemma_pow256_widths, lemma_value_of_bytes, pow256,
    unsigned_value, value_of, ByteOrder,
};
use crate::sealed::Sealed;

verus! {

/// The number below `256^width` that stands for `value` in two's complement.
pub open spec fn twos_complement(value: int, width: nat) -> nat {
    if value >= 0 {
        value as nat
    } else {
        (value + pow256(width)) as nat
    }
}

/// The signed number for which `pattern` stands in two's complement at `width` bytes.
pub open spec fn signed_value(pattern: nat, width: nat) -> int {
    if 2 * pattern < pow256(width) {
        pattern as int
    } else {
        pattern - pow256(width)
    }
}

/// A type of which every bit pattern of its size is a value, so that any bytes of
/// that size can be read as one.
///
/// The set is closed: the unsigned and signed integers of 8, 16, 32, 64 and 128
/// bits, and nothing else.
pub trait Pod: Copy + Sized + Sealed {
    /// The bytes that hold `self` in memory, in the byte order `order`.
    spec fn raw_bytes(self, order: ByteOrder) -> Seq<u8>;

    /// The value that `bytes` hold, in the byte order `order`.
    spec fn from_raw(bytes: Seq<u8>, order: ByteOrder) -> Self;

    /// A value takes up `size_of::<Self>()` bytes, and it is what those bytes hold.
    proof fn lemma_raw_bytes(self, order: ByteOrder)
        ensures
            self.raw_bytes(order).len() == size_of::<Self>(),
            Self::from_raw(self.raw_bytes(order), order) == self,
    ;

    /// Any `size_of::<Self>()` bytes are the raw bytes of the value they hold: no
    /// bit pattern is left out.
    proof fn lemma_from_raw(bytes: Seq<u8>, order: ByteOrder)
        requires
            bytes.len() == size_of::<Self>(),
        ensures
            Self::from_raw(bytes, order).raw_bytes(order) == bytes,
    ;

    /// Builds the value that `bytes` hold in the byte order `order`.
    fn decode(bytes: &[u8], order: ByteOrder) -> (value: Self)
        requires
            bytes@.len() == size_of::<Self>(),
        ensures
            value == Self::from_raw(bytes@, order),
    ;
}

impl Pod for u8 {
    open spec fn raw_bytes(self, order: ByteOrder) -> Seq<u8> {
        bytes_of(self as nat, 1, order)
    }

    open spec fn from_raw(bytes: Seq<u8>, order: ByteOrder) -> Self {
        value_of(bytes, order) as u8
    }

    proof fn lemma_raw_bytes(self, order: ByteOrder) {
        broadcast use vstd::layout::layout_of_primitives;

        lemma_pow256_widths();
        lemma_value_of_bytes(self as nat, 1, order);
    }

    proof fn lemma_from_raw(bytes: Seq<u8>, order: ByteOrder) {
        broadcast use vstd::layout::layout_of_primitives;

        lemma_pow256_widths();
        lemma_bytes_of_value(bytes, order);
    }

    fn decode(bytes: &[u8], order: ByteOrder) -> (value: Self) {
        proof {
            broadcast use vstd::layout::layout_of_primitives;

            lemma_pow256_widths();
            lemma_bytes_of_value(bytes@, order);
        }
        unsigned_value(bytes, order) as u8
    }
}

impl Pod for u16 {
    open spec fn raw_bytes(self, order: ByteOrder) -> Seq<u8> {
        bytes_of(self as nat, 2, order)
    }

    open spec fn from_raw(bytes: Seq<u8>, order: ByteOrder) -> Self {
        value_of(bytes, order) as u16
    }

    proof fn lemma_raw_bytes(self, order: ByteOrder) {
        broadcast use vstd::layout::layout_of_primitives;

        lemma_pow256_widths();
        lemma_value_of_bytes(self as nat, 2, order);
    }

    proof fn lemma_from_raw(bytes: Seq<u8>, order: ByteOrder) {
        broadcast use vstd::layout::layout_of_primitives;

        lemma_pow256_widths();
        lemma_bytes_of_value(bytes, order);
    }

    fn decode(bytes: &[u8], order: ByteOrder) -> (value: Self) {
        proof {
            broadcast use vstd::layout::layout_of_primitives;

            lemma_pow256_widths();
            lemma_bytes_of_value(bytes@, order);
        }
        unsigned_value(bytes, order) as u16
    }
}

impl Pod for u32 {
    open spec fn raw_bytes(self, order: ByteOrder) -> Seq<u8> {
        bytes_of(self as nat, 4, order)
    }

    open spec fn from_raw(bytes: Seq<u8>, order: ByteOrder) -> Self {
        value_of(bytes, order) as u32
    }

    proof fn lemma_raw_bytes(self, order: ByteOrder) {
        broadcast use vstd::layout::layout_of_primitives;

        lemma_pow256_widths();
        lemma_value_of_bytes(self as nat, 4, order);
    }

    proof fn lemma_from_raw(bytes: Seq<u8>, order: ByteOrder) {
        broadcast use vstd::layout::layout_of_primitives;

        lemma_pow256_widths();
        lemma_bytes_of_value(bytes, order);
    }

    fn decode(bytes: &[u8], order: ByteOrder) -> (value: Self) {
        proof {
            broadcast use vstd::layout::layout_of_primitives;

            lemma_pow256_widths();
            lemma_bytes_of_value(bytes@, order);
        }
        unsigned_value(bytes, order) as u32
    }
}

impl Pod for u64 {
    open spec fn raw_bytes(self, order: ByteOrder) -> Seq<u8> {
        bytes_of(self as nat, 8, order)
    }

    open spec fn from_raw(bytes: Seq<u8>, order: ByteOrder) -> Self {
        value_of(bytes, order) as u64
    }

    proof fn lemma_raw_bytes(self, order: ByteOrder) {
        broadcast use vstd::layout::layout_of_primitives;

        lemma_pow256_widths();
        lemma_value_of_bytes(self as nat, 8, order);
    }

    proof fn lemma_from_raw(bytes: Seq<u8>, order: ByteOrder) {
        broadcast use vstd::layout::layout_of_primitives;

        lemma_pow256_widths();
        lemma_bytes_of_value(bytes, order);
    }

    fn decode(bytes: &[u8], order: ByteOrder) -> (value: Self) {
        proof {
            broadcast use vstd::layout::layout_of_primitives;

            lemma_pow256_widths();
            lemma_bytes_of_value(bytes@, order);
        }
        unsigned_value(bytes, order) as u64
    }
}

impl Pod for u128 {
    open spec fn raw_bytes(self, order: ByteOrder) -> Seq<u8> {
        bytes_of(self as nat, 16, order)
    }

    open spec fn from_raw(bytes: Seq<u8>, order: ByteOrder) -> Self {
        value_of(bytes, order) as u128
    }

    proof fn lemma_raw_bytes(self, order: ByteOrder) {
        broadcast use vstd::layout::layout_of_primitives;

        lemma_pow256_widths();
        lemma_value_of_bytes(self as nat, 16, order);
    }

    proof fn lemma_from_raw(bytes: Seq<u8>, order: ByteOrder) {
        broadcast use vstd::layout::layout_of_primitives;

        lemma_pow256_widths();
        lemma_bytes_of_value(bytes, order);
    }

    fn decode(bytes: &[u8], order: ByteOrder) -> (value: Self) {
        proof {
            broadcast use vstd::layout::layout_of_primitives;

            lemma_pow256_widths();
            lemma_bytes_of_value(bytes@, order);
        }
        unsigned_value(bytes, order)
    }
}

impl Pod for i8 {
    open spec fn raw_bytes(self, order: ByteOrder) -> Seq<u8> {
        bytes_of(twos_complement(self as int, 1), 1, order)
    }

    open spec fn from_raw(bytes: Seq<u8>, order: ByteOrder) -> Self {
        signed_value(value_of(bytes, order), 1) as i8
    }

    proof fn lemma_raw_bytes(self, order: ByteOrder) {
        broadcast use vstd::layout::layout_of_primitives;

        lemma_pow256_widths();
        lemma_value_of_bytes(twos_complement(self as int, 1), 1, order);
    }

    proof fn lemma_from_raw(bytes: Seq<u8>, order: ByteOrder) {
        broadcast use vstd::layout::layout_of_primitives;

        lemma_pow256_widths();
        lemma_bytes_of_value(bytes, order);
    }

    fn decode(bytes: &[u8], order: ByteOrder) -> (value: Self) {
        proof {
            broadcast use vstd::layout::layout_of_primitives;

            lemma_pow256_widths();
            lemma_bytes_of_value(bytes@, order);
        }
        let pattern = unsigned_value(bytes, order);
        if pattern < 0x80 {
            pattern as i8
        } else {
            (pattern - 0x80) as i8 + i8::MIN
        }
    }
}

impl Pod for i16 {
    open spec fn raw_bytes(self, order: ByteOrder) -> Seq<u8> {
        bytes_of(twos_complement(self as int, 2), 2, order)
    }

    open spec fn from_raw(bytes: Seq<u8>, order: ByteOrder) -> Self {
        signed_value(value_of(bytes, order), 2) as i16
    }

    proof fn lemma_raw_bytes(self, order: ByteOrder) {
        broadcast use vstd::layout::layout_of_primitives;

        lemma_pow256_widths();
        lemma_value_of_bytes(twos_complement(self as int, 2), 2, order);
    }

    proof fn lemma_from_raw(bytes: Seq<u8>, order: ByteOrder) {
        broadcast use vstd::layout::layout_of_primitives;

        lemma_pow256_widths();
        lemma_bytes_of_value(bytes, order);
    }

    fn decode(bytes: &[u8], order: ByteOrder) -> (value: Self) {
        proof {
            broadcast use vstd::layout::layout_of_primitives;

            lemma_pow256_widths();
            lemma_bytes_of_value(bytes@, order);
        }
        let pattern = unsigned_value(bytes, order);
        if pattern < 0x8000 {
            pattern as i16
        } else {
            (pattern - 0x8000) as i16 + i16::MIN
        }
    }
}

impl Pod for i32 {
    open spec fn raw_bytes(self, order: ByteOrder) -> Seq<u8> {
        bytes_of(twos_complement(self as int, 4), 4, order)
    }

    open spec fn from_raw(bytes: Seq<u8>, order: ByteOrder) -> Self {
        signed_value(value_of(bytes, order), 4) as i32
    }

    proof fn lemma_raw_bytes(self, order: ByteOrder) {
        broadcast use vstd::layout::layout_of_primitives;

        lemma_pow256_widths();
        lemma_value_of_bytes(twos_complement(self as int, 4), 4, order);
    }

    proof fn lemma_from_raw(bytes: Seq<u8>, order: ByteOrder) {
        broadcast use vstd::layout::layout_of_primitives;

        lemma_pow256_widths();
        lemma_bytes_of_value(bytes, order);
    }

    fn decode(bytes: &[u8], order: ByteOrder) -> (value: Self) {
        proof {
            broadcast use vstd::layout::layout_of_primitives;

            lemma_pow256_widths();
            lemma_bytes_of_value(bytes@, order);
        }
        let pattern = unsigned_value(bytes, order);
        if pattern < 0x8000_0000 {
            pattern as i32
        } else {
            (pattern - 0x8000_0000) as i32 + i32::MIN
        }
    }
}

impl Pod for i64 {
    open spec fn raw_bytes(self, order: ByteOrder) -> Seq<u8> {
        bytes_of(twos_complement(self as int, 8), 8, order)
    }

    open spec fn from_raw(bytes: Seq<u8>, order: ByteOrder) -> Self {
        signed_value(value_of(bytes, order), 8) as i64
    }

    proof fn lemma_raw_bytes(self, order: ByteOrder) {
        broadcast use vstd::layout::layout_of_primitives;

        lemma_pow256_widths();
        lemma_value_of_bytes(twos_complement(self as int, 8), 8, order);
    }

    proof fn lemma_from_raw(bytes: Seq<u8>, order: ByteOrder) {
        broadcast use vstd::layout::layout_of_primitives;

        lemma_pow256_widths();
        lemma_bytes_of_value(bytes, order);
    }

    fn decode(bytes: &[u8], order: ByteOrder) -> (value: Self) {
        proof {
            broadcast use vstd::layout::layout_of_primitives;

            lemma_pow256_widths();
            lemma_bytes_of_value(bytes@, order);
        }
        let pattern = unsigned_value(bytes, order);
        if pattern < 0x8000_0000_0000_0000 {
            pattern as i64
        } else {
            (pattern - 0x8000_0000_0000_0000) as i64 + i64::MIN
        }
    }
}

impl Pod for i128 {
    open spec fn raw_bytes(self, order: ByteOrder) -> Seq<u8> {
        bytes_of(twos_complement(self as int, 16), 16, order)
    }

    open spec fn from_raw(bytes: Seq<u8>, order: ByteOrder) -> Self {
        signed_value(value_of(bytes, order), 16) as i128
    }

    proof fn lemma_raw_bytes(self, order: ByteOrder) {
        broadcast use vstd::layout::layout_of_primitives;

        lemma_pow256_widths();
        lemma_value_of_bytes(twos_complement(self as int, 16), 16, order);
    }

    proof fn lemma_from_raw(bytes: Seq<u8>, order: ByteOrder) {
        broadcast use vstd::layout::layout_of_primitives;

        lemma_pow256_widths();
        lemma_bytes_of_value(bytes, order);
    }

    fn decode(bytes: &[u8], order: ByteOrder) -> (value: Self) {
        proof {
            broadcast use vstd::layout::layout_of_primitives;

            lemma_pow256_widths();
            lemma_bytes_of_value(bytes@, order);
        }
        let pattern = unsigned_value(bytes, order);
        if pattern < 0x8000_0000_0000_0000_0000_0000_0000_0000 {
            pattern as i128
        } else {
            (pattern - 0x8000_0000_0000_0000_0000_0000_0000_0000) as i128 + i128::MIN
        }
    }
}

} // verus!
