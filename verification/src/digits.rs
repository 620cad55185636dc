//! Numbers as bytes: base-256 digits, in either byte order.
//!
//! A fixed-width integer lies in memory as the digits of its (two's complement)
//! value in base 256. Which end comes first is the machine's choice, so everything
//! here takes the byte order as an argument.
use vstd::prelude::*;

verus! {

/// Which end of a number comes first in memory.
#[derive(Clone, Copy, Debug, PartialEq, Eq, Structural)]
pub enum ByteOrder {
    /// Least significant byte first.
    Little,
    /// Most significant byte first.
    Big,
}

/// 256 to the power `n`: how many values `n` bytes can tell apart.
pub open spec fn pow256(n: nat) -> nat
    decreases n,
{
    if n == 0 {
        1
    } else {
        256 * pow256((n - 1) as nat)
    }
}

/// The number that `digits` writes in base 256, least significant digit first.
pub open spec fn le_value(digits: Seq<u8>) -> nat
    decreases digits.len(),
{
    if digits.len() == 0 {
        0
    } else {
        digits[0] as nat + 256 * le_value(digits.drop_first())
    }
}

/// The `width` lowest base-256 digits of `value`, least significant first.
pub open spec fn le_digits(value: nat, width: nat) -> Seq<u8>
    decreases width,
{
    if width == 0 {
        Seq::empty()
    } else {
        seq![(value % 256) as u8] + le_digits(value / 256, (width - 1) as nat)
    }
}

/// The bytes of `bytes` from the least significant to the most significant.
pub open spec fn ordered(bytes: Seq<u8>, order: ByteOrder) -> Seq<u8> {
    match order {
        ByteOrder::Little => bytes,
        ByteOrder::Big => bytes.reverse(),
    }
}

/// The number that `bytes` holds when read in the byte order `order`.
pub open spec fn value_of(bytes: Seq<u8>, order: ByteOrder) -> nat {
    le_value(ordered(bytes, order))
}

/// The `width` bytes that hold `value` in the byte order `order`.
pub open spec fn bytes_of(value: nat, width: nat, order: ByteOrder) -> Seq<u8> {
    ordered(le_digits(value, width), order)
}

/// The powers of 256 at the widths of the machine integers.
pub proof fn lemma_pow256_widths()
    ensures
        pow256(1) == 0x100,
        pow256(2) == 0x1_0000,
        pow256(4) == 0x1_0000_0000,
        pow256(8) == 0x1_0000_0000_0000_0000,
        pow256(16) == 0x1_0000_0000_0000_0000_0000_0000_0000_0000,
{
    reveal_with_fuel(pow256, 17);
}

/// A larger exponent gives a power at least as large.
pub proof fn lemma_pow256_monotonic(low: nat, high: nat)
    requires
        low <= high,
    ensures
        0 < pow256(low) <= pow256(high),
    decreases high,
{
    if high == 0 {
    } else if low == high {
        lemma_pow256_monotonic((low - 1) as nat, (high - 1) as nat);
    } else {
        lemma_pow256_monotonic(low, (high - 1) as nat);
    }
}

/// `le_digits` gives as many digits as it was asked for.
pub proof fn lemma_le_digits_len(value: nat, width: nat)
    ensures
        le_digits(value, width).len() == width,
    decreases width,
{
    if width > 0 {
        lemma_le_digits_len(value / 256, (width - 1) as nat);
    }
}

/// `n` digits write a number below `256^n`.
pub proof fn lemma_le_value_bound(digits: Seq<u8>)
    ensures
        le_value(digits) < pow256(digits.len()),
    decreases digits.len(),
{
    if digits.len() > 0 {
        lemma_le_value_bound(digits.drop_first());
    }
}

/// Reading back the digits of a number that fits gives the number.
pub proof fn lemma_le_value_of_digits(value: nat, width: nat)
    requires
        value < pow256(width),
    ensures
        le_value(le_digits(value, width)) == value,
    decreases width,
{
    if width > 0 {
        let rest = le_digits(value / 256, (width - 1) as nat);
        lemma_le_value_of_digits(value / 256, (width - 1) as nat);
        assert(le_digits(value, width).drop_first() =~= rest);
    }
}

/// Writing the number that some digits hold, at their width, gives the digits.
pub proof fn lemma_le_digits_of_value(digits: Seq<u8>)
    ensures
        le_digits(le_value(digits), digits.len()) == digits,
    decreases digits.len(),
{
    if digits.len() > 0 {
        let rest = digits.drop_first();
        lemma_le_digits_of_value(rest);
        assert(le_digits(le_value(digits), digits.len()) =~= digits);
    }
}

/// Putting bytes in order twice gives them back, and keeps their number.
pub proof fn lemma_ordered_twice(bytes: Seq<u8>, order: ByteOrder)
    ensures
        ordered(ordered(bytes, order), order) == bytes,
        ordered(bytes, order).len() == bytes.len(),
{
    assert(bytes.reverse().reverse() =~= bytes);
}

/// `bytes_of` and `value_of` undo each other: a number that fits in `width` bytes is
/// what its bytes hold, and they are `width` many.
pub proof fn lemma_value_of_bytes(value: nat, width: nat, order: ByteOrder)
    requires
        value < pow256(width),
    ensures
        bytes_of(value, width, order).len() == width,
        value_of(bytes_of(value, width, order), order) == value,
{
    lemma_le_digits_len(value, width);
    lemma_le_value_of_digits(value, width);
    lemma_ordered_twice(le_digits(value, width), order);
}

/// `bytes_of` and `value_of` undo each other: bytes hold a number below `256` to
/// their count, and writing it at their count gives the bytes.
pub proof fn lemma_bytes_of_value(bytes: Seq<u8>, order: ByteOrder)
    ensures
        value_of(bytes, order) < pow256(bytes.len()),
        bytes_of(value_of(bytes, order), bytes.len(), order) == bytes,
{
    lemma_ordered_twice(bytes, order);
    lemma_le_value_bound(ordered(bytes, order));
    lemma_le_digits_of_value(ordered(bytes, order));
}

/// Computes the number that at most 16 bytes hold in the byte order `order`.
pub fn unsigned_value(bytes: &[u8], order: ByteOrder) -> (value: u128)
    requires
        bytes@.len() <= 16,
    ensures
        value as nat == value_of(bytes@, order),
{
    let n = bytes.len();
    let ghost digits = ordered(bytes@, order);
    let mut value: u128 = 0;
    let mut taken: usize = 0;
    proof {
        lemma_ordered_twice(bytes@, order);
    }
    while taken < n
        invariant
            n == bytes@.len(),
            n <= 16,
            taken <= n,
            digits == ordered(bytes@, order),
            digits.len() == n,
            value as nat == le_value(digits.subrange(n - taken, n as int)),
        decreases n - taken,
    {
        let at = match order {
            ByteOrder::Little => n - 1 - taken,
            ByteOrder::Big => taken,
        };
        let digit = bytes[at];
        proof {
            let before = digits.subrange(n - taken, n as int);
            let after = digits.subrange(n - taken - 1, n as int);
            assert(after.drop_first() =~= before);
            lemma_le_value_bound(after);
            lemma_pow256_monotonic(after.len(), 16);
            lemma_pow256_widths();
        }
        value = value * 256 + digit as u128;
        taken = taken + 1;
    }
    proof {
        assert(digits.subrange(0, n as int) =~= digits);
    }
    value
}

} // verus!
