//! Little-endian integers on the wire.
//!
//! Every integer of the persisted record and of the instruction arguments
//! is written least significant byte first, in a fixed number of bytes.

use vstd::prelude::*;

verus! {

/// 256 to the power `n`.
pub open spec fn pow256(n: nat) -> nat
    decreases n,
{
    if n == 0 {
        1
    } else {
        256 * pow256((n - 1) as nat)
    }
}

/// The `width` low-order bytes of `value`, least significant first.
pub open spec fn le_bytes(value: nat, width: nat) -> Seq<u8>
    decreases width,
{
    if width == 0 {
        Seq::empty()
    } else {
        seq![(value % 256) as u8] + le_bytes(value / 256, (width - 1) as nat)
    }
}

/// The number that `bytes` spell, least significant byte first.
pub open spec fn le_value(bytes: Seq<u8>) -> nat
    decreases bytes.len(),
{
    if bytes.len() == 0 {
        0
    } else {
        bytes[0] as nat + 256 * le_value(bytes.skip(1))
    }
}

/// An encoding is as long as the width asked for.
pub proof fn lemma_le_bytes_len(value: nat, width: nat)
    ensures
        le_bytes(value, width).len() == width,
    decreases width,
{
    if width > 0 {
        lemma_le_bytes_len(value / 256, (width - 1) as nat);
    }
}

/// The value of `n` bytes is below 256 to the `n`.
pub proof fn lemma_le_value_bound(bytes: Seq<u8>)
    ensures
        le_value(bytes) < pow256(bytes.len()),
    decreases bytes.len(),
{
    if bytes.len() > 0 {
        lemma_le_value_bound(bytes.skip(1));
    }
}

/// Decoding an encoding gives the value back, when the value fits the width.
pub proof fn lemma_le_value_of_bytes(value: nat, width: nat)
    requires
        value < pow256(width),
    ensures
        le_value(le_bytes(value, width)) == value,
    decreases width,
{
    if width > 0 {
        let rest = le_bytes(value / 256, (width - 1) as nat);
        let all = le_bytes(value, width);
        lemma_le_bytes_len(value / 256, (width - 1) as nat);
        lemma_le_value_of_bytes(value / 256, (width - 1) as nat);
        assert(all.skip(1) =~= rest);
    }
}

/// Encoding a decoded value in the same width gives the bytes back.
pub proof fn lemma_le_bytes_of_value(bytes: Seq<u8>)
    ensures
        le_bytes(le_value(bytes), bytes.len()) == bytes,
    decreases bytes.len(),
{
    if bytes.len() > 0 {
        let rest = bytes.skip(1);
        lemma_le_bytes_of_value(rest);
    }
}

/// The widths in use, as powers of 256.
pub proof fn lemma_pow256_values()
    ensures
        pow256(1) == 0x100,
        pow256(4) == 0x1_0000_0000,
        pow256(8) == 0x1_0000_0000_0000_0000,
        pow256(16) == 0x1_0000_0000_0000_0000_0000_0000_0000_0000,
{
    reveal_with_fuel(pow256, 17);
}

/// One more byte of an encoding is the next base-256 digit of the value.
proof fn lemma_le_bytes_push(value: nat, width: nat)
    ensures
        le_bytes(value, width + 1) == le_bytes(value, width).push(
            ((value / pow256(width)) % 256) as u8,
        ),
    decreases width,
{
    if width == 0 {
        assert(le_bytes(value / 256, 0) =~= Seq::<u8>::empty());
        assert(value / 1 == value);
    } else {
        lemma_le_bytes_push(value / 256, (width - 1) as nat);
        let p = pow256((width - 1) as nat);
        assert(p > 0) by {
            lemma_pow256_positive((width - 1) as nat);
        }
        assert((value / 256) / p == value / (256 * p)) by (nonlinear_arith)
            requires
                p > 0,
        ;
        assert(le_bytes(value, width + 1) =~= le_bytes(value, width).push(
            ((value / pow256(width)) % 256) as u8,
        ));
    }
}

/// A power of 256 is positive.
proof fn lemma_pow256_positive(n: nat)
    ensures
        pow256(n) > 0,
    decreases n,
{
    if n > 0 {
        lemma_pow256_positive((n - 1) as nat);
    }
}

/// Appends the `width` low-order bytes of `value` to `out`, least
/// significant first.
pub fn write_le(out: &mut Vec<u8>, value: u128, width: usize)
    ensures
        final(out)@ == old(out)@ + le_bytes(value as nat, width as nat),
{
    let mut rest: u128 = value;
    let mut done: usize = 0;
    assert(pow256(0) == 1);
    while done < width
        invariant
            done <= width,
            rest == (value as nat) / pow256(done as nat),
            out@ == old(out)@ + le_bytes(value as nat, done as nat),
        decreases width - done,
    {
        proof {
            lemma_le_bytes_push(value as nat, done as nat);
            lemma_pow256_positive(done as nat);
            let p = pow256(done as nat);
            assert(((value as nat) / p) / 256 == (value as nat) / (256 * p)) by (nonlinear_arith)
                requires
                    p > 0,
            ;
        }
        let digit: u8 = (rest % 256) as u8;
        out.push(digit);
        rest = rest / 256;
        done = done + 1;
    }
}

/// Reads the number that the `width` bytes of `bytes` from `start` spell.
pub fn read_le(bytes: &[u8], start: usize, width: usize) -> (value: u128)
    requires
        width <= 16,
        start + width <= bytes@.len(),
    ensures
        value == le_value(bytes@.subrange(start as int, start + width)),
{
    let mut value: u128 = 0;
    let mut left: usize = width;
    let total: usize = bytes.len();
    let ghost end: int = start + width;
    while left > 0
        invariant
            left <= width <= 16,
            end == start + width,
            end <= bytes@.len(),
            total == bytes@.len(),
            value == le_value(bytes@.subrange(start + left, end)),
        decreases left,
    {
        left = left - 1;
        let byte: u8 = bytes[start + left];
        proof {
            let tail = bytes@.subrange(start + left + 1, end);
            let more = bytes@.subrange(start + left, end);
            assert(more.skip(1) =~= tail);
            lemma_le_value_bound(tail);
            lemma_pow256_monotonic(tail.len(), 15);
            lemma_pow256_values_15();
        }
        value = value * 256 + byte as u128;
    }
    value
}

/// A larger exponent gives a power of 256 at least as large.
proof fn lemma_pow256_monotonic(small: nat, large: nat)
    requires
        small <= large,
    ensures
        pow256(small) <= pow256(large),
    decreases large,
{
    if small < large {
        lemma_pow256_monotonic(small, (large - 1) as nat);
        lemma_pow256_positive((large - 1) as nat);
    }
}

/// Fifteen bytes leave room for one more in 128 bits.
proof fn lemma_pow256_values_15()
    ensures
        pow256(15) == 0x1_0000_0000_0000_0000_0000_0000_0000_00,
{
    reveal_with_fuel(pow256, 16);
}

} // verus!
