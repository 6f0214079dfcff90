//! Integers on the wire: little-endian, two's complement for signed types.

use vstd::prelude::*;

verus! {

/// The number of values that a field of the given width in bytes can hold.
pub open spec fn radix(width: nat) -> nat
    decreases width,
{
    if width == 0 {
        1
    } else {
        256 * radix((width - 1) as nat)
    }
}

/// The low `width` bytes of a number, least significant first.
pub open spec fn le_bytes(value: nat, width: nat) -> Seq<u8>
    decreases width,
{
    if width == 0 {
        Seq::empty()
    } else {
        seq![(value % 256) as u8] + le_bytes(value / 256, (width - 1) as nat)
    }
}

/// The number that bytes spell, least significant first.
pub open spec fn le_value(bytes: Seq<u8>) -> nat
    decreases bytes.len(),
{
    if bytes.len() == 0 {
        0
    } else {
        bytes[0] as nat + 256 * le_value(bytes.skip(1))
    }
}

/// The unsigned number that stands for a signed one in two's complement.
pub open spec fn twos_complement(value: int, width: nat) -> nat {
    if value < 0 {
        (value + radix(width)) as nat
    } else {
        value as nat
    }
}

/// The signed number that an unsigned one stands for in two's complement.
pub open spec fn signed_value(raw: nat, width: nat) -> int {
    if 2 * raw >= radix(width) {
        raw - radix(width)
    } else {
        raw as int
    }
}

/// The radix of the four widths in use.
pub proof fn lemma_radix_values()
    ensures
        radix(0) == 1,
        radix(1) == 0x100,
        radix(2) == 0x1_0000,
        radix(4) == 0x1_0000_0000,
        radix(8) == 0x1_0000_0000_0000_0000,
{
    reveal_with_fuel(radix, 9);
}

/// A wider field holds at least as many values.
pub proof fn lemma_radix_grows(narrow: nat, wide: nat)
    requires
        narrow <= wide,
    ensures
        0 < radix(narrow) <= radix(wide),
    decreases wide,
{
    if wide == 0 {
    } else if narrow < wide {
        lemma_radix_grows(narrow, (wide - 1) as nat);
    } else {
        lemma_radix_grows((narrow - 1) as nat, (wide - 1) as nat);
    }
}

/// A number takes exactly as many bytes as the width says.
pub proof fn lemma_le_bytes_len(value: nat, width: nat)
    ensures
        le_bytes(value, width).len() == width,
    decreases width,
{
    if width > 0 {
        lemma_le_bytes_len(value / 256, (width - 1) as nat);
    }
}

/// What bytes spell fits the width of the bytes.
pub proof fn lemma_le_value_bound(bytes: Seq<u8>)
    ensures
        le_value(bytes) < radix(bytes.len()),
    decreases bytes.len(),
{
    if bytes.len() > 0 {
        lemma_le_value_bound(bytes.skip(1));
    }
}

/// Reading back the bytes of a number that fits the width gives the number.
pub proof fn lemma_le_round_trip(value: nat, width: nat)
    requires
        value < radix(width),
    ensures
        le_value(le_bytes(value, width)) == value,
    decreases width,
{
    if width > 0 {
        let rest = le_bytes(value / 256, (width - 1) as nat);
        lemma_le_round_trip(value / 256, (width - 1) as nat);
        lemma_le_bytes_len(value / 256, (width - 1) as nat);
        assert(le_bytes(value, width).skip(1) =~= rest);
    }
}

/// Two's complement and its reading are inverse on the signed range.
pub proof fn lemma_signed_round_trip(value: int, width: nat)
    requires
        -(radix(width) as int) <= 2 * value < radix(width),
    ensures
        twos_complement(value, width) < radix(width),
        signed_value(twos_complement(value, width), width) == value,
{
}

/// Appends the low `width` bytes of a number, least significant first.
pub(crate) fn push_le(out: &mut Vec<u8>, value: u64, width: usize)
    requires
        width <= 8,
    ensures
        final(out)@ == old(out)@ + le_bytes(value as nat, width as nat),
{
    let mut rest = value;
    let mut i: usize = 0;
    assert(out@ + le_bytes(rest as nat, (width - i) as nat) =~= old(out)@ + le_bytes(
        value as nat,
        width as nat,
    ));
    while i < width
        invariant
            i <= width,
            out@ + le_bytes(rest as nat, (width - i) as nat) == old(out)@ + le_bytes(
                value as nat,
                width as nat,
            ),
        decreases width - i,
    {
        let ghost before = out@;
        let byte = (rest % 256) as u8;
        out.push(byte);
        assert(out@ + le_bytes(rest as nat / 256, (width - i - 1) as nat) =~= before + le_bytes(
            rest as nat,
            (width - i) as nat,
        ));
        rest = rest / 256;
        i += 1;
    }
    assert(le_bytes(rest as nat, 0) =~= Seq::<u8>::empty());
    assert(out@ + Seq::<u8>::empty() =~= out@);
}

/// Reads the number that the first `width` bytes spell, least significant
/// first.
pub(crate) fn read_le(bytes: &[u8], width: usize) -> (r: u64)
    requires
        width <= 8,
        width <= bytes.len(),
    ensures
        r == le_value(bytes@.take(width as int)),
{
    let mut value: u64 = 0;
    let mut i: usize = width;
    assert(bytes@.subrange(width as int, width as int) =~= Seq::<u8>::empty());
    while i > 0
        invariant
            i <= width <= 8,
            width <= bytes.len(),
            value == le_value(bytes@.subrange(i as int, width as int)),
        decreases i,
    {
        proof {
            let tail = bytes@.subrange(i as int, width as int);
            let longer = bytes@.subrange(i - 1, width as int);
            lemma_le_value_bound(tail);
            lemma_radix_grows(tail.len(), 7);
            lemma_radix_values();
            reveal_with_fuel(radix, 9);
            assert(longer.skip(1) =~= tail);
        }
        i -= 1;
        value = value * 256 + bytes[i] as u64;
    }
    assert(bytes@.subrange(0, width as int) =~= bytes@.take(width as int));
    value
}

/// The radix of a width below eight, as a number.
fn modulus(width: usize) -> (r: u64)
    requires
        width < 8,
    ensures
        r == radix(width as nat),
{
    proof {
        reveal_with_fuel(radix, 9);
    }
    let mut r: u64 = 1;
    let mut i: usize = 0;
    while i < width
        invariant
            i <= width < 8,
            r == radix(i as nat),
        decreases width - i,
    {
        proof {
            lemma_radix_grows(i as nat, 6);
            reveal_with_fuel(radix, 9);
        }
        r = r * 256;
        i += 1;
    }
    r
}

/// The two's complement of a signed number that fits the width.
pub(crate) fn to_raw(value: i64, width: usize) -> (r: u64)
    requires
        1 <= width <= 8,
        -(radix(width as nat) as int) <= 2 * value < radix(width as nat),
    ensures
        r == twos_complement(value as int, width as nat),
{
    proof {
        lemma_radix_values();
    }
    if value >= 0 {
        value as u64
    } else if width == 8 {
        ((value - i64::MIN) as u64) + 0x8000_0000_0000_0000
    } else {
        proof {
            lemma_radix_grows(width as nat, 7);
            reveal_with_fuel(radix, 9);
        }
        let m = modulus(width);
        (value + m as i64) as u64
    }
}

/// The signed number that a two's complement of the width stands for.
pub(crate) fn from_raw(raw: u64, width: usize) -> (r: i64)
    requires
        1 <= width <= 8,
        raw < radix(width as nat),
    ensures
        r == signed_value(raw as nat, width as nat),
{
    proof {
        lemma_radix_values();
    }
    if width == 8 {
        if raw >= 0x8000_0000_0000_0000 {
            ((raw - 0x8000_0000_0000_0000) as i64) + i64::MIN
        } else {
            raw as i64
        }
    } else {
        proof {
            lemma_radix_grows(width as nat, 7);
            reveal_with_fuel(radix, 9);
        }
        let m = modulus(width);
        if raw >= m - raw {
            raw as i64 - m as i64
        } else {
            raw as i64
        }
    }
}

} // verus!
