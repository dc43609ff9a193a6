//! Little-endian encodings of unsigned integers, stated over plain arithmetic.

use vstd::prelude::*;

verus! {

/// The `width` low-order bytes of `value`, least significant first.
pub open spec fn le_bytes(value: nat, width: nat) -> Seq<u8>
    decreases width,
{
    if width == 0 {
        Seq::empty()
    } else {
        seq![(value % 256) as u8].add(le_bytes(value / 256, (width - 1) as nat))
    }
}

/// The number that a little-endian byte sequence stands for.
pub open spec fn le_value(bytes: Seq<u8>) -> nat
    decreases bytes.len(),
{
    if bytes.len() == 0 {
        0
    } else {
        bytes[0] as nat + 256 * le_value(bytes.drop_first())
    }
}

/// 256 to the power `width`.
pub open spec fn radix_pow(width: nat) -> nat
    decreases width,
{
    if width == 0 {
        1
    } else {
        256 * radix_pow((width - 1) as nat)
    }
}

/// The powers of 256 up to the eighth.
pub proof fn lemma_radix_pow_values()
    ensures
        radix_pow(0) == 1,
        radix_pow(1) == 0x100,
        radix_pow(2) == 0x1_0000,
        radix_pow(3) == 0x100_0000,
        radix_pow(4) == 0x1_0000_0000,
        radix_pow(5) == 0x100_0000_0000,
        radix_pow(6) == 0x1_0000_0000_0000,
        radix_pow(7) == 0x100_0000_0000_0000,
        radix_pow(8) == 0x1_0000_0000_0000_0000,
{
    reveal_with_fuel(radix_pow, 10);
}

/// An encoding of `width` bytes has `width` bytes.
pub proof fn lemma_le_bytes_len(value: nat, width: nat)
    ensures
        le_bytes(value, width).len() == width,
    decreases width,
{
    if width > 0 {
        lemma_le_bytes_len(value / 256, (width - 1) as nat);
    }
}

/// Encoding depends only on the value modulo 256^width.
pub proof fn lemma_le_bytes_mod(value: nat, width: nat)
    ensures
        le_bytes(value % radix_pow(width), width) == le_bytes(value, width),
    decreases width,
{
    if width > 0 {
        let p = radix_pow((width - 1) as nat);
        lemma_radix_pow_positive((width - 1) as nat);
        let m = value % (256 * p);
        vstd::arithmetic::div_mod::lemma_mod_breakdown(value as int, 256, p as int);
        assert(m == 256 * ((value / 256) % p) + value % 256);
        assert(m % 256 == value % 256 && m / 256 == (value / 256) % p);
        lemma_le_bytes_mod(value / 256, (width - 1) as nat);
    }
}

/// A power of 256 is positive.
pub proof fn lemma_radix_pow_positive(width: nat)
    ensures
        radix_pow(width) > 0,
    decreases width,
{
    if width > 0 {
        lemma_radix_pow_positive((width - 1) as nat);
    }
}

/// A shorter encoding is a prefix of a longer one.
pub proof fn lemma_le_bytes_prefix(value: nat, short: nat, long: nat)
    requires
        short <= long,
    ensures
        le_bytes(value, long).subrange(0, short as int) == le_bytes(value, short),
    decreases short,
{
    lemma_le_bytes_len(value, long);
    if short == 0 {
        assert(le_bytes(value, long).subrange(0, 0) =~= Seq::<u8>::empty());
    } else {
        lemma_le_bytes_prefix(value / 256, (short - 1) as nat, (long - 1) as nat);
        lemma_le_bytes_len(value / 256, (long - 1) as nat);
        let tail_long = le_bytes(value / 256, (long - 1) as nat);
        let tail_short = le_bytes(value / 256, (short - 1) as nat);
        assert(tail_long.subrange(0, short - 1) == tail_short);
        assert(le_bytes(value, long).subrange(0, short as int) =~= seq![(value % 256) as u8].add(
            tail_long.subrange(0, short - 1),
        ));
    }
}

/// A value below 256^short is padded with zero bytes when written wider.
pub proof fn lemma_le_bytes_zero_padded(value: nat, short: nat, long: nat)
    requires
        short <= long,
        value < radix_pow(short),
    ensures
        le_bytes(value, long) == le_bytes(value, short).add(Seq::new((long - short) as nat, |i: int| 0u8)),
    decreases long,
{
    let zeros = Seq::new((long - short) as nat, |i: int| 0u8);
    if long == 0 {
        assert(le_bytes(value, long) =~= le_bytes(value, short).add(zeros));
    } else if short == 0 {
        assert(value == 0);
        lemma_le_bytes_zero_padded(0, 0, (long - 1) as nat);
        lemma_le_bytes_len(0, long);
        assert(le_bytes(0, long) =~= le_bytes(0, 0).add(zeros));
    } else {
        let p = radix_pow((short - 1) as nat);
        assert(value / 256 < p) by (nonlinear_arith)
            requires
                value < 256 * p,
        ;
        lemma_le_bytes_zero_padded(value / 256, (short - 1) as nat, (long - 1) as nat);
        lemma_le_bytes_len(value / 256, (short - 1) as nat);
        assert(le_bytes(value, long) =~= le_bytes(value, short).add(zeros));
    }
}

/// A number of `n` bytes is below 256 to the power `n`.
pub proof fn lemma_le_value_bound(bytes: Seq<u8>)
    ensures
        le_value(bytes) < radix_pow(bytes.len()),
    decreases bytes.len(),
{
    if bytes.len() > 0 {
        lemma_le_value_bound(bytes.drop_first());
        let p = radix_pow((bytes.len() - 1) as nat);
        let rest = le_value(bytes.drop_first());
        assert(bytes[0] as nat + 256 * rest < 256 * p) by (nonlinear_arith)
            requires
                rest < p,
                (bytes[0] as nat) < 256,
        ;
    }
}

/// Decoding undoes encoding, up to the width.
pub proof fn lemma_le_value_of_bytes(value: nat, width: nat)
    ensures
        le_value(le_bytes(value, width)) == value % radix_pow(width),
    decreases width,
{
    if width > 0 {
        let tail = le_bytes(value / 256, (width - 1) as nat);
        let whole = le_bytes(value, width);
        lemma_le_value_of_bytes(value / 256, (width - 1) as nat);
        assert(whole.drop_first() =~= tail);
        assert(whole[0] == (value % 256) as u8);
        let p = radix_pow((width - 1) as nat);
        lemma_radix_pow_positive((width - 1) as nat);
        vstd::arithmetic::div_mod::lemma_mod_breakdown(value as int, 256, p as int);
    }
}

/// Encoding undoes decoding.
pub proof fn lemma_le_bytes_of_value(bytes: Seq<u8>)
    ensures
        le_bytes(le_value(bytes), bytes.len()) == bytes,
    decreases bytes.len(),
{
    if bytes.len() == 0 {
        assert(le_bytes(le_value(bytes), 0) =~= bytes);
    } else {
        let rest = le_value(bytes.drop_first());
        lemma_le_bytes_of_value(bytes.drop_first());
        let v = le_value(bytes);
        assert(v % 256 == bytes[0] as nat && v / 256 == rest) by (nonlinear_arith)
            requires
                v == bytes[0] as nat + 256 * rest,
                (bytes[0] as nat) < 256,
        ;
        assert(le_bytes(v, bytes.len()) =~= bytes);
    }
}

/// Writes the `width` low-order bytes of `value`, least significant first.
pub fn encode_le(value: u64, width: usize) -> (out: Vec<u8>)
    ensures
        out@ == le_bytes(value as nat, width as nat),
{
    let mut out: Vec<u8> = Vec::new();
    let mut rest: u64 = value;
    let mut done: usize = 0;
    while done < width
        invariant
            done <= width,
            out@.add(le_bytes(rest as nat, (width - done) as nat)) == le_bytes(
                value as nat,
                width as nat,
            ),
        decreases width - done,
    {
        let ghost before = out@;
        let ghost tail = le_bytes((rest / 256) as nat, (width - done - 1) as nat);
        assert(before.add(seq![(rest % 256) as u8].add(tail)) =~= before.push((rest % 256) as u8).add(
            tail,
        ));
        out.push((rest % 256) as u8);
        rest = rest / 256;
        done = done + 1;
    }
    assert(out@.add(Seq::<u8>::empty()) =~= out@);
    out
}

/// Reads a little-endian number of at most eight bytes.
pub fn decode_le(bytes: &[u8]) -> (value: u64)
    requires
        bytes@.len() <= 8,
    ensures
        value as nat == le_value(bytes@),
{
    let mut value: u64 = 0;
    let mut at: usize = bytes.len();
    proof {
        assert(bytes@.subrange(at as int, bytes@.len() as int) =~= Seq::<u8>::empty());
        lemma_radix_pow_values();
    }
    while at > 0
        invariant
            at <= bytes@.len() <= 8,
            value as nat == le_value(bytes@.subrange(at as int, bytes@.len() as int)),
        decreases at,
    {
        let ghost suffix = bytes@.subrange(at as int, bytes@.len() as int);
        let ghost longer = bytes@.subrange(at - 1, bytes@.len() as int);
        proof {
            assert(longer.drop_first() =~= suffix);
            lemma_le_value_bound(suffix);
            lemma_le_value_bound(longer);
            lemma_radix_pow_bound(longer.len());
        }
        at = at - 1;
        value = value * 256 + bytes[at] as u64;
    }
    assert(bytes@.subrange(0, bytes@.len() as int) =~= bytes@);
    value
}

/// A power of 256 with an exponent of at most eight is at most 2 to the power 64.
pub proof fn lemma_radix_pow_bound(width: nat)
    requires
        width <= 8,
    ensures
        radix_pow(width) <= 0x1_0000_0000_0000_0000,
{
    lemma_radix_pow_values();
    reveal_with_fuel(radix_pow, 10);
}

} // verus!
