//! Canonical text pieces of the retained evidence records: decimal and fixed
//! width hexadecimal numbers, compact JSON arrays and booleans.
use vstd::prelude::*;

verus! {

/// The lowercase hexadecimal digit of `d` (0..16).
pub open spec fn digit_char(d: int) -> char {
    if d < 10 {
        (48 + d) as char
    } else {
        (87 + d) as char
    }
}

/// Decimal representation of `n` without leading zeros.
pub open spec fn decimal(n: nat) -> Seq<char>
    decreases n,
{
    if n < 10 {
        seq![digit_char(n as int)]
    } else {
        decimal(n / 10) + seq![digit_char((n % 10) as int)]
    }
}

/// The 16 lowercase hexadecimal digits of `v`, most significant first.
pub open spec fn hex16(v: u64) -> Seq<char> {
    Seq::new(16, |i: int| digit_char(((v as nat / pow16(15 - i)) % 16) as int))
}

pub open spec fn pow16(e: int) -> nat
    decreases e,
{
    if e <= 0 {
        1
    } else {
        16 * pow16(e - 1)
    }
}

/// `values` in decimal, separated by commas, over the first `n` values.
pub open spec fn decimal_list(values: Seq<nat>, n: int) -> Seq<char>
    decreases n,
{
    if n <= 0 {
        Seq::empty()
    } else if n == 1 {
        decimal(values[0])
    } else {
        decimal_list(values, n - 1) + seq![','] + decimal(values[n - 1])
    }
}

/// A compact JSON array of non-negative integers.
pub open spec fn json_array(values: Seq<nat>) -> Seq<char> {
    seq!['['] + decimal_list(values, values.len() as int) + seq![']']
}

pub open spec fn u32s_as_nats(values: Seq<u32>) -> Seq<nat> {
    values.map_values(|v: u32| v as nat)
}

pub open spec fn usizes_as_nats(values: Seq<usize>) -> Seq<nat> {
    values.map_values(|v: usize| v as nat)
}

pub open spec fn bool_text(b: bool) -> Seq<char> {
    if b {
        seq!['t', 'r', 'u', 'e']
    } else {
        seq!['f', 'a', 'l', 's', 'e']
    }
}

/// Append `text`.
pub fn push_text(out: &mut String, text: &str)
    ensures
        final(out)@ == old(out)@ + text@,
{
    out.append(text);
}

/// The lowercase hexadecimal digit `d` (0..16) as text.
pub fn digit_text(d: u64) -> (text: &'static str)
    requires
        d < 16,
    ensures
        text@ == seq![digit_char(d as int)],
{
    proof {
        reveal_strlit("0");
        reveal_strlit("1");
        reveal_strlit("2");
        reveal_strlit("3");
        reveal_strlit("4");
        reveal_strlit("5");
        reveal_strlit("6");
        reveal_strlit("7");
        reveal_strlit("8");
        reveal_strlit("9");
        reveal_strlit("a");
        reveal_strlit("b");
        reveal_strlit("c");
        reveal_strlit("d");
        reveal_strlit("e");
        reveal_strlit("f");
    }
    match d {
        0 => "0",
        1 => "1",
        2 => "2",
        3 => "3",
        4 => "4",
        5 => "5",
        6 => "6",
        7 => "7",
        8 => "8",
        9 => "9",
        10 => "a",
        11 => "b",
        12 => "c",
        13 => "d",
        14 => "e",
        _ => "f",
    }
}

/// Append `value` in decimal.
pub fn push_decimal(out: &mut String, value: u64)
    ensures
        final(out)@ == old(out)@ + decimal(value as nat),
    decreases value,
{
    if value >= 10 {
        push_decimal(out, value / 10);
    }
    let digit = digit_text(value % 10);
    out.append(digit);
    proof {
        assert(final(out)@ =~= old(out)@ + decimal(value as nat));
    }
}

/// Append the 16 lowercase hexadecimal digits of `value`.
pub fn push_hex16(out: &mut String, value: u64)
    ensures
        final(out)@ == old(out)@ + hex16(value),
{
    let ghost start = out@;
    let mut i: u64 = 0;
    while i < 16
        invariant
            i <= 16,
            out@ == start + hex16(value).subrange(0, i as int),
        decreases 16 - i,
    {
        let shift = 60 - 4 * i;
        let nibble = (value >> shift) & 0xf;
        proof {
            lemma_nibble(value, i);
        }
        out.append(digit_text(nibble));
        i += 1;
        proof {
            assert(out@ =~= start + hex16(value).subrange(0, i as int));
        }
    }
    proof {
        assert(hex16(value).subrange(0, 16) =~= hex16(value));
    }
}

proof fn lemma_pow16_shift(e: u64)
    requires
        e < 16,
    ensures
        pow16(e as int) == pow2_shift(4 * e as int),
    decreases e,
{
    if e > 0 {
        lemma_pow16_shift((e - 1) as u64);
        let b = 4 * e as int;
        assert(pow2_shift(b) == 2 * pow2_shift(b - 1));
        assert(pow2_shift(b - 1) == 2 * pow2_shift(b - 2));
        assert(pow2_shift(b - 2) == 2 * pow2_shift(b - 3));
        assert(pow2_shift(b - 3) == 2 * pow2_shift(b - 4));
    }
}

pub open spec fn pow2_shift(bits: int) -> nat
    decreases bits,
{
    if bits <= 0 {
        1
    } else {
        2 * pow2_shift(bits - 1)
    }
}

proof fn lemma_nibble(value: u64, i: u64)
    requires
        i < 16,
    ensures
        (value >> (60 - 4 * i)) & 0xf == ((value as nat / pow16(15 - i as int)) % 16),
{
    let shift = (60 - 4 * i) as u64;
    assert((value >> shift) & 0xf == (value >> shift) % 16) by (bit_vector);
    lemma_pow16_shift((15 - i) as u64);
    lemma_shr_div(value, shift);
}

proof fn lemma_shr_div(value: u64, shift: u64)
    requires
        shift <= 60,
    ensures
        value >> shift == value as nat / pow2_shift(shift as int),
    decreases shift,
{
    if shift > 0 {
        let s = (shift - 1) as u64;
        lemma_shr_div(value, s);
        let smaller = value >> s;
        assert(value >> shift == smaller / 2) by (bit_vector)
            requires
                shift == s + 1,
                s < 60,
                smaller == value >> s,
        ;
        let p = pow2_shift(s as int) as int;
        assert(p > 0) by {
            lemma_pow2_shift_positive(s as int);
        }
        vstd::arithmetic::div_mod::lemma_div_denominator(value as int, p, 2);
        assert(pow2_shift(shift as int) == p * 2);
        assert(smaller as int == value as int / p);
        assert((value >> shift) as int == (value as int / p) / 2);
        assert((value as int / p) / 2 == value as int / (p * 2));
        assert(value >> shift == value as nat / pow2_shift(shift as int));
    } else {
        assert(value >> shift == value) by (bit_vector)
            requires
                shift == 0,
        ;
        assert(pow2_shift(0) == 1);
        assert(value as nat / 1 == value);
    }
}

proof fn lemma_pow2_shift_positive(bits: int)
    ensures
        pow2_shift(bits) > 0,
    decreases bits,
{
    if bits > 0 {
        lemma_pow2_shift_positive(bits - 1);
    }
}

/// Append `[v0,v1,..]` in decimal.
pub fn push_u32_array(out: &mut String, values: &[u32])
    ensures
        final(out)@ == old(out)@ + json_array(u32s_as_nats(values@)),
{
    let ghost start = out@;
    let ghost nats = u32s_as_nats(values@);
    push_text(out, "[");
    proof {
        reveal_strlit("[");
        reveal_strlit(",");
        reveal_strlit("]");
    }
    let mut i: usize = 0;
    while i < values.len()
        invariant
            i <= values@.len(),
            nats == u32s_as_nats(values@),
            out@ == start + seq!['['] + decimal_list(nats, i as int),
        decreases values@.len() - i,
    {
        proof {
            reveal_strlit(",");
            assert(nats[i as int] == values@[i as int] as nat);
        }
        if i != 0 {
            push_text(out, ",");
        }
        push_decimal(out, values[i] as u64);
        i += 1;
        proof {
            assert(out@ =~= start + seq!['['] + decimal_list(nats, i as int));
        }
    }
    push_text(out, "]");
    proof {
        assert(out@ =~= start + json_array(nats));
    }
}

/// Append `[v0,v1,..]` in decimal.
pub fn push_usize_array(out: &mut String, values: &[usize])
    ensures
        final(out)@ == old(out)@ + json_array(usizes_as_nats(values@)),
{
    let ghost start = out@;
    let ghost nats = usizes_as_nats(values@);
    push_text(out, "[");
    proof {
        reveal_strlit("[");
        reveal_strlit(",");
        reveal_strlit("]");
    }
    let mut i: usize = 0;
    while i < values.len()
        invariant
            i <= values@.len(),
            nats == usizes_as_nats(values@),
            out@ == start + seq!['['] + decimal_list(nats, i as int),
        decreases values@.len() - i,
    {
        proof {
            reveal_strlit(",");
            assert(nats[i as int] == values@[i as int] as nat);
        }
        if i != 0 {
            push_text(out, ",");
        }
        push_decimal(out, values[i] as u64);
        i += 1;
        proof {
            assert(out@ =~= start + seq!['['] + decimal_list(nats, i as int));
        }
    }
    push_text(out, "]");
    proof {
        assert(out@ =~= start + json_array(nats));
    }
}

/// Append `true` or `false`.
pub fn push_bool(out: &mut String, value: bool)
    ensures
        final(out)@ == old(out)@ + bool_text(value),
{
    proof {
        reveal_strlit("true");
        reveal_strlit("false");
    }
    if value {
        push_text(out, "true");
    } else {
        push_text(out, "false");
    }
}

} // verus!
