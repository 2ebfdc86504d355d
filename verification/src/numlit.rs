//! Numeric literals: parsing of `0x`-prefixed hexadecimal, `0b`-prefixed
//! binary and plain decimal literals into `u64`, and formatting of `u64`
//! values back into decimal and hexadecimal text, with round-trip lemmas.

use vstd::prelude::*;
use vstd::arithmetic::div_mod::lemma_fundamental_div_mod;
use vstd::arithmetic::mul::lemma_mul_inequality;

verus! {

/// The value of one digit character; 16 marks a character that is no digit
/// in any supported radix.
pub open spec fn spec_digit_val(c: char) -> nat {
    let u = c as u32;
    if '0' as u32 <= u && u <= '9' as u32 {
        (u - '0' as u32) as nat
    } else if 'a' as u32 <= u && u <= 'f' as u32 {
        (u - 'a' as u32 + 10) as nat
    } else if 'A' as u32 <= u && u <= 'F' as u32 {
        (u - 'A' as u32 + 10) as nat
    } else {
        16
    }
}

pub open spec fn spec_is_digit(c: char, radix: nat) -> bool {
    spec_digit_val(c) < radix
}

pub open spec fn spec_all_digits(s: Seq<char>, radix: nat) -> bool {
    forall|i: int| 0 <= i < s.len() ==> spec_is_digit(#[trigger] s[i], radix)
}

/// The value of a digit string read most-significant first.
pub open spec fn spec_digits_val(s: Seq<char>, radix: nat) -> nat
    decreases s.len(),
{
    if s.len() == 0 {
        0
    } else {
        spec_digits_val(s.drop_last(), radix) * radix + spec_digit_val(s.last())
    }
}

pub open spec fn spec_has_hex_prefix(s: Seq<char>) -> bool {
    s.len() >= 2 && s[0] == '0' && (s[1] == 'x' || s[1] == 'X')
}

pub open spec fn spec_has_bin_prefix(s: Seq<char>) -> bool {
    s.len() >= 2 && s[0] == '0' && (s[1] == 'b' || s[1] == 'B')
}

/// Which radix a literal is written in: `0x`/`0X` marks hexadecimal, `0b`/`0B`
/// binary where binary literals are admitted, and anything else is read as
/// decimal.
pub open spec fn spec_lit_radix(s: Seq<char>, allow_binary: bool) -> nat {
    if spec_has_hex_prefix(s) {
        16
    } else if allow_binary && spec_has_bin_prefix(s) {
        2
    } else {
        10
    }
}

/// The digit part of a literal: what follows a radix prefix, or all of it.
pub open spec fn spec_lit_digits(s: Seq<char>, allow_binary: bool) -> Seq<char> {
    if spec_has_hex_prefix(s) || (allow_binary && spec_has_bin_prefix(s)) {
        s.skip(2)
    } else {
        s
    }
}

/// The mathematical value of a literal, or `None` if it is not one.
pub open spec fn spec_parse_uint(s: Seq<char>, allow_binary: bool) -> Option<nat> {
    let radix = spec_lit_radix(s, allow_binary);
    let digits = spec_lit_digits(s, allow_binary);
    if digits.len() > 0 && spec_all_digits(digits, radix) {
        Some(spec_digits_val(digits, radix))
    } else {
        None
    }
}

/// The literal's value as a `u64`; a well-formed literal whose value does not
/// fit in 64 bits is rejected like a malformed one.
pub open spec fn spec_parse_u64(s: Seq<char>, allow_binary: bool) -> Option<u64> {
    match spec_parse_uint(s, allow_binary) {
        Some(v) => if v <= u64::MAX { Some(v as u64) } else { None },
        None => None,
    }
}

/// A digit string's value only grows as digits are appended.
proof fn lemma_digits_val_take_le(s: Seq<char>, i: int, radix: nat)
    requires
        0 <= i <= s.len(),
        radix >= 2,
    ensures
        spec_digits_val(s.take(i), radix) <= spec_digits_val(s, radix),
    decreases s.len() - i,
{
    if i == s.len() {
        assert(s.take(i) =~= s);
    } else {
        let a = spec_digits_val(s.take(i), radix);
        assert(s.take(i + 1).drop_last() =~= s.take(i));
        assert(s.take(i + 1).last() == s[i]);
        assert(spec_digits_val(s.take(i + 1), radix) == a * radix + spec_digit_val(s[i]));
        assert(a * radix >= a) by (nonlinear_arith)
            requires radix >= 2, a >= 0,
        ;
        lemma_digits_val_take_le(s, i + 1, radix);
    }
}

fn digit_val_exec(c: char) -> (r: u32)
    ensures
        r as nat == spec_digit_val(c),
{
    let u = c as u32;
    if '0' as u32 <= u && u <= '9' as u32 {
        u - '0' as u32
    } else if 'a' as u32 <= u && u <= 'f' as u32 {
        u - 'a' as u32 + 10
    } else if 'A' as u32 <= u && u <= 'F' as u32 {
        u - 'A' as u32 + 10
    } else {
        16
    }
}

/// Parses a numeric literal: `0x`-prefixed hexadecimal, plain decimal, and,
/// where `allow_binary` holds, `0b`-prefixed binary. Returns `None` for a
/// malformed literal and for one whose value does not fit in a `u64`.
pub fn parse_u64_literal(s: &str, allow_binary: bool) -> (r: Option<u64>)
    ensures
        r == spec_parse_u64(s@, allow_binary),
{
    let n = s.unicode_len();
    let has_prefix = n >= 2 && s.get_char(0) == '0';
    let (radix, start): (u32, usize) = if has_prefix && (s.get_char(1) == 'x' || s.get_char(1) == 'X') {
        (16, 2)
    } else if allow_binary && has_prefix && (s.get_char(1) == 'b' || s.get_char(1) == 'B') {
        (2, 2)
    } else {
        (10, 0)
    };
    proof {
        assert(spec_lit_radix(s@, allow_binary) == radix as nat);
        assert(spec_lit_digits(s@, allow_binary) =~= s@.subrange(start as int, n as int));
    }
    if n == start {
        return None;
    }
    let ghost digits = s@.subrange(start as int, n as int);
    let mut acc: u64 = 0;
    let mut i: usize = start;
    while i < n
        invariant
            start <= i <= n,
            n == s@.len(),
            radix == 2 || radix == 10 || radix == 16,
            digits == s@.subrange(start as int, n as int),
            digits.len() > 0,
            spec_lit_radix(s@, allow_binary) == radix as nat,
            spec_lit_digits(s@, allow_binary) == digits,
            spec_all_digits(s@.subrange(start as int, i as int), radix as nat),
            acc as nat == spec_digits_val(s@.subrange(start as int, i as int), radix as nat),
        decreases n - i,
    {
        let c = s.get_char(i);
        let d = digit_val_exec(c);
        if d >= radix {
            proof {
                assert(!spec_is_digit(s@[i as int], radix as nat));
                assert(digits[i - start] == s@[i as int]);
                assert(!spec_all_digits(digits, radix as nat));
                assert(spec_parse_uint(s@, allow_binary) is None);
            }
            return None;
        }
        let dl = d as u64;
        let rl = radix as u64;
        let limit = (u64::MAX - dl) / rl;
        proof {
            let q = ((u64::MAX - dl) as int) / (rl as int);
            let rem = ((u64::MAX - dl) as int) % (rl as int);
            lemma_fundamental_div_mod((u64::MAX - dl) as int, rl as int);
            assert(s@.subrange(start as int, i as int + 1).drop_last() =~= s@.subrange(
                start as int,
                i as int,
            ));
            assert(s@.subrange(start as int, i as int + 1).last() == s@[i as int]);
            if acc > limit {
                assert((acc as int) * (rl as int) >= (q + 1) * (rl as int)) by (nonlinear_arith)
                    requires acc as int >= q + 1, rl as int >= 2,
                ;
                assert((q + 1) * (rl as int) == q * (rl as int) + rl as int);
                assert(acc as nat * (radix as nat) + (d as nat) > u64::MAX);
                lemma_digits_val_take_le(digits, i - start + 1, radix as nat);
                assert(digits.take(i - start + 1) =~= s@.subrange(start as int, i as int + 1));
                assert(spec_digits_val(digits, radix as nat) > u64::MAX);
                if spec_all_digits(digits, radix as nat) {
                    assert(spec_parse_uint(s@, allow_binary) == Some(
                        spec_digits_val(digits, radix as nat),
                    ));
                }
                assert(spec_parse_u64(s@, allow_binary) is None);
            } else {
                lemma_mul_inequality(acc as int, q, rl as int);
                assert(q * (rl as int) <= (u64::MAX - dl) as int);
            }
        }
        if acc > limit {
            return None;
        }
        acc = acc * rl + dl;
        i += 1;
    }
    proof {
        assert(s@.subrange(start as int, n as int) =~= digits);
        assert(spec_parse_uint(s@, allow_binary) == Some(spec_digits_val(digits, radix as nat)));
        assert(spec_parse_u64(s@, allow_binary) == Some(acc));
    }
    Some(acc)
}

/// The decimal digit string of `n`, most significant digit first, without
/// leading zeros.
pub open spec fn spec_to_dec(n: nat) -> Seq<char>
    decreases n,
{
    if n < 10 {
        seq![spec_digit_char(n)]
    } else {
        spec_to_dec(n / 10) + seq![spec_digit_char(n % 10)]
    }
}

/// The lowercase hexadecimal digit string of `n`, without leading zeros.
pub open spec fn spec_to_hex(n: nat) -> Seq<char>
    decreases n,
{
    if n < 16 {
        seq![spec_digit_char(n)]
    } else {
        spec_to_hex(n / 16) + seq![spec_digit_char(n % 16)]
    }
}

/// The character for one digit value below 16, lowercase for 10 to 15.
pub open spec fn spec_digit_char(d: nat) -> char {
    if d == 0 { '0' } else if d == 1 { '1' } else if d == 2 { '2' } else if d == 3 { '3' }
    else if d == 4 { '4' } else if d == 5 { '5' } else if d == 6 { '6' } else if d == 7 { '7' }
    else if d == 8 { '8' } else if d == 9 { '9' } else if d == 10 { 'a' } else if d == 11 { 'b' }
    else if d == 12 { 'c' } else if d == 13 { 'd' } else if d == 14 { 'e' } else { 'f' }
}

proof fn lemma_digit_char_val(d: nat)
    requires
        d < 16,
    ensures
        spec_digit_val(spec_digit_char(d)) == d,
        spec_is_digit(spec_digit_char(d), 16),
{
}

/// Formatting a value in hexadecimal and reading the digits back is the
/// identity.
pub proof fn lemma_hex_roundtrip(n: nat)
    ensures
        spec_to_hex(n).len() > 0,
        spec_all_digits(spec_to_hex(n), 16),
        spec_digits_val(spec_to_hex(n), 16) == n,
    decreases n,
{
    if n < 16 {
        lemma_digit_char_val(n);
        let w = spec_to_hex(n);
        assert(w == seq![spec_digit_char(n)]);
        assert(w.len() == 1);
        assert(w.last() == spec_digit_char(n));
        assert(w.drop_last() =~= Seq::<char>::empty());
        assert(spec_digits_val(Seq::<char>::empty(), 16) == 0);
        assert(spec_digits_val(w, 16) == spec_digits_val(w.drop_last(), 16) * 16
            + spec_digit_val(w.last()));
    } else {
        lemma_hex_roundtrip(n / 16);
        lemma_digit_char_val(n % 16);
        let w = spec_to_hex(n);
        assert(w.drop_last() =~= spec_to_hex(n / 16));
        assert(w.last() == spec_digit_char(n % 16));
        assert forall|i: int| 0 <= i < w.len() implies spec_is_digit(#[trigger] w[i], 16) by {
            if i < w.len() - 1 {
                assert(w[i] == spec_to_hex(n / 16)[i]);
            }
        }
        assert(spec_digits_val(w, 16) == (n / 16) * 16 + (n % 16));
    }
    assert(spec_digits_val(spec_to_hex(n), 16) == n);
}

/// Formatting a value in decimal and reading the digits back is the identity.
pub proof fn lemma_dec_roundtrip(n: nat)
    ensures
        spec_to_dec(n).len() > 0,
        spec_all_digits(spec_to_dec(n), 10),
        spec_digits_val(spec_to_dec(n), 10) == n,
    decreases n,
{
    if n < 10 {
        lemma_digit_char_val(n);
        let w = spec_to_dec(n);
        assert(w == seq![spec_digit_char(n)]);
        assert(w.len() == 1);
        assert(w.last() == spec_digit_char(n));
        assert(w.drop_last() =~= Seq::<char>::empty());
        assert(spec_digits_val(Seq::<char>::empty(), 10) == 0);
        assert(spec_digits_val(w, 10) == spec_digits_val(w.drop_last(), 10) * 10
            + spec_digit_val(w.last()));
    } else {
        lemma_dec_roundtrip(n / 10);
        lemma_digit_char_val((n % 10) as nat);
        let w = spec_to_dec(n);
        assert(w.drop_last() =~= spec_to_dec(n / 10));
        assert(w.last() == spec_digit_char(n % 10));
        assert forall|i: int| 0 <= i < w.len() implies spec_is_digit(#[trigger] w[i], 10) by {
            if i < w.len() - 1 {
                assert(w[i] == spec_to_dec(n / 10)[i]);
            }
        }
        assert(spec_digits_val(w, 10) == (n / 10) * 10 + (n % 10));
    }
    assert(spec_digits_val(spec_to_dec(n), 10) == n);
}

/// A `0x`-prefixed lowercase hexadecimal rendering parses back to its value.
pub proof fn lemma_parse_hex_literal(n: u64, allow_binary: bool)
    ensures
        spec_parse_u64(seq!['0', 'x'] + spec_to_hex(n as nat), allow_binary) == Some(n),
{
    let s = seq!['0', 'x'] + spec_to_hex(n as nat);
    lemma_hex_roundtrip(n as nat);
    assert(s.skip(2) =~= spec_to_hex(n as nat));
}

/// A plain decimal rendering parses back to its value.
pub proof fn lemma_parse_dec_literal(n: u64, allow_binary: bool)
    ensures
        spec_parse_u64(spec_to_dec(n as nat), allow_binary) == Some(n),
{
    let s = spec_to_dec(n as nat);
    lemma_dec_roundtrip(n as nat);
    if s.len() >= 2 && s[0] == '0' {
        assert(spec_is_digit(s[1], 10));
        assert(s[1] != 'x' && s[1] != 'X' && s[1] != 'b' && s[1] != 'B');
    }
}

/// The one-character string of a digit value below 16, lowercase hex.
pub fn digit_str(d: u64) -> (r: &'static str)
    requires
        d < 16,
    ensures
        r@ =~= seq![spec_digit_char(d as nat)],
{
    proof {
        reveal_strlit("0"); reveal_strlit("1"); reveal_strlit("2"); reveal_strlit("3");
        reveal_strlit("4"); reveal_strlit("5"); reveal_strlit("6"); reveal_strlit("7");
        reveal_strlit("8"); reveal_strlit("9"); reveal_strlit("a"); reveal_strlit("b");
        reveal_strlit("c"); reveal_strlit("d"); reveal_strlit("e"); reveal_strlit("f");
    }
    if d == 0 { "0" } else if d == 1 { "1" } else if d == 2 { "2" } else if d == 3 { "3" }
    else if d == 4 { "4" } else if d == 5 { "5" } else if d == 6 { "6" } else if d == 7 { "7" }
    else if d == 8 { "8" } else if d == 9 { "9" } else if d == 10 { "a" } else if d == 11 { "b" }
    else if d == 12 { "c" } else if d == 13 { "d" } else if d == 14 { "e" } else { "f" }
}

/// Renders `n` in decimal.
pub fn to_dec_string(n: u64) -> (r: String)
    ensures
        r@ == spec_to_dec(n as nat),
    decreases n,
{
    if n < 10 {
        String::from_str(digit_str(n))
    } else {
        let mut s = to_dec_string(n / 10);
        s.append(digit_str(n % 10));
        s
    }
}

/// Renders `n` in lowercase hexadecimal, without a prefix.
pub fn to_hex_string(n: u64) -> (r: String)
    ensures
        r@ == spec_to_hex(n as nat),
    decreases n,
{
    if n < 16 {
        String::from_str(digit_str(n))
    } else {
        let mut s = to_hex_string(n / 16);
        s.append(digit_str(n % 16));
        s
    }
}

/// Renders `n` as a `0x`-prefixed lowercase hexadecimal literal.
pub fn to_hex_literal(n: u64) -> (r: String)
    ensures
        r@ == seq!['0', 'x'] + spec_to_hex(n as nat),
{
    proof {
        reveal_strlit("0x");
    }
    let mut s = String::from_str("0x");
    let rest = to_hex_string(n);
    s.append(rest.as_str());
    assert(s@ =~= seq!['0', 'x'] + spec_to_hex(n as nat));
    s
}

} // verus!
