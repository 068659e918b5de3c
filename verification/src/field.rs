//! Decimal codec for elements of the Goldilocks prime field.
//!
//! Encoding parses a non-negative decimal string of any length and
//! takes its residue modulo the field order; decoding spells the
//! canonical representative back out in decimal.  Encoding is lossy on
//! purpose: two inputs congruent modulo the order come back as one and
//! the same output string.

use vstd::prelude::*;
use vstd::string::*;
use crate::errors::MoproError;

verus! {

/// Order of the Goldilocks field: 2^64 - 2^32 + 1.
pub const GOLDILOCKS_ORDER: u64 = 0xFFFF_FFFF_0000_0001;

/// Whether `c` is one of the characters `'0'` through `'9'`.
pub open spec fn is_dec_digit(c: char) -> bool {
    48 <= (c as u32) && (c as u32) <= 57
}

/// Numeric value of a decimal digit character.
pub open spec fn digit_val(c: char) -> nat {
    ((c as u32) - 48) as nat
}

/// Whether every character of `s` is a decimal digit.
pub open spec fn all_dec_digits(s: Seq<char>) -> bool {
    forall|i: int| 0 <= i < s.len() ==> is_dec_digit(#[trigger] s[i])
}

/// The non-negative integer a digit string denotes, most significant
/// digit first.
pub open spec fn dec_value(s: Seq<char>) -> nat
    decreases s.len(),
{
    if s.len() == 0 {
        0
    } else {
        dec_value(s.drop_last()) * 10 + digit_val(s.last())
    }
}

/// The digit character for a value below ten.
pub open spec fn digit_char(d: nat) -> char {
    if d == 0 {
        '0'
    } else if d == 1 {
        '1'
    } else if d == 2 {
        '2'
    } else if d == 3 {
        '3'
    } else if d == 4 {
        '4'
    } else if d == 5 {
        '5'
    } else if d == 6 {
        '6'
    } else if d == 7 {
        '7'
    } else if d == 8 {
        '8'
    } else {
        '9'
    }
}

/// Canonical decimal spelling of `n`: no sign, no leading zero except
/// for the single digit `"0"` itself.
pub open spec fn dec_string_of(n: nat) -> Seq<char>
    decreases n,
{
    if n < 10 {
        seq![digit_char(n)]
    } else {
        dec_string_of(n / 10).push(digit_char(n % 10))
    }
}

/// Whether `s` is the canonical decimal spelling of some value: all
/// digits, non-empty, and no leading zero unless it is exactly `"0"`.
pub open spec fn is_canonical_dec(s: Seq<char>) -> bool {
    &&& all_dec_digits(s)
    &&& s.len() >= 1
    &&& (s.len() > 1 ==> s[0] != '0')
}

/// An element of the Goldilocks field, held as its canonical
/// representative in `[0, GOLDILOCKS_ORDER)`.
#[derive(Debug, Clone, Copy, PartialEq, Eq, Structural)]
pub struct FieldElement {
    pub value: u64,
}

impl FieldElement {
    /// Well-formedness: the held representative is canonical.
    pub open spec fn wf(&self) -> bool {
        self.value < GOLDILOCKS_ORDER
    }
}

/// Facts about `digit_char`: it emits a decimal digit, it inverts
/// `digit_val`, and it emits `'0'` only for zero.
pub proof fn lemma_digit_char(d: nat)
    requires
        d < 10,
    ensures
        is_dec_digit(digit_char(d)),
        digit_val(digit_char(d)) == d,
        digit_char(d) == '0' <==> d == 0,
{
}

/// A digit character is recovered from its value.
pub proof fn lemma_digit_val_char(c: char)
    requires
        is_dec_digit(c),
    ensures
        digit_val(c) < 10,
        digit_char(digit_val(c)) == c,
{
}

/// A digit string headed by a non-zero digit denotes a positive value.
pub proof fn lemma_dec_value_pos(s: Seq<char>)
    requires
        all_dec_digits(s),
        s.len() >= 1,
        digit_val(s[0]) >= 1,
    ensures
        dec_value(s) >= 1,
    decreases s.len(),
{
    if s.len() == 1 {
        assert(s.drop_last().len() == 0);
    } else {
        assert(s.drop_last()[0] == s[0]);
        lemma_dec_value_pos(s.drop_last());
    }
}

/// The canonical spelling of `n` denotes `n` and is canonical, and it
/// starts with a non-zero digit whenever `n` is positive.
pub proof fn lemma_dec_string_of_value(n: nat)
    ensures
        is_canonical_dec(dec_string_of(n)),
        dec_value(dec_string_of(n)) == n,
        n >= 1 ==> digit_val(dec_string_of(n)[0]) >= 1,
    decreases n,
{
    if n < 10 {
        lemma_digit_char(n);
        let s = dec_string_of(n);
        assert(s =~= seq![digit_char(n)]);
        assert(s.drop_last().len() == 0);
        assert(dec_value(s.drop_last()) == 0);
        assert(s.last() == digit_char(n));
        assert(dec_value(s) == digit_val(digit_char(n)));
    } else {
        lemma_dec_string_of_value(n / 10);
        lemma_digit_char(n % 10);
        let prefix = dec_string_of(n / 10);
        let s = prefix.push(digit_char(n % 10));
        assert(s == dec_string_of(n));
        assert(s.drop_last() =~= prefix);
        assert(s.last() == digit_char(n % 10));
        vstd::arithmetic::div_mod::lemma_fundamental_div_mod(n as int, 10);
        assert(dec_value(s) == dec_value(prefix) * 10 + digit_val(digit_char(n % 10)));
        assert(dec_value(s) == n);
        // The first digit is the prefix's first digit, non-zero since
        // n / 10 >= 1.
        assert(s[0] == prefix[0]);
        assert(digit_val(s[0]) >= 1);
        assert(s[0] != '0') by {
            assert(digit_val('0') == 0);
        }
        assert(forall|i: int| 0 <= i < s.len() ==> is_dec_digit(#[trigger] s[i])) by {
            assert(forall|i: int|
                0 <= i < prefix.len() ==> is_dec_digit(#[trigger] prefix[i]));
            assert(s[s.len() - 1] == digit_char(n % 10));
        }
    }
}

/// A canonical digit string is the canonical spelling of its value:
/// canonical decimal spellings are unique.
pub proof fn lemma_canonical_dec_unique(s: Seq<char>)
    requires
        is_canonical_dec(s),
    ensures
        dec_string_of(dec_value(s)) =~= s,
    decreases s.len(),
{
    if s.len() == 1 {
        lemma_digit_val_char(s[0]);
        assert(s.drop_last().len() == 0);
        assert(dec_value(s.drop_last()) == 0);
        assert(s.last() == s[0]);
        assert(dec_value(s) == dec_value(s.drop_last()) * 10 + digit_val(s.last()));
        assert(dec_value(s) == digit_val(s[0]));
        assert(dec_string_of(dec_value(s)) =~= seq![s[0]]);
    } else {
        let prefix = s.drop_last();
        let d = digit_val(s.last());
        assert(prefix[0] == s[0]);
        assert(forall|i: int|
            0 <= i < prefix.len() ==> is_dec_digit(#[trigger] prefix[i]));
        lemma_canonical_dec_unique(prefix);
        lemma_digit_val_char(s[0]);
        lemma_dec_value_pos(prefix);
        let v = dec_value(s);
        assert(v == dec_value(prefix) * 10 + d);
        lemma_digit_val_char(s.last());
        vstd::arithmetic::div_mod::lemma_fundamental_div_mod_converse(
            v as int,
            10,
            dec_value(prefix) as int,
            d as int,
        );
        assert(v / 10 == dec_value(prefix));
        assert(v % 10 == d);
        assert(v >= 10);
        assert(dec_string_of(v) =~= dec_string_of(dec_value(prefix)).push(digit_char(d)));
        assert(dec_string_of(dec_value(prefix)) =~= prefix);
        lemma_digit_char(d);
        assert(digit_char(d) == s.last());
        assert(dec_string_of(v) =~= s);
    }
}

/// One digit-folding step keeps the running value correct modulo `p`.
proof fn lemma_mod_fold(x: nat, d: nat, p: nat)
    requires
        p > 0,
    ensures
        ((x % p) * 10 + d) % p == (x * 10 + d) % p,
{
    vstd::arithmetic::div_mod::lemma_mul_mod_noop_left(x as int, 10, p as int);
    vstd::arithmetic::div_mod::lemma_add_mod_noop(((x % p) * 10) as int, d as int, p as int);
    vstd::arithmetic::div_mod::lemma_add_mod_noop((x * 10) as int, d as int, p as int);
    vstd::arithmetic::div_mod::lemma_mod_twice((x * 10) as int, p as int);
    vstd::arithmetic::div_mod::lemma_mod_twice(d as int, p as int);
}

/// Parses a non-negative decimal string of any length into a field
/// element, reducing modulo the field order.  A string that is empty or
/// holds any non-digit character is an input error.
pub fn encode_field(s: &str) -> (r: Result<FieldElement, MoproError>)
    ensures
        match r {
            Ok(f) => {
                &&& all_dec_digits(s@)
                &&& s@.len() >= 1
                &&& f.wf()
                &&& f.value == dec_value(s@) % (GOLDILOCKS_ORDER as nat)
            },
            Err(e) => {
                &&& !(all_dec_digits(s@) && s@.len() >= 1)
                &&& e is InputError
            },
        },
{
    let n: usize = s.unicode_len();
    if n == 0 {
        return Err(MoproError::InputError(
            String::from_str("expected a non-negative decimal integer, got an empty string"),
        ));
    }
    let mut acc: u64 = 0;
    let mut i: usize = 0;
    while i < n
        invariant
            n == s@.len(),
            1 <= n,
            i <= n,
            all_dec_digits(s@.take(i as int)),
            acc < GOLDILOCKS_ORDER,
            acc == dec_value(s@.take(i as int)) % (GOLDILOCKS_ORDER as nat),
        decreases n - i,
    {
        let c = s.get_char(i);
        let code: u32 = c as u32;
        if code < 48 || code > 57 {
            return Err(MoproError::InputError(
                String::from_str("expected a non-negative decimal integer, got: ").concat(s),
            ));
        }
        let d: u64 = (code - 48) as u64;
        let wide: u128 = (acc as u128) * 10 + (d as u128);
        let next: u64 = (wide % (GOLDILOCKS_ORDER as u128)) as u64;
        proof {
            let prefix = s@.take(i as int);
            let longer = s@.take(i as int + 1);
            assert(longer.drop_last() =~= prefix);
            assert(longer.last() == s@[i as int]);
            lemma_mod_fold(dec_value(prefix), digit_val(s@[i as int]), GOLDILOCKS_ORDER as nat);
            assert(all_dec_digits(longer)) by {
                assert(forall|j: int|
                    0 <= j < prefix.len() ==> is_dec_digit(#[trigger] prefix[j]));
            }
        }
        acc = next;
        i = i + 1;
    }
    proof {
        assert(s@.take(n as int) =~= s@);
    }
    Ok(FieldElement { value: acc })
}

/// The decimal string for a digit value below ten.
fn digit_str(d: u64) -> (r: &'static str)
    requires
        d < 10,
    ensures
        r@ =~= seq![digit_char(d as nat)],
{
    proof {
        reveal_strlit("0");
        reveal_strlit("1");
        reveal_strlit("2");
        reveal_strlit("3");
        reveal_strlit("4");
        reveal_strlit("5");
        reveal_strlit("6");
        reveal_strlit("7");
        reveal_strlit("8");
        reveal_strlit("9");
    }
    match d {
        0 => "0",
        1 => "1",
        2 => "2",
        3 => "3",
        4 => "4",
        5 => "5",
        6 => "6",
        7 => "7",
        8 => "8",
        _ => "9",
    }
}

/// Appends the canonical decimal spelling of `x` to `out`.
fn push_decimal(x: u64, out: &mut String)
    ensures
        final(out)@ == old(out)@ + dec_string_of(x as nat),
    decreases x,
{
    if x < 10 {
        let ds = digit_str(x);
        out.append(ds);
        proof {
            assert(out@ =~= old(out)@ + dec_string_of(x as nat));
        }
    } else {
        let q: u64 = x / 10;
        let r: u64 = x % 10;
        push_decimal(q, out);
        let ds = digit_str(r);
        out.append(ds);
        proof {
            assert(out@ =~= old(out)@ + dec_string_of(x as nat));
        }
    }
}

/// Renders a field element as the canonical decimal string of its
/// canonical representative.
pub fn decode_field(f: &FieldElement) -> (r: String)
    requires
        f.wf(),
    ensures
        r@ == dec_string_of(f.value as nat),
        is_canonical_dec(r@),
        dec_value(r@) == f.value,
{
    let mut out = String::new();
    push_decimal(f.value, &mut out);
    proof {
        lemma_dec_string_of_value(f.value as nat);
        assert(out@ =~= dec_string_of(f.value as nat));
    }
    out
}

/// Encoding a decimal string and decoding the result yields the
/// canonical spelling of the value reduced modulo the field order; in
/// particular a canonical spelling of an in-range value round-trips
/// exactly, and congruent inputs collapse to one output.
pub proof fn lemma_field_codec_round_trip(s: Seq<char>)
    requires
        all_dec_digits(s),
        s.len() >= 1,
    ensures
        is_canonical_dec(s) && dec_value(s) < GOLDILOCKS_ORDER ==> dec_string_of(
            dec_value(s) % (GOLDILOCKS_ORDER as nat),
        ) =~= s,
{
    if is_canonical_dec(s) && dec_value(s) < GOLDILOCKS_ORDER {
        vstd::arithmetic::div_mod::lemma_small_mod(dec_value(s), GOLDILOCKS_ORDER as nat);
        lemma_canonical_dec_unique(s);
    }
}

/// The value a spelling denotes, reduced modulo the field order, is the
/// value itself reduced modulo the field order: encoding the decimal
/// spelling of any `v`, then decoding, yields the spelling of `v mod p`.
pub proof fn lemma_modular_reduction(v: nat)
    ensures
        dec_value(dec_string_of(v)) % (GOLDILOCKS_ORDER as nat) == v % (GOLDILOCKS_ORDER as nat),
{
    lemma_dec_string_of_value(v);
}

} // verus!
