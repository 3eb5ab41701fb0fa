//! Integers in their decimal spelling, read and written.

use vstd::prelude::*;
use vstd::string::StringSliceAdditionalSpecFns;

use crate::bytes::{append, copied, framed, lit, text};

verus! {

/// The decimal digits of `n`, with no leading zero.
pub open spec fn digits_of(n: nat) -> Seq<u8>
    decreases n,
{
    if n < 10 {
        seq![(48 + n) as u8]
    } else {
        digits_of(n / 10).push((48 + n % 10) as u8)
    }
}

/// The decimal spelling of `n`: a `-` sign for a negative number, then digits.
pub open spec fn decimal(n: int) -> Seq<u8> {
    if n < 0 {
        seq![45u8] + digits_of((-n) as nat)
    } else {
        digits_of(n as nat)
    }
}

/// Whether `b` is an ASCII digit.
pub open spec fn is_digit(b: u8) -> bool {
    48 <= b <= 57
}

/// Whether `s` is a non-empty run of ASCII digits.
pub open spec fn all_digits(s: Seq<u8>) -> bool {
    s.len() > 0 && forall|i: int| 0 <= i < s.len() ==> is_digit(#[trigger] s[i])
}

/// The number that a run of digits spells.
pub open spec fn digits_value(s: Seq<u8>) -> nat
    decreases s.len(),
{
    if s.len() == 0 {
        0
    } else {
        (digits_value(s.drop_last()) * 10 + (s.last() - 48)) as nat
    }
}

/// Whether `s` begins with `+` or `-`.
pub open spec fn is_signed(s: Seq<u8>) -> bool {
    s.len() > 0 && (s[0] == 43u8 || s[0] == 45u8)
}

/// `s` without a leading sign.
pub open spec fn unsigned_part(s: Seq<u8>) -> Seq<u8> {
    if is_signed(s) {
        s.skip(1)
    } else {
        s
    }
}

/// The number that a decimal spelling with an optional sign denotes, `None`
/// where `s` is no such spelling.
pub open spec fn spelled(s: Seq<u8>) -> Option<int> {
    if !all_digits(unsigned_part(s)) {
        None
    } else if s[0] == 45u8 {
        Some(-(digits_value(unsigned_part(s)) as int))
    } else {
        Some(digits_value(unsigned_part(s)) as int)
    }
}

/// Whether `n` is an `i64`.
pub open spec fn fits_i64(n: int) -> bool {
    i64::MIN <= n <= i64::MAX
}

/// Whether the Unicode property `White_Space` holds of `c`.
pub open spec fn is_white(c: char) -> bool {
    let n = c as u32;
    ||| 9 <= n <= 13
    ||| n == 0x20
    ||| n == 0x85
    ||| n == 0xa0
    ||| n == 0x1680
    ||| 0x2000 <= n <= 0x200a
    ||| n == 0x2028
    ||| n == 0x2029
    ||| n == 0x202f
    ||| n == 0x205f
    ||| n == 0x3000
}

/// `s` without its leading white space.
pub open spec fn trimmed_front(s: Seq<char>) -> Seq<char>
    decreases s.len(),
{
    if s.len() > 0 && is_white(s[0]) {
        trimmed_front(s.skip(1))
    } else {
        s
    }
}

/// `s` without its trailing white space.
pub open spec fn trimmed_back(s: Seq<char>) -> Seq<char>
    decreases s.len(),
{
    if s.len() > 0 && is_white(s.last()) {
        trimmed_back(s.drop_last())
    } else {
        s
    }
}

/// The bytes of `b` between its surrounding white space, `None` where `b` is
/// not UTF-8.
pub open spec fn trimmed(b: Seq<u8>) -> Option<Seq<u8>> {
    if vstd::utf8::valid_utf8(b) {
        Some(
            vstd::utf8::encode_utf8(
                trimmed_back(trimmed_front(vstd::utf8::decode_utf8(b))),
            ),
        )
    } else {
        None
    }
}

/// `core::str::from_utf8`: the string that `b` encodes, where `b` is UTF-8.
#[verifier::external_body]
pub(crate) fn utf8_str(b: &[u8]) -> (r: Option<&str>)
    ensures
        r is Some == vstd::utf8::valid_utf8(b@),
        r matches Some(s) ==> s@ == vstd::utf8::decode_utf8(b@),
{
    core::str::from_utf8(b).ok()
}

/// `str::trim`: the string without its leading and trailing white space, where
/// white space is what the Unicode property `White_Space` says.
#[verifier::external_body]
fn trim_str(s: &str) -> (r: &str)
    ensures
        r@ == trimmed_back(trimmed_front(s@)),
{
    s.trim()
}

/// The bytes of `b` between its surrounding white space.
pub fn trim_bytes(b: &[u8]) -> (r: Option<Vec<u8>>)
    ensures
        match r {
            Some(t) => trimmed(b@) == Some(t@),
            None => trimmed(b@) is None,
        },
{
    match utf8_str(b) {
        Some(s) => Some(copied(trim_str(s).as_bytes())),
        None => None,
    }
}

proof fn digits_value_bound(s: Seq<u8>, k: int)
    requires
        all_digits(s),
        0 <= k <= s.len(),
    ensures
        digits_value(s.take(k)) <= digits_value(s),
    decreases s.len() - k,
{
    if k < s.len() {
        digits_value_bound(s, k + 1);
        assert(s.take(k + 1).drop_last() =~= s.take(k));
        assert(is_digit(s[k]));
    } else {
        assert(s.take(k) =~= s);
    }
}

/// Whether `s` is a non-empty run of ASCII digits.
fn digits_only(s: &[u8], from: usize) -> (r: bool)
    requires
        from <= s@.len(),
    ensures
        r == all_digits(s@.skip(from as int)),
{
    if from == s.len() {
        return false;
    }
    let mut i: usize = from;
    while i < s.len()
        invariant
            from <= i <= s@.len(),
            from < s@.len(),
            forall|j: int| from <= j < i ==> is_digit(#[trigger] s@[j]),
        decreases s@.len() - i,
    {
        if !(48 <= s[i] && s[i] <= 57) {
            assert(!is_digit(s@.skip(from as int)[i - from]));
            return false;
        }
        i = i + 1;
    }
    true
}

/// What [`parse_i64`] makes of a byte string.
#[derive(Clone, Copy, PartialEq, Eq, Structural)]
pub enum Parsed {
    Int(i64),
    /// A decimal spelling whose value no `i64` holds.
    TooLarge,
    /// No decimal spelling at all.
    NotInteger,
}

/// Reads a decimal number with an optional sign.
pub fn parse_i64(s: &[u8]) -> (r: Parsed)
    ensures
        match spelled(s@) {
            None => r == Parsed::NotInteger,
            Some(n) => if fits_i64(n) {
                r matches Parsed::Int(v) && v == n
            } else {
                r == Parsed::TooLarge
            },
        },
{
    let signed = s.len() > 0 && (s[0] == 43 || s[0] == 45);
    let negative = s.len() > 0 && s[0] == 45;
    let from: usize = if signed {
        1
    } else {
        0
    };
    let ghost body = unsigned_part(s@);
    assert(s@.skip(from as int) =~= body);
    if !digits_only(s, from) {
        return Parsed::NotInteger;
    }
    let mut acc: i128 = 0;
    let mut i: usize = from;
    while i < s.len()
        invariant
            from <= i <= s@.len(),
            body == s@.skip(from as int),
            all_digits(body),
            negative == (s@[0] == 45u8),
            body == unsigned_part(s@),
            acc == digits_value(body.take(i - from)),
            0 <= acc <= 0x8000_0000_0000_0000,
        decreases s@.len() - i,
    {
        assert(body.take(i - from + 1).drop_last() =~= body.take(i - from));
        assert(is_digit(body[i - from]));
        acc = acc * 10 + (s[i] - 48) as i128;
        i = i + 1;
        if acc > 0x8000_0000_0000_0000 {
            proof {
                digits_value_bound(body, i - from);
            }
            return Parsed::TooLarge;
        }
    }
    assert(body.take(i - from) =~= body);
    let value: i128 = if negative {
        -acc
    } else {
        acc
    };
    if value > 0x7fff_ffff_ffff_ffff {
        Parsed::TooLarge
    } else {
        Parsed::Int(value as i64)
    }
}

/// The decimal spelling of `n`.
pub fn decimal_u64(n: u64) -> (r: Vec<u8>)
    ensures
        r@ == decimal(n as int),
    decreases n,
{
    if n < 10 {
        let mut out: Vec<u8> = Vec::new();
        out.push(48 + n as u8);
        assert(out@ =~= digits_of(n as nat));
        out
    } else {
        let mut out = decimal_u64(n / 10);
        out.push(48 + (n % 10) as u8);
        out
    }
}

/// The decimal spelling of `n`.
pub fn decimal_i64(n: i64) -> (r: Vec<u8>)
    ensures
        r@ == decimal(n as int),
{
    if n < 0 {
        let magnitude: u64 = (-(n as i128)) as u64;
        let mut out: Vec<u8> = Vec::new();
        out.push(45);
        append(&mut out, &decimal_u64(magnitude));
        assert(out@ =~= decimal(n as int));
        out
    } else {
        decimal_u64(n as u64)
    }
}

/// The decimal spelling of `n`.
pub fn decimal_usize(n: usize) -> (r: Vec<u8>)
    ensures
        r@ == decimal(n as int),
{
    decimal_u64(n as u64)
}

/// The message for a word that should have been an integer.
pub open spec fn expected_integer(b: Seq<u8>) -> Seq<u8> {
    text("expected integer but got \"") + b + text("\"")
}

/// The integer that `b` spells between white space, if an `i64` holds it.
pub open spec fn integer_word(b: Seq<u8>) -> Option<int> {
    match trimmed(b) {
        None => None,
        Some(t) => match spelled(t) {
            Some(n) => if fits_i64(n) {
                Some(n)
            } else {
                None
            },
            None => None,
        },
    }
}

/// Reads the value of an `interp limit` option.
pub fn parse_limit_int(bytes: &[u8]) -> (r: Result<i64, Vec<u8>>)
    ensures
        match integer_word(bytes@) {
            Some(n) => r matches Ok(v) && v == n,
            None => r matches Err(m) && m@ == expected_integer(bytes@),
        },
{
    if let Some(t) = trim_bytes(bytes) {
        if let Parsed::Int(n) = parse_i64(&t) {
            return Ok(n);
        }
    }
    Err(framed("expected integer but got \"", bytes, "\""))
}

/// Reads the new value of an `interp recursionlimit`. A decimal number that no
/// `i64` holds is too large; anything else that is not a number is no integer.
pub fn parse_recursion_limit(bytes: &[u8]) -> (r: Result<i64, Vec<u8>>)
    ensures
        match integer_word(bytes@) {
            Some(n) => r matches Ok(v) && v == n,
            None => r matches Err(m) && m@ == if trimmed(bytes@) is Some && spelled(
                trimmed(bytes@)->0,
            ) is Some {
                text("integer value too large to represent")
            } else {
                expected_integer(bytes@)
            },
        },
{
    match trim_bytes(bytes) {
        Some(t) => match parse_i64(&t) {
            Parsed::Int(n) => Ok(n),
            Parsed::TooLarge => Err(lit("integer value too large to represent")),
            Parsed::NotInteger => Err(framed("expected integer but got \"", bytes, "\"")),
        },
        None => Err(framed("expected integer but got \"", bytes, "\"")),
    }
}

/// An optional number: its decimal spelling, or nothing where it is unset.
pub open spec fn opt_decimal(v: Option<i64>) -> Seq<u8> {
    match v {
        Some(n) => decimal(n as int),
        None => Seq::empty(),
    }
}

/// Renders an optional limit: the decimal bytes, or empty when unset.
pub fn opt_int(v: Option<i64>) -> (r: Vec<u8>)
    ensures
        r@ == opt_decimal(v),
{
    match v {
        Some(n) => decimal_i64(n),
        None => Vec::new(),
    }
}

proof fn digits_of_are_digits(n: nat)
    ensures
        all_digits(digits_of(n)),
        digits_value(digits_of(n)) == n,
    decreases n,
{
    if n < 10 {
        assert(digits_of(n).drop_last() =~= Seq::empty());
        assert(digits_value(digits_of(n).drop_last()) == 0);
    } else {
        digits_of_are_digits(n / 10);
        assert(digits_of(n).drop_last() =~= digits_of(n / 10));
    }
}

/// Reading what was written gives the number back.
pub proof fn decimal_round_trip(n: int)
    ensures
        spelled(decimal(n)) == Some(n),
{
    if n < 0 {
        digits_of_are_digits((-n) as nat);
        assert(decimal(n).skip(1) =~= digits_of((-n) as nat));
    } else {
        digits_of_are_digits(n as nat);
        assert(is_digit(decimal(n)[0]));
    }
}

/// A number is spelled with its last digit last: what ten times `n` and `d` is
/// spelled as is the spelling of `n` and that of `d`. A negative number is
/// spelled as its opposite, behind a minus sign.
pub proof fn the_last_digit_comes_last(n: int, d: int)
    requires
        0 <= n,
        0 <= d < 10,
    ensures
        decimal(d) == seq![(48 + d) as u8],
        n > 0 ==> decimal(10 * n + d) == decimal(n) + decimal(d),
        n > 0 ==> decimal(-n) == seq![45u8] + decimal(n),
{
    if n > 0 {
        assert((10 * n + d) / 10 == n);
        assert((10 * n + d) % 10 == d);
        assert(digits_of(n as nat).push((48 + d) as u8) =~= decimal(n) + decimal(d));
    }
}

/// A leading zero and a leading plus sign say nothing, a minus sign says the
/// opposite, and what is not made of digits behind a sign spells no number.
pub proof fn signs_and_zeros(s: Seq<u8>)
    requires
        all_digits(s),
    ensures
        spelled(s) is Some,
        spelled(s)->0 >= 0,
        spelled(seq![48u8] + s) == spelled(s),
        spelled(seq![43u8] + s) == spelled(s),
        spelled(seq![45u8] + s) == Some(-(spelled(s)->0)),
        spelled(Seq::empty()) is None,
        spelled(seq![43u8]) is None && spelled(seq![45u8]) is None,
        spelled(seq![45u8, 45u8] + s) is None && spelled(seq![43u8, 45u8] + s) is None,
{
    assert(is_digit(s[0]));
    let z = seq![48u8] + s;
    assert forall|i: int| 0 <= i < z.len() implies is_digit(#[trigger] z[i]) by {
        if i > 0 {
            assert(z[i] == s[i - 1]);
        }
    }
    assert(all_digits(z));
    assert(is_digit(z[0]));
    a_leading_zero_adds_nothing(s);
    assert((seq![43u8] + s).skip(1) =~= s);
    assert((seq![45u8] + s).skip(1) =~= s);
    let mm = seq![45u8, 45u8] + s;
    assert(!is_digit(mm.skip(1)[0]));
    let pm = seq![43u8, 45u8] + s;
    assert(!is_digit(pm.skip(1)[0]));
    assert(seq![43u8].skip(1).len() == 0);
    assert(seq![45u8].skip(1).len() == 0);
}

proof fn a_leading_zero_adds_nothing(s: Seq<u8>)
    ensures
        digits_value(seq![48u8] + s) == digits_value(s),
    decreases s.len(),
{
    let z = seq![48u8] + s;
    if s.len() == 0 {
        assert(z.drop_last() =~= s);
    } else {
        assert(z.drop_last() =~= seq![48u8] + s.drop_last());
        a_leading_zero_adds_nothing(s.drop_last());
    }
}

/// What is said of a word that is no integer shows the word.
pub proof fn a_word_that_is_no_integer_is_shown(b: Seq<u8>)
    ensures
        expected_integer(b) == text("expected integer but got \"") + b + text("\""),
        opt_decimal(None) == Seq::<u8>::empty(),
        forall|n: i64| #[trigger] opt_decimal(Some(n)) == decimal(n as int),
{
}

/// White space around an integer does not count, and a number that 64 bits do
/// not hold is none.
pub proof fn an_integer_word_is_the_number_it_spells(b: Seq<u8>)
    ensures
        integer_word(b) matches Some(n) ==> trimmed(b) is Some && spelled(trimmed(b)->0)
            == Some(n) && i64::MIN <= n <= i64::MAX,
        integer_word(b) is None && trimmed(b) is Some && spelled(trimmed(b)->0) is Some ==> {
            let n = spelled(trimmed(b)->0)->0;
            n < i64::MIN || n > i64::MAX
        },
{
}

/// White space at either end is trimmed off, character by character, and
/// nothing else is.
pub proof fn only_white_space_is_trimmed(c: char, s: Seq<char>)
    ensures
        is_white(c) ==> trimmed_front(seq![c] + s) == trimmed_front(s),
        is_white(c) ==> trimmed_back(s.push(c)) == trimmed_back(s),
        !is_white(c) ==> trimmed_front(seq![c] + s) == seq![c] + s,
        !is_white(c) ==> trimmed_back(s.push(c)) == s.push(c),
        trimmed_front(Seq::empty()) == Seq::<char>::empty(),
        trimmed_back(Seq::empty()) == Seq::<char>::empty(),
        is_white(' ') && is_white('\t') && is_white('\n'),
        !is_white('0') && !is_white('-') && !is_white('a'),
{
    assert((seq![c] + s).skip(1) =~= s);
    assert(s.push(c).drop_last() =~= s);
}

} // verus!
