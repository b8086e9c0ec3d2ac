//! Reading the `Retry-After` header of a response: its value must be text
//! (visible ASCII or tab) that reads as a whole number of seconds.

use crate::duration::{Duration, NANOS_PER_SEC};
use vstd::prelude::*;

verus! {

/// A byte that a header value may hold and still read as text:
/// visible ASCII or a horizontal tab.
pub open spec fn is_visible_ascii(b: u8) -> bool {
    (32 <= b && b < 127) || b == 9
}

/// Every byte of `bytes` is visible ASCII or a tab.
pub open spec fn is_header_text(bytes: Seq<u8>) -> bool {
    forall|i: int| 0 <= i < bytes.len() ==> is_visible_ascii(#[trigger] bytes[i])
}

/// An ASCII decimal digit.
pub open spec fn is_digit(b: u8) -> bool {
    48 <= b && b <= 57
}

/// Every byte of `s` is a decimal digit.
pub open spec fn all_digits(s: Seq<u8>) -> bool {
    forall|i: int| 0 <= i < s.len() ==> is_digit(#[trigger] s[i])
}

/// The number that the decimal digits `s` write, most significant first.
pub open spec fn decimal_value(s: Seq<u8>) -> nat
    decreases s.len(),
{
    if s.len() == 0 {
        0
    } else {
        decimal_value(s.drop_last()) * 10 + (s.last() - 48) as nat
    }
}

/// The digits of `s` once an optional leading `+` is set aside.
pub open spec fn unsigned_digits(s: Seq<u8>) -> Seq<u8> {
    if s.len() > 0 && s[0] == 43 {
        s.drop_first()
    } else {
        s
    }
}

/// How an unsigned 64-bit integer reads from text: an optional `+`, then
/// one or more decimal digits, with a value that fits in 64 bits.
pub open spec fn spec_parse_u64(s: Seq<u8>) -> Option<u64> {
    let d = unsigned_digits(s);
    if d.len() > 0 && all_digits(d) && decimal_value(d) <= u64::MAX {
        Some(decimal_value(d) as u64)
    } else {
        None
    }
}

/// The seconds that a `Retry-After` value asks for: none where the header is
/// absent, where its value is not text, or where the text is not a number.
pub open spec fn spec_retry_after_secs(value: Option<Seq<u8>>) -> Option<u64> {
    match value {
        None => None,
        Some(bytes) => if is_header_text(bytes) {
            spec_parse_u64(bytes)
        } else {
            None
        },
    }
}

/// The decimal digits of `n`, most significant first, with no leading zero:
/// the text that `u64::to_string` writes.
pub open spec fn decimal_text(n: nat) -> Seq<u8>
    decreases n,
{
    if n < 10 {
        seq![(48 + n) as u8]
    } else {
        decimal_text(n / 10).push((48 + n % 10) as u8)
    }
}

/// The decimal text of a number is made of digits, and reads back as it.
pub proof fn lemma_decimal_text(n: nat)
    ensures
        decimal_text(n).len() > 0,
        all_digits(decimal_text(n)),
        is_header_text(decimal_text(n)),
        decimal_value(decimal_text(n)) == n,
        decimal_text(n)[0] != 43,
    decreases n,
{
    let t = decimal_text(n);
    if n < 10 {
        assert(t.drop_last() =~= Seq::<u8>::empty());
        assert(decimal_value(t) == decimal_value(t.drop_last()) * 10 + (t.last() - 48) as nat);
    } else {
        lemma_decimal_text(n / 10);
        let p = decimal_text(n / 10);
        assert(t.drop_last() =~= p);
        assert(t.last() == (48 + n % 10) as u8);
        assert((t.last() - 48) as nat == n % 10);
        assert((n / 10) * 10 + n % 10 == n) by (nonlinear_arith);
        assert(decimal_value(t) == decimal_value(p) * 10 + (t.last() - 48) as nat);
        assert(t[0] == p[0]);
        assert forall|i: int| 0 <= i < t.len() implies is_digit(#[trigger] t[i]) by {
            if i < p.len() {
                assert(t[i] == p[i]);
            }
        }
    }
}

/// Every number that fits in 64 bits reads back from its decimal text, as
/// `str::parse::<u64>` reads what `u64::to_string` writes.
pub proof fn lemma_parse_decimal_text(n: u64)
    ensures
        spec_parse_u64(decimal_text(n as nat)) == Some(n),
{
    lemma_decimal_text(n as nat);
}

/// A `Retry-After` header that holds the decimal text of any number of
/// seconds `n` asks for exactly `n` seconds, however large.
pub proof fn lemma_retry_after_decimal(n: u64)
    ensures
        spec_retry_after_secs(Some(decimal_text(n as nat))) == Some(n),
{
    lemma_decimal_text(n as nat);
}

/// A leading `+` and leading zeros do not change the number read.
pub proof fn lemma_parse_sign_and_zeros(n: u64)
    ensures
        spec_parse_u64(seq![43u8] + decimal_text(n as nat)) == Some(n),
        spec_parse_u64(seq![48u8] + decimal_text(n as nat)) == Some(n),
{
    lemma_decimal_text(n as nat);
    let t = decimal_text(n as nat);
    let plus = seq![43u8] + t;
    assert(plus.drop_first() =~= t);
    let zero = seq![48u8] + t;
    lemma_decimal_value_leading_zero(t);
}

proof fn lemma_decimal_value_leading_zero(t: Seq<u8>)
    requires
        all_digits(t),
    ensures
        all_digits(seq![48u8] + t),
        decimal_value(seq![48u8] + t) == decimal_value(t),
    decreases t.len(),
{
    let z = seq![48u8] + t;
    assert forall|i: int| 0 <= i < z.len() implies is_digit(#[trigger] z[i]) by {
        if i > 0 {
            assert(z[i] == t[i - 1]);
        }
    }
    if t.len() == 0 {
        assert(z.drop_last() =~= Seq::<u8>::empty());
        assert(decimal_value(z) == decimal_value(z.drop_last()) * 10 + (z.last() - 48) as nat);
    } else {
        assert(all_digits(t.drop_last()));
        lemma_decimal_value_leading_zero(t.drop_last());
        assert(z.drop_last() =~= seq![48u8] + t.drop_last());
        assert(z.last() == t.last());
        assert(decimal_value(z) == decimal_value(z.drop_last()) * 10 + (z.last() - 48) as nat);
        assert(decimal_value(t) == decimal_value(t.drop_last()) * 10 + (t.last() - 48) as nat);
    }
}

/// Text with a byte that is not a decimal digit, other than a single
/// leading `+`, reads as no number; so does text with no digit at all.
pub proof fn lemma_parse_rejects(s: Seq<u8>, i: int)
    requires
        0 <= i < s.len(),
        !(48 <= s[i] && s[i] <= 57),
        !(i == 0 && s[i] == 43),
    ensures
        spec_parse_u64(s) is None,
        spec_parse_u64(Seq::<u8>::empty()) is None,
        spec_parse_u64(seq![43u8]) is None,
{
    let d = unsigned_digits(s);
    if s.len() > 0 && s[0] == 43 {
        assert(d[i - 1] == s[i]);
    } else {
        assert(d[i] == s[i]);
    }
    assert(unsigned_digits(seq![43u8]).len() == 0);
}

/// A number past `u64::MAX` reads as no number.
pub proof fn lemma_parse_rejects_overflow(n: nat)
    requires
        n > u64::MAX,
    ensures
        spec_parse_u64(decimal_text(n)) is None,
{
    lemma_decimal_text(n);
}

proof fn lemma_decimal_value_grows(s: Seq<u8>, i: int)
    requires
        0 <= i <= s.len(),
        all_digits(s),
    ensures
        decimal_value(s.take(i)) <= decimal_value(s),
    decreases s.len() - i,
{
    if i < s.len() {
        lemma_decimal_value_grows(s, i + 1);
        assert(s.take(i + 1).drop_last() =~= s.take(i));
        assert(is_digit(s[i]));
    } else {
        assert(s.take(i) =~= s);
    }
}

/// Whether a header value reads as text, as the `http` crate's `to_str`
/// decides it: every byte visible ASCII or a tab.
pub fn is_header_text_exec(bytes: &[u8]) -> (r: bool)
    ensures
        r == is_header_text(bytes@),
{
    let mut i: usize = 0;
    while i < bytes.len()
        invariant
            0 <= i <= bytes.len(),
            forall|j: int| 0 <= j < i ==> is_visible_ascii(#[trigger] bytes@[j]),
        decreases bytes.len() - i,
    {
        let b = bytes[i];
        if !((32 <= b && b < 127) || b == 9) {
            return false;
        }
        i += 1;
    }
    true
}

/// Reads an unsigned 64-bit integer from text as `str::parse::<u64>` does.
pub fn parse_u64(bytes: &[u8]) -> (r: Option<u64>)
    ensures
        r == spec_parse_u64(bytes@),
{
    let ghost s = bytes@;
    let start: usize = if bytes.len() > 0 && bytes[0] == 43 {
        1
    } else {
        0
    };
    let ghost d = unsigned_digits(s);
    assert(d =~= s.skip(start as int));
    if start == bytes.len() {
        return None;
    }
    let mut value: u64 = 0;
    let mut i: usize = start;
    while i < bytes.len()
        invariant
            start <= i <= bytes.len(),
            d =~= s.skip(start as int),
            s == bytes@,
            d == unsigned_digits(s),
            start < bytes.len(),
            all_digits(d.take(i - start)),
            value == decimal_value(d.take(i - start)),
        decreases bytes.len() - i,
    {
        let b = bytes[i];
        let ghost k: int = i - start;
        assert(d[k] == b);
        if b < 48 || b > 57 {
            assert(!is_digit(d[k]));
            assert(!all_digits(d));
            return None;
        }
        assert(d.take(k + 1).drop_last() =~= d.take(k));
        assert(all_digits(d.take(k + 1)));
        let digit: u64 = (b - 48) as u64;
        if value > (u64::MAX - digit) / 10 {
            proof {
                assert(decimal_value(d.take(k + 1)) == value * 10 + digit);
                assert(value * 10 + digit > u64::MAX) by (nonlinear_arith)
                    requires
                        value > (u64::MAX - digit) / 10,
                        digit <= 9,
                ;
                if all_digits(d) {
                    lemma_decimal_value_grows(d, k + 1);
                    assert(decimal_value(d) > u64::MAX);
                }
                assert(spec_parse_u64(s) is None);
            }
            return None;
        }
        assert(value * 10 + digit <= u64::MAX) by (nonlinear_arith)
            requires
                value <= (u64::MAX - digit) / 10,
                digit <= 9,
        ;
        value = value * 10 + digit;
        i += 1;
    }
    assert(d.take(i - start) =~= d);
    Some(value)
}

/// The wait that a `Retry-After` value asks for, in whole seconds: `None`
/// where the header is absent, not text, or not a number of seconds.
pub fn retry_after_secs(value: Option<&[u8]>) -> (r: Option<u64>)
    ensures
        r == spec_retry_after_secs(
            match value {
                Some(b) => Some(b@),
                None => None,
            },
        ),
        value is None ==> r is None,
        forall|n: u64|
            value matches Some(b) && b@ == #[trigger] decimal_text(n as nat) ==> r == Some(n),
{
    proof {
        assert forall|n: u64|
            value matches Some(b) && b@ == #[trigger] decimal_text(n as nat) implies spec_retry_after_secs(
            Some(decimal_text(n as nat)),
        ) == Some(n) by {
            lemma_retry_after_decimal(n);
        }
    }
    match value {
        None => None,
        Some(bytes) => {
            if is_header_text_exec(bytes) {
                parse_u64(bytes)
            } else {
                None
            }
        },
    }
}

/// The wait that a `Retry-After` value asks for, as a span of time.
pub fn retry_after(value: Option<&[u8]>) -> (r: Option<Duration>)
    ensures
        match spec_retry_after_secs(
            match value {
                Some(b) => Some(b@),
                None => None,
            },
        ) {
            Some(secs) => r matches Some(d) && d@ == secs * NANOS_PER_SEC,
            None => r is None,
        },
{
    match retry_after_secs(value) {
        Some(secs) => Some(Duration::from_secs(secs)),
        None => None,
    }
}

} // verus!
