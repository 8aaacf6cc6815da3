//! Byte-level text predicates and decimal rendering shared by the other modules.
//!
//! Predicates over text are stated on its UTF-8 bytes; rendered text is stated
//! as a sequence of characters.

use vstd::prelude::*;
use vstd::string::*;

verus! {

/// `prefix` is an initial segment of `text`.
pub open spec fn is_prefix_of(prefix: Seq<u8>, text: Seq<u8>) -> bool {
    prefix.len() <= text.len() && text.subrange(0, prefix.len() as int) == prefix
}

/// `needle` stands in `text` at offset `at`.
pub open spec fn occurs_at(needle: Seq<u8>, text: Seq<u8>, at: int) -> bool {
    0 <= at && at + needle.len() <= text.len() && text.subrange(at, at + needle.len())
        == needle
}

/// `needle` stands somewhere in `text`.
pub open spec fn occurs_in(needle: Seq<u8>, text: Seq<u8>) -> bool {
    exists|at: int| occurs_at(needle, text, at)
}

/// Compares `needle` with the bytes of `text` that start at `at`.
pub fn matches_at(text: &[u8], needle: &[u8], at: usize) -> (b: bool)
    requires
        at + needle@.len() <= text@.len(),
    ensures
        b == occurs_at(needle@, text@, at as int),
{
    let n: usize = needle.len();
    let total: usize = text.len();
    let mut i: usize = 0;
    while i < n
        invariant
            n == needle@.len(),
            total == text@.len(),
            at + n <= total,
            i <= n,
            forall|j: int| 0 <= j < i ==> text@[at + j] == needle@[j],
        decreases n - i,
    {
        if text[at + i] != needle[i] {
            proof {
                let window = text@.subrange(at as int, at + n);
                assert(window[i as int] == text@[at + i]);
            }
            return false;
        }
        i = i + 1;
    }
    assert(text@.subrange(at as int, at + n) =~= needle@);
    true
}

/// Whether `text` begins with `prefix`.
pub fn starts_with(text: &[u8], prefix: &[u8]) -> (b: bool)
    ensures
        b == is_prefix_of(prefix@, text@),
{
    if prefix.len() > text.len() {
        return false;
    }
    matches_at(text, prefix, 0)
}

/// Whether `needle` occurs anywhere in `text`.
pub fn contains(text: &[u8], needle: &[u8]) -> (b: bool)
    ensures
        b == occurs_in(needle@, text@),
{
    if needle.len() > text.len() {
        return false;
    }
    let total: usize = text.len();
    let last: usize = total - needle.len();
    let mut at: usize = 0;
    while at <= last
        invariant
            total == text@.len(),
            last + needle@.len() == total,
            at <= last + 1,
            forall|k: int| 0 <= k < at ==> !occurs_at(needle@, text@, k),
        decreases last + 1 - at,
    {
        if matches_at(text, needle, at) {
            return true;
        }
        if at == last {
            return false;
        }
        at = at + 1;
    }
    false
}

/// The character of one decimal digit; `'0'` for a value above nine.
pub open spec fn digit_char(d: nat) -> char {
    if d == 1 {
        '1'
    } else if d == 2 {
        '2'
    } else if d == 3 {
        '3'
    } else if d == 4 {
        '4'
    } else if d == 5 {
        '5'
    } else if d == 6 {
        '6'
    } else if d == 7 {
        '7'
    } else if d == 8 {
        '8'
    } else if d == 9 {
        '9'
    } else {
        '0'
    }
}

/// The decimal numeral of `n`, without leading zeros.
pub open spec fn decimal(n: nat) -> Seq<char>
    decreases n,
{
    if n < 10 {
        seq![digit_char(n)]
    } else {
        decimal(n / 10).push(digit_char(n % 10))
    }
}

/// The one-character text of a decimal digit.
fn digit_text(d: u8) -> (s: &'static str)
    requires
        d < 10,
    ensures
        s@ == seq![digit_char(d as nat)],
{
    proof {
        reveal_strlit("0");
        reveal_strlit("1");
        reveal_strlit("2");
        reveal_strlit("3");
        reveal_strlit("4");
        reveal_strlit("5");
        reveal_strlit("6");
        reveal_strlit("7");
        reveal_strlit("8");
        reveal_strlit("9");
    }
    let s = if d == 0 {
        "0"
    } else if d == 1 {
        "1"
    } else if d == 2 {
        "2"
    } else if d == 3 {
        "3"
    } else if d == 4 {
        "4"
    } else if d == 5 {
        "5"
    } else if d == 6 {
        "6"
    } else if d == 7 {
        "7"
    } else if d == 8 {
        "8"
    } else {
        "9"
    };
    assert(s@ =~= seq![digit_char(d as nat)]);
    s
}

/// Renders `n` in decimal.
pub fn decimal_string(n: u128) -> (s: String)
    ensures
        s@ == decimal(n as nat),
    decreases n,
{
    if n < 10 {
        String::from_str(digit_text(n as u8))
    } else {
        let mut s = decimal_string(n / 10);
        s.append(digit_text((n % 10) as u8));
        assert(s@ =~= decimal(n as nat));
        s
    }
}

/// Appends the bytes of `extra` to `out`.
pub fn append_bytes(out: &mut Vec<u8>, extra: &[u8])
    ensures
        final(out)@ == old(out)@ + extra@,
{
    let n: usize = extra.len();
    let mut i: usize = 0;
    while i < n
        invariant
            n == extra@.len(),
            i <= n,
            out@ == old(out)@ + extra@.subrange(0, i as int),
        decreases n - i,
    {
        out.push(extra[i]);
        i = i + 1;
        assert(out@ =~= old(out)@ + extra@.subrange(0, i as int));
    }
    assert(extra@.subrange(0, n as int) =~= extra@);
}

/// `top / den` rounded to the nearest integer, a half to the even neighbour;
/// zero for a zero denominator.
pub open spec fn rounded_quotient(top: nat, den: nat) -> nat {
    if den == 0 {
        0
    } else if 2 * (top % den) > den || (2 * (top % den) == den && (top / den) % 2 == 1) {
        top / den + 1
    } else {
        top / den
    }
}

/// `num * scale / den` rounded to the nearest integer, a half to the even
/// neighbour; zero for a zero denominator.
pub open spec fn scaled_ratio(num: nat, den: nat, scale: nat) -> nat {
    rounded_quotient(num * scale, den)
}

/// Computes [`rounded_quotient`] without overflow.
pub fn rounded_quotient_of(top: u128, den: u128) -> (r: u128)
    ensures
        r == rounded_quotient(top as nat, den as nat),
{
    if den == 0 {
        return 0;
    }
    let whole: u128 = top / den;
    let rest: u128 = top % den;
    let up: bool = rest > den - rest || (rest == den - rest && whole % 2 == 1);
    if up {
        proof {
            vstd::arithmetic::div_mod::lemma_fundamental_div_mod(top as int, den as int);
        }
        assert(whole < top) by (nonlinear_arith)
            requires
                den >= 2,
                rest > 0,
                top == den * whole + rest,
        ;
        whole + 1
    } else {
        whole
    }
}

/// Computes [`scaled_ratio`] without overflow.
pub fn scaled_ratio_of(num: u64, den: u64, scale: u32) -> (r: u128)
    ensures
        r == scaled_ratio(num as nat, den as nat, scale as nat),
{
    assert((num as nat) * (scale as nat) <= 0xffff_ffff_ffff_ffff * 0xffff_ffff)
        by (nonlinear_arith)
        requires
            num <= 0xffff_ffff_ffff_ffff,
            scale <= 0xffff_ffff,
    ;
    rounded_quotient_of((num as u128) * (scale as u128), den as u128)
}

/// A value counted in tenths, written with one decimal place.
pub open spec fn tenths_text(value: nat) -> Seq<char> {
    decimal(value / 10) + seq!['.', digit_char(value % 10)]
}

/// A value counted in hundredths, written with two decimal places.
pub open spec fn hundredths_text(value: nat) -> Seq<char> {
    decimal(value / 100) + seq!['.', digit_char((value / 10) % 10), digit_char(value % 10)]
}

/// Renders a count of tenths with one decimal place.
pub fn tenths_string(value: u128) -> (s: String)
    ensures
        s@ == tenths_text(value as nat),
{
    let mut s = decimal_string(value / 10);
    proof {
        reveal_strlit(".");
    }
    s.append(".");
    s.append(digit_text((value % 10) as u8));
    assert(s@ =~= tenths_text(value as nat));
    s
}

/// Renders a count of hundredths with two decimal places.
pub fn hundredths_string(value: u128) -> (s: String)
    ensures
        s@ == hundredths_text(value as nat),
{
    let mut s = decimal_string(value / 100);
    proof {
        reveal_strlit(".");
    }
    s.append(".");
    s.append(digit_text(((value / 10) % 10) as u8));
    s.append(digit_text((value % 10) as u8));
    assert(s@ =~= hundredths_text(value as nat));
    s
}

/// Two sequences of one length are equal if they agree on their last element
/// and on all before it.
pub proof fn lemma_equal_by_last<A>(left: Seq<A>, right: Seq<A>)
    requires
        left.len() == right.len(),
        left.len() > 0,
        left.drop_last() == right.drop_last(),
        left.last() == right.last(),
    ensures
        left == right,
{
    assert(left =~= left.drop_last().push(left.last()));
    assert(right =~= right.drop_last().push(right.last()));
}

/// Every byte is a decimal digit.
pub open spec fn all_digits(text: Seq<u8>) -> bool {
    forall|i: int| 0 <= i < text.len() ==> 0x30 <= #[trigger] text[i] <= 0x39
}

/// The number that a text of decimal digits writes.
pub open spec fn digits_value(digits: Seq<u8>) -> nat
    decreases digits.len(),
{
    if digits.len() == 0 {
        0
    } else {
        (digits_value(digits.drop_last()) * 10 + (digits.last() - 0x30)) as nat
    }
}

/// The digits of a numeral: the text without one leading plus sign.
pub open spec fn numeral_digits(text: Seq<u8>) -> Seq<u8> {
    if text.len() > 0 && text[0] == 0x2b {
        text.skip(1)
    } else {
        text
    }
}

/// The number that a text writes in decimal, if it is a numeral of at least
/// one digit, with or without a plus sign, whose value fits 64 bits.
pub open spec fn parsed_u64(text: Seq<u8>) -> Option<u64> {
    let digits = numeral_digits(text);
    if digits.len() > 0 && all_digits(digits) && digits_value(digits) <= u64::MAX {
        Some(digits_value(digits) as u64)
    } else {
        None
    }
}

/// A longer run of digits writes no smaller number than its beginning.
proof fn lemma_digits_value_grows(digits: Seq<u8>, shorter: int)
    requires
        0 <= shorter <= digits.len(),
        all_digits(digits),
    ensures
        digits_value(digits.take(shorter)) <= digits_value(digits),
    decreases digits.len() - shorter,
{
    if shorter == digits.len() {
        assert(digits.take(shorter) =~= digits);
    } else {
        lemma_digits_value_grows(digits.drop_last(), shorter);
        assert(digits.drop_last().take(shorter) =~= digits.take(shorter));
    }
}

/// Reads a decimal numeral, as the conversion of a text to `u64` does.
pub fn parse_u64(text: &[u8]) -> (value: Option<u64>)
    ensures
        value == parsed_u64(text@),
{
    let total: usize = text.len();
    let start: usize = if total > 0 && text[0] == 0x2bu8 {
        1
    } else {
        0
    };
    let ghost digits = numeral_digits(text@);
    assert(digits =~= text@.skip(start as int));
    if start == total {
        return None;
    }
    let mut acc: u64 = 0;
    let mut i: usize = start;
    while i < total
        invariant
            total == text@.len(),
            start <= i <= total,
            digits == text@.skip(start as int),
            digits == numeral_digits(text@),
            all_digits(digits.take(i - start)),
            acc == digits_value(digits.take(i - start)),
        decreases total - i,
    {
        let b: u8 = text[i];
        assert(digits[i - start] == b);
        if b < 0x30u8 || b > 0x39u8 {
            return None;
        }
        proof {
            let longer = digits.take(i - start + 1);
            assert(longer.drop_last() =~= digits.take(i - start));
            assert(longer.last() == b);
            assert forall|k: int| 0 <= k < longer.len() implies 0x30 <= #[trigger] longer[k]
                <= 0x39 by {
                if k < i - start {
                    assert(digits.take(i - start)[k] == longer[k]);
                }
            }
        }
        let d: u64 = (b - 0x30u8) as u64;
        if acc > (u64::MAX - d) / 10 {
            proof {
                let longer = digits.take(i - start + 1);
                assert(digits_value(longer) > u64::MAX);
                if all_digits(digits) {
                    lemma_digits_value_grows(digits, i - start + 1);
                }
            }
            return None;
        }
        acc = acc * 10 + d;
        i = i + 1;
    }
    assert(digits.take(total - start) =~= digits);
    Some(acc)
}

/// The bytes of two texts put together are the bytes of the first and then
/// the bytes of the second.
pub proof fn lemma_bytes_of_joined_texts(first: Seq<char>, second: Seq<char>)
    ensures
        vstd::utf8::encode_utf8(first + second) == vstd::utf8::encode_utf8(first)
            + vstd::utf8::encode_utf8(second),
    decreases first.len(),
{
    if first.len() == 0 {
        assert(first + second =~= second);
        assert(vstd::utf8::encode_utf8(first) =~= Seq::<u8>::empty());
        assert(vstd::utf8::encode_utf8(first) + vstd::utf8::encode_utf8(second)
            =~= vstd::utf8::encode_utf8(second));
    } else {
        let whole = first + second;
        assert(whole[0] == first[0]);
        assert(whole.drop_first() =~= first.drop_first() + second);
        lemma_bytes_of_joined_texts(first.drop_first(), second);
        assert(vstd::utf8::encode_utf8(whole) =~= vstd::utf8::encode_utf8(first)
            + vstd::utf8::encode_utf8(second));
    }
}

/// A text occurs in every text that holds it between two others.
pub proof fn lemma_occurs_between(before: Seq<u8>, needle: Seq<u8>, after: Seq<u8>)
    ensures
        occurs_in(needle, before + needle + after),
{
    let whole = before + needle + after;
    assert(whole.subrange(before.len() as int, (before.len() + needle.len()) as int) =~= needle);
    assert(occurs_at(needle, whole, before.len() as int));
}

} // verus!
