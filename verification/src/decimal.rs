//! Decimal text: how integers are written into labels, log lines and
//! timestamps, and how configured numbers are read back.

use vstd::prelude::*;
use vstd::string::*;

verus! {

/// The character that stands for one decimal digit.
pub open spec fn digit_char(d: int) -> char {
    if d == 0 {
        '0'
    } else if d == 1 {
        '1'
    } else if d == 2 {
        '2'
    } else if d == 3 {
        '3'
    } else if d == 4 {
        '4'
    } else if d == 5 {
        '5'
    } else if d == 6 {
        '6'
    } else if d == 7 {
        '7'
    } else if d == 8 {
        '8'
    } else {
        '9'
    }
}

/// Whether `c` is one of the ten ASCII digits.
pub open spec fn is_digit(c: char) -> bool {
    '0' <= c && c <= '9'
}

/// The value of an ASCII digit.
pub open spec fn digit_value(c: char) -> int {
    c as int - '0' as int
}

/// A natural number in decimal, without sign, separators or leading zeros.
pub open spec fn nat_text(n: nat) -> Seq<char>
    decreases n,
{
    if n < 10 {
        seq![digit_char(n as int)]
    } else {
        nat_text(n / 10).push(digit_char((n % 10) as int))
    }
}

/// An integer in decimal: a minus sign for negative numbers, no sign otherwise.
pub open spec fn decimal_text(n: int) -> Seq<char> {
    if n < 0 {
        seq!['-'] + nat_text((-n) as nat)
    } else {
        nat_text(n as nat)
    }
}

/// Decimal text is never empty, and everything after an optional leading
/// minus sign is a digit.
pub proof fn lemma_nat_text_digits(n: nat)
    ensures
        nat_text(n).len() >= 1,
        forall|i: int| 0 <= i < nat_text(n).len() ==> is_digit(#[trigger] nat_text(n)[i]),
    decreases n,
{
    if n >= 10 {
        lemma_nat_text_digits(n / 10);
    }
}

/// The shape of every decimal text: non-empty, a minus sign exactly for
/// negative numbers, digits everywhere else.
pub proof fn lemma_decimal_text_shape(n: int)
    ensures
        decimal_text(n).len() >= 1,
        n >= 0 ==> forall|i: int|
            0 <= i < decimal_text(n).len() ==> is_digit(#[trigger] decimal_text(n)[i]),
        n < 0 ==> decimal_text(n).len() >= 2 && decimal_text(n)[0] == '-' && forall|i: int|
            1 <= i < decimal_text(n).len() ==> is_digit(#[trigger] decimal_text(n)[i]),
{
    if n < 0 {
        lemma_nat_text_digits((-n) as nat);
        let digits = nat_text((-n) as nat);
        assert forall|i: int| 1 <= i < decimal_text(n).len() implies is_digit(
            #[trigger] decimal_text(n)[i],
        ) by {
            assert(decimal_text(n)[i] == digits[i - 1]);
        }
    } else {
        lemma_nat_text_digits(n as nat);
    }
}

fn digit_str(d: u64) -> (r: &'static str)
    requires
        d < 10,
    ensures
        r@ == seq![digit_char(d as int)],
{
    proof {
        reveal_strlit("0");
        reveal_strlit("1");
        reveal_strlit("2");
        reveal_strlit("3");
        reveal_strlit("4");
        reveal_strlit("5");
        reveal_strlit("6");
        reveal_strlit("7");
        reveal_strlit("8");
        reveal_strlit("9");
    }
    let r: &'static str = if d == 0 {
        "0"
    } else if d == 1 {
        "1"
    } else if d == 2 {
        "2"
    } else if d == 3 {
        "3"
    } else if d == 4 {
        "4"
    } else if d == 5 {
        "5"
    } else if d == 6 {
        "6"
    } else if d == 7 {
        "7"
    } else if d == 8 {
        "8"
    } else {
        "9"
    };
    assert(r@ =~= seq![digit_char(d as int)]);
    r
}

/// Appends the decimal digits of `n` to `out`.
pub fn push_nat(out: &mut String, n: u64)
    ensures
        final(out)@ == old(out)@ + nat_text(n as nat),
    decreases n,
{
    if n >= 10 {
        push_nat(out, n / 10);
    }
    out.append(digit_str(n % 10));
    assert(final(out)@ =~= old(out)@ + nat_text(n as nat));
}

/// Appends `n` in decimal to `out`.
pub fn push_decimal(out: &mut String, n: i64)
    ensures
        final(out)@ == old(out)@ + decimal_text(n as int),
{
    if n < 0 {
        proof {
            reveal_strlit("-");
        }
        out.append("-");
        // -(n + 1) fits even for the smallest value; the magnitude is one more.
        let magnitude: u64 = (-(n + 1)) as u64 + 1;
        push_nat(out, magnitude);
        assert(final(out)@ =~= old(out)@ + decimal_text(n as int));
    } else {
        push_nat(out, n as u64);
    }
}

/// `n` written in decimal.
pub fn decimal_string(n: i64) -> (r: String)
    ensures
        r@ == decimal_text(n as int),
{
    let mut out = String::new();
    push_decimal(&mut out, n);
    assert(out@ =~= decimal_text(n as int));
    out
}

/// Whether every character of `s` is an ASCII digit.
pub open spec fn all_digits(s: Seq<char>) -> bool {
    forall|i: int| 0 <= i < s.len() ==> is_digit(#[trigger] s[i])
}

/// The number that a run of digits stands for; the empty run stands for 0.
pub open spec fn digits_value(s: Seq<char>) -> int
    decreases s.len(),
{
    if s.len() == 0 {
        0
    } else {
        digits_value(s.drop_last()) * 10 + digit_value(s.last())
    }
}

/// How many leading characters of `s` are a sign: a plus sign always counts,
/// a minus sign only where negative numbers are read.
pub open spec fn sign_len(s: Seq<char>, signed: bool) -> int {
    if s.len() > 0 && (s[0] == '+' || (signed && s[0] == '-')) {
        1
    } else {
        0
    }
}

/// The magnitude that `s` reads as: what its digits after the sign stand for,
/// where at least one character follows the sign, all that follow are digits,
/// and the magnitude fits.
pub open spec fn magnitude_of(s: Seq<char>, signed: bool) -> Option<u64> {
    let digits = s.skip(sign_len(s, signed));
    if digits.len() > 0 && all_digits(digits) && digits_value(digits) <= u64::MAX {
        Some(digits_value(digits) as u64)
    } else {
        None
    }
}

/// The unsigned number that `s` reads as: an optional plus sign, then at least
/// one digit and nothing else, with a value that fits.
pub open spec fn u64_of_text(s: Seq<char>) -> Option<u64> {
    magnitude_of(s, false)
}

/// The signed number that `s` reads as: an optional plus or minus sign, then
/// at least one digit and nothing else, with a value that fits.
pub open spec fn i64_of_text(s: Seq<char>) -> Option<i64> {
    let digits = s.skip(sign_len(s, true));
    let value = if s.len() > 0 && s[0] == '-' {
        -digits_value(digits)
    } else {
        digits_value(digits)
    };
    if digits.len() > 0 && all_digits(digits) && i64::MIN <= value <= i64::MAX {
        Some(value as i64)
    } else {
        None
    }
}

/// A run of digits is worth at least as much as any of its prefixes.
pub proof fn lemma_digits_value_prefix(s: Seq<char>, k: int)
    requires
        all_digits(s),
        0 <= k <= s.len(),
    ensures
        0 <= digits_value(s.take(k)) <= digits_value(s),
    decreases s.len(),
{
    if k == s.len() {
        assert(s.take(k) =~= s);
        if s.len() > 0 {
            assert(all_digits(s.drop_last()));
            lemma_digits_value_prefix(s.drop_last(), k - 1);
            assert(s.drop_last().take(k - 1) =~= s.drop_last());
            assert(is_digit(s.last()));
        }
    } else {
        assert(all_digits(s.drop_last()));
        lemma_digits_value_prefix(s.drop_last(), k);
        assert(s.drop_last().take(k) =~= s.take(k));
        lemma_digits_value_prefix(s.drop_last(), s.len() - 1);
        assert(s.drop_last().take(s.len() - 1) =~= s.drop_last());
        assert(is_digit(s.last()));
    }
}

/// The digits written for a natural number stand for that number.
pub proof fn lemma_nat_text_value(n: nat)
    ensures
        all_digits(nat_text(n)),
        digits_value(nat_text(n)) == n,
    decreases n,
{
    lemma_nat_text_digits(n);
    if n < 10 {
        assert(nat_text(n).drop_last() =~= Seq::<char>::empty());
        assert(digits_value(nat_text(n).drop_last()) == 0);
    } else {
        lemma_nat_text_value(n / 10);
        assert(nat_text(n).drop_last() =~= nat_text(n / 10));
    }
}

/// Reading undoes writing: the decimal text of a number reads as that number.
pub proof fn lemma_parse_undoes_decimal(n: i64)
    ensures
        i64_of_text(decimal_text(n as int)) == Some(n),
        n >= 0 ==> u64_of_text(decimal_text(n as int)) == Some(n as u64),
{
    let text = decimal_text(n as int);
    if n < 0 {
        let digits = nat_text((-n) as nat);
        lemma_nat_text_value((-n) as nat);
        assert(text[0] == '-');
        assert(text.skip(1) =~= digits);
    } else {
        lemma_nat_text_value(n as nat);
        assert(is_digit(text[0]));
        assert(text.skip(0) =~= text);
    }
}

/// Reads the magnitude of `text` in one pass over its characters.
fn read_magnitude(text: &str, signed: bool) -> (r: Option<u64>)
    ensures
        r == magnitude_of(text@, signed),
{
    let ghost s = text@;
    let ghost lo = sign_len(s, signed);
    let mut acc: u64 = 0;
    let mut first: bool = true;
    let mut seen_digit: bool = false;
    let ghost mut done: int = 0;
    for c in it: text.chars()
        invariant
            it.seq() == s,
            done == it.index(),
            s == text@,
            lo == sign_len(s, signed),
            first <==> it.index() == 0,
            seen_digit <==> it.index() > lo,
            it.index() > 0 ==> it.index() >= lo,
            it.index() >= lo ==> all_digits(s.subrange(lo, it.index() as int)),
            it.index() >= lo ==> acc == digits_value(s.subrange(lo, it.index() as int)),
            it.index() < lo ==> acc == 0,
    {
        let ghost k = it.index() as int;
        assert(c == s[k]);
        proof {
            done = k + 1;
        }
        if first && (c == '+' || (signed && c == '-')) {
            first = false;
            assert(s.subrange(lo, k + 1) =~= Seq::<char>::empty());
        } else {
            first = false;
            let ghost before = s.subrange(lo, k);
            let ghost after = s.subrange(lo, k + 1);
            assert(after.drop_last() =~= before);
            assert(after.last() == c);
            if !('0' <= c && c <= '9') {
                proof {
                    let digits = s.skip(lo);
                    assert(digits[k - lo] == c);
                }
                return None;
            }
            let d: u64 = (c as u32 - '0' as u32) as u64;
            assert(d == digit_value(c));
            let widened: Option<u64> = match acc.checked_mul(10) {
                Some(tens) => tens.checked_add(d),
                None => None,
            };
            match widened {
                Some(next) => {
                    acc = next;
                    seen_digit = true;
                    assert forall|i: int| 0 <= i < after.len() implies is_digit(
                        #[trigger] after[i],
                    ) by {
                        if i < before.len() {
                            assert(after[i] == before[i]);
                        }
                    }
                },
                None => {
                    proof {
                        let digits = s.skip(lo);
                        assert(digits_value(after) > u64::MAX);
                        if all_digits(digits) {
                            lemma_digits_value_prefix(digits, k + 1 - lo);
                            assert(digits.take(k + 1 - lo) =~= after);
                        }
                    }
                    return None;
                },
            }
        }
    }
    proof {
        assert(done == s.len());
        if done >= lo {
            assert(s.subrange(lo, s.len() as int) =~= s.skip(lo));
        }
    }
    if seen_digit {
        Some(acc)
    } else {
        None
    }
}

/// Reads an unsigned decimal number: an optional plus sign and digits, nothing
/// before, between or after them. `None` where the text is anything else or
/// the number does not fit.
pub fn parse_u64(text: &str) -> (r: Option<u64>)
    ensures
        r == u64_of_text(text@),
{
    read_magnitude(text, false)
}

/// Reads a signed decimal number: an optional plus or minus sign and digits,
/// nothing before, between or after them. `None` where the text is anything
/// else or the number does not fit.
pub fn parse_i64(text: &str) -> (r: Option<i64>)
    ensures
        r == i64_of_text(text@),
{
    let negative = starts_with_minus(text);
    let mag: Option<u64> = read_magnitude(text, true);
    proof {
        let digits = text@.skip(sign_len(text@, true));
        if all_digits(digits) {
            lemma_digits_value_prefix(digits, digits.len() as int);
        }
    }
    match mag {
        Some(magnitude) => {
            if negative {
                if magnitude <= 9223372036854775807u64 {
                    Some(-(magnitude as i64))
                } else if magnitude == 9223372036854775808u64 {
                    Some(i64::MIN)
                } else {
                    None
                }
            } else if magnitude <= 9223372036854775807u64 {
                Some(magnitude as i64)
            } else {
                None
            }
        },
        None => None,
    }
}

fn starts_with_minus(text: &str) -> (r: bool)
    ensures
        r == (text@.len() > 0 && text@[0] == '-'),
{
    let mut it = text.chars();
    match it.next() {
        Some(c) => c == '-',
        None => false,
    }
}

} // verus!
