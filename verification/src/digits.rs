//! Decimal digits: what a run of ASCII digits denotes, and how a number is
//! written down.

use vstd::prelude::*;
use vstd::string::*;
use vstd::utf8::is_ascii_chars;

verus! {

/// The ASCII code of the digit `0`.
pub const ASCII_ZERO: u8 = 48;

/// The ASCII code of the digit `9`.
pub const ASCII_NINE: u8 = 57;

/// The ASCII code of the plus sign.
pub const ASCII_PLUS: u8 = 43;

/// `c` is one of the ASCII characters `0` to `9`.
pub open spec fn is_digit(c: char) -> bool {
    '0' <= c <= '9'
}

/// The number that the digit `c` stands for.
pub open spec fn digit_value(c: char) -> nat
    recommends
        is_digit(c),
{
    (c as int - '0' as int) as nat
}

/// The character that writes the digit `d`.
pub open spec fn digit_char(d: nat) -> char
    recommends
        d < 10,
{
    ('0' as int + d) as char
}

/// Every character of `s` is an ASCII digit.
pub open spec fn all_digits(s: Seq<char>) -> bool {
    forall|i: int| 0 <= i < s.len() ==> is_digit(#[trigger] s[i])
}

/// The number that the digits of `s` denote in base ten; the empty sequence
/// denotes zero.
pub open spec fn decimal_value(s: Seq<char>) -> nat
    decreases s.len(),
{
    if s.len() == 0 {
        0
    } else {
        10 * decimal_value(s.drop_last()) + digit_value(s.last())
    }
}

/// The shortest way of writing `n` in base ten.
pub open spec fn decimal_text(n: nat) -> Seq<char>
    decreases n,
{
    if n < 10 {
        seq![digit_char(n)]
    } else {
        decimal_text(n / 10).push(digit_char(n % 10))
    }
}

/// `n` written with exactly `width` digits, the most significant first. Digits
/// of `n` beyond `width` are cut off.
pub open spec fn fixed_text(n: nat, width: nat) -> Seq<char>
    decreases width,
{
    if width == 0 {
        Seq::empty()
    } else {
        fixed_text(n / 10, (width - 1) as nat).push(digit_char(n % 10))
    }
}

/// Ten to the power `k`.
pub open spec fn pow10(k: nat) -> nat
    decreases k,
{
    if k == 0 {
        1
    } else {
        10 * pow10((k - 1) as nat)
    }
}

/// The shortest decimal text of a number consists of digits and denotes that
/// number.
pub proof fn lemma_decimal_text_value(n: nat)
    ensures
        decimal_text(n).len() >= 1,
        all_digits(decimal_text(n)),
        decimal_value(decimal_text(n)) == n,
    decreases n,
{
    if n < 10 {
        assert(decimal_value(decimal_text(n).drop_last()) == 0);
    } else {
        lemma_decimal_text_value(n / 10);
        assert(decimal_text(n).drop_last() =~= decimal_text(n / 10));
    }
}

/// A fixed-width text has the asked width, consists of digits, and denotes
/// the number it was made from whenever that number fits the width.
pub proof fn lemma_fixed_text_value(n: nat, width: nat)
    ensures
        fixed_text(n, width).len() == width,
        all_digits(fixed_text(n, width)),
        decimal_value(fixed_text(n, width)) == n % pow10(width),
    decreases width,
{
    if width == 0 {
    } else {
        let w = (width - 1) as nat;
        lemma_fixed_text_value(n / 10, w);
        assert(fixed_text(n, width).drop_last() =~= fixed_text(n / 10, w));
        lemma_pow10_positive(w);
        lemma_mod_by_tens(n, pow10(w));
    }
}

/// Powers of ten are positive.
pub proof fn lemma_pow10_positive(k: nat)
    ensures
        pow10(k) > 0,
    decreases k,
{
    if k > 0 {
        lemma_pow10_positive((k - 1) as nat);
    }
}

/// Cutting a number to its last digits can be done one digit at a time.
proof fn lemma_mod_by_tens(n: nat, p: nat)
    by (nonlinear_arith)
    requires
        p > 0,
    ensures
        10 * ((n / 10) % p) + n % 10 == n % (10 * p),
{
    let q = (n / 10) / p;
    let r = (n / 10) % p;
    assert((q * (10 * p) + (10 * r + n % 10)) % (10 * p) == 10 * r + n % 10) by {
        vstd::arithmetic::div_mod::lemma_fundamental_div_mod_converse(
            n as int,
            (10 * p) as int,
            q as int,
            (10 * r + n % 10) as int,
        );
    }
}

/// The digits of an unsigned decimal numeral: the text itself, without one
/// leading plus sign if it has one.
pub open spec fn numeral_digits(s: Seq<char>) -> Seq<char> {
    if s.len() > 0 && s[0] == '+' {
        s.drop_first()
    } else {
        s
    }
}

/// The number that `s` denotes as an unsigned decimal numeral that fits in 64
/// bits: an optional plus sign followed by one digit or more and nothing else.
/// Everything else denotes nothing.
pub open spec fn numeral_value(s: Seq<char>) -> Option<nat> {
    let d = numeral_digits(s);
    if d.len() > 0 && all_digits(d) && decimal_value(d) <= u64::MAX {
        Some(decimal_value(d))
    } else {
        None
    }
}

/// A number is at least what any of the beginnings of its text denotes.
pub proof fn lemma_decimal_value_prefix(s: Seq<char>, k: int)
    requires
        0 <= k <= s.len(),
    ensures
        decimal_value(s.take(k)) <= decimal_value(s),
    decreases s.len(),
{
    if k == s.len() {
        assert(s.take(k) =~= s);
    } else {
        lemma_decimal_value_prefix(s.drop_last(), k);
        assert(s.drop_last().take(k) =~= s.take(k));
    }
}

/// Reading one more digit multiplies by ten and adds the digit.
pub proof fn lemma_decimal_value_step(s: Seq<char>, k: int)
    requires
        0 <= k < s.len(),
    ensures
        decimal_value(s.take(k + 1)) == 10 * decimal_value(s.take(k)) + digit_value(s[k]),
{
    assert(s.take(k + 1).drop_last() =~= s.take(k));
}

/// Digits are ASCII characters.
proof fn lemma_digits_are_ascii(s: Seq<char>)
    requires
        all_digits(s),
    ensures
        is_ascii_chars(s),
{
    assert forall|i: int| 0 <= i < s.len() implies '\0' <= #[trigger] s[i] <= '\u{7f}' by {
        assert(is_digit(s[i]));
    }
}

/// A numeral consists of ASCII characters.
proof fn lemma_numeral_is_ascii(s: Seq<char>)
    requires
        numeral_value(s) is Some,
    ensures
        is_ascii_chars(s),
{
    let d = numeral_digits(s);
    assert forall|i: int| 0 <= i < s.len() implies '\0' <= #[trigger] s[i] <= '\u{7f}' by {
        if d.len() == s.len() {
            assert(is_digit(d[i]));
        } else if i > 0 {
            assert(is_digit(d[i - 1]));
        }
    }
}

/// The bytes of an ASCII text: one for each character, holding its code.
fn ascii_bytes(text: &str) -> (bytes: &[u8])
    requires
        is_ascii_chars(text@),
    ensures
        bytes@.len() == text@.len(),
        forall|k: int| 0 <= k < text@.len() ==> #[trigger] bytes@[k] == text@[k] as int,
{
    proof {
        is_ascii_spec_bytes(text);
    }
    let bytes = text.as_bytes();
    assert forall|k: int| 0 <= k < text@.len() implies #[trigger] bytes@[k] == text@[k] as int by {
        assert('\0' <= text@[k] <= '\u{7f}');
    }
    bytes
}

/// Tells whether `text` consists of ASCII digits only. The empty text does.
pub fn is_all_digits(text: &str) -> (res: bool)
    ensures
        res == all_digits(text@),
{
    if !text.is_ascii() {
        proof {
            if all_digits(text@) {
                lemma_digits_are_ascii(text@);
            }
        }
        return false;
    }
    let bytes = ascii_bytes(text);
    let mut i: usize = 0;
    while i < bytes.len()
        invariant
            i <= bytes.len(),
            bytes@.len() == text@.len(),
            forall|k: int| 0 <= k < text@.len() ==> #[trigger] bytes@[k] == text@[k] as int,
            forall|k: int| 0 <= k < i ==> is_digit(#[trigger] text@[k]),
        decreases bytes.len() - i,
    {
        let b = bytes[i];
        if b < ASCII_ZERO || b > ASCII_NINE {
            return false;
        }
        i += 1;
    }
    true
}

/// Reads an unsigned decimal numeral: an optional plus sign, then digits.
/// Returns the number, or `None` where the text is no such numeral or the
/// number does not fit in 64 bits.
pub fn parse_unsigned(text: &str) -> (res: Option<u64>)
    ensures
        match res {
            Some(n) => numeral_value(text@) == Some(n as nat),
            None => numeral_value(text@) is None,
        },
{
    if !text.is_ascii() {
        proof {
            if numeral_value(text@) is Some {
                lemma_numeral_is_ascii(text@);
            }
        }
        return None;
    }
    let bytes = ascii_bytes(text);
    let n = bytes.len();
    let start: usize = if n > 0 && bytes[0] == ASCII_PLUS {
        1
    } else {
        0
    };
    let ghost d = numeral_digits(text@);
    if start == n {
        return None;
    }
    let mut acc: u64 = 0;
    let mut i: usize = start;
    while i < n
        invariant
            start <= i <= n,
            n == text@.len(),
            bytes@.len() == text@.len(),
            forall|k: int| 0 <= k < text@.len() ==> #[trigger] bytes@[k] == text@[k] as int,
            d == text@.subrange(start as int, n as int),
            d == numeral_digits(text@),
            all_digits(d.take(i - start)),
            acc == decimal_value(d.take(i - start)),
        decreases n - i,
    {
        let b = bytes[i];
        let ghost j = i - start;
        if b < ASCII_ZERO || b > ASCII_NINE {
            assert(!is_digit(d[j]));
            return None;
        }
        proof {
            lemma_decimal_value_step(d, j);
            lemma_decimal_value_prefix(d, j + 1);
        }
        let digit = (b - ASCII_ZERO) as u64;
        let shifted = match acc.checked_mul(10) {
            Some(v) => v,
            None => {
                return None;
            },
        };
        acc = match shifted.checked_add(digit) {
            Some(v) => v,
            None => {
                return None;
            },
        };
        assert forall|k: int| 0 <= k <= j implies is_digit(#[trigger] d.take(j + 1)[k]) by {
            if k < j {
                assert(is_digit(d.take(j)[k]));
            }
        }
        i += 1;
    }
    assert(d.take(i - start) =~= d);
    Some(acc)
}

/// The one-character text of the digit `d`.
fn digit_str(d: u8) -> (res: &'static str)
    requires
        d < 10,
    ensures
        res@ == seq![digit_char(d as nat)],
{
    proof {
        reveal_strlit("0");
        reveal_strlit("1");
        reveal_strlit("2");
        reveal_strlit("3");
        reveal_strlit("4");
        reveal_strlit("5");
        reveal_strlit("6");
        reveal_strlit("7");
        reveal_strlit("8");
        reveal_strlit("9");
    }
    match d {
        0 => "0",
        1 => "1",
        2 => "2",
        3 => "3",
        4 => "4",
        5 => "5",
        6 => "6",
        7 => "7",
        8 => "8",
        _ => "9",
    }
}

/// Writes `n` in base ten with as few digits as it takes.
pub fn decimal_string(n: u128) -> (res: String)
    ensures
        res@ == decimal_text(n as nat),
    decreases n,
{
    let last = digit_str((n % 10) as u8);
    if n < 10 {
        last.to_owned()
    } else {
        decimal_string(n / 10).concat(last)
    }
}

} // verus!
