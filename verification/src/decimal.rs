//! Decimal text for 128-bit unsigned integers: the form in which they cross
//! the boundary, where common interchange formats would lose precision.

use crate::error::ProtocolError;
use vstd::prelude::*;
use vstd::string::*;

verus! {

/// An ASCII decimal digit.
pub open spec fn is_digit(c: char) -> bool {
    '0' <= c && c <= '9'
}

/// The number a digit stands for; zero for any other character.
pub open spec fn digit_value(c: char) -> nat {
    if is_digit(c) {
        (c as nat - '0' as nat) as nat
    } else {
        0
    }
}

/// The digit that stands for `d`, for `d` below ten.
pub open spec fn digit_char(d: nat) -> char {
    (48 + d) as char
}

/// Every character is a digit.
pub open spec fn all_digits(text: Seq<char>) -> bool {
    forall|i: int| 0 <= i < text.len() ==> is_digit(#[trigger] text[i])
}

/// The number that a run of digits denotes, most significant digit first.
pub open spec fn digits_value(digits: Seq<char>) -> nat
    decreases digits.len(),
{
    if digits.len() == 0 {
        0
    } else {
        10 * digits_value(digits.drop_last()) + digit_value(digits.last())
    }
}

/// The text without the one `+` that may lead it.
pub open spec fn unsigned_part(text: Seq<char>) -> Seq<char> {
    if text.len() > 0 && text[0] == '+' {
        text.drop_first()
    } else {
        text
    }
}

/// What `text` parses to: an optional `+`, then one or more digits whose
/// value fits in 128 bits. Leading zeros are accepted; a sign alone, an
/// empty text, a `-`, blanks and any other character are not.
pub open spec fn parsed_decimal(text: Seq<char>) -> Result<u128, ProtocolError> {
    let digits = unsigned_part(text);
    if digits.len() > 0 && all_digits(digits) && digits_value(digits) <= u128::MAX {
        Ok(digits_value(digits) as u128)
    } else {
        Err(ProtocolError::InvalidNumericInput)
    }
}

/// The shortest decimal text of `n`: no sign, no leading zero but for zero
/// itself.
pub open spec fn decimal_text(n: nat) -> Seq<char>
    decreases n,
{
    if n < 10 {
        seq![digit_char(n)]
    } else {
        decimal_text(n / 10).push(digit_char(n % 10))
    }
}

/// A run of digits denotes at least what any of its prefixes denotes.
proof fn lemma_prefix_value(digits: Seq<char>, k: int)
    requires
        0 <= k <= digits.len(),
    ensures
        digits_value(digits.take(k)) <= digits_value(digits),
    decreases digits.len() - k,
{
    if k == digits.len() {
        assert(digits.take(k) =~= digits);
    } else {
        lemma_prefix_value(digits, k + 1);
        assert(digits.take(k + 1).drop_last() =~= digits.take(k));
    }
}

/// The value of a run extended by one character.
proof fn lemma_value_step(digits: Seq<char>, k: int)
    requires
        0 <= k < digits.len(),
    ensures
        digits_value(digits.take(k + 1)) == 10 * digits_value(digits.take(k)) + digit_value(
            digits[k],
        ),
{
    assert(digits.take(k + 1).drop_last() =~= digits.take(k));
}

/// Parses decimal text into a 128-bit unsigned integer.
///
/// Accepts what `parsed_decimal` describes and answers everything else,
/// overflow included, with `InvalidNumericInput`.
pub fn parse_u128(text: &str) -> (r: Result<u128, ProtocolError>)
    ensures
        r == parsed_decimal(text@),
{
    broadcast use is_ascii_spec_bytes;

    let ghost digits = unsigned_part(text@);
    if !text.is_ascii() {
        proof {
            let i = choose|i: int|
                0 <= i < text@.len() && !('\0' <= #[trigger] text@[i] && text@[i] <= '\u{7f}');
            if i == 0 {
                assert(!is_digit(digits[0]));
            } else {
                assert(!is_digit(text@[i]));
                if text@[0] == '+' {
                    assert(digits[i - 1] == text@[i]);
                }
            }
        }
        return Err(ProtocolError::InvalidNumericInput);
    }
    let bytes = text.as_bytes();
    let n = bytes.len();
    assert(n == text@.len());
    assert(forall|i: int| 0 <= i < n ==> bytes@[i] == text@[i] as u8);
    let start: usize = if n > 0 && bytes[0] == 43u8 {
        1
    } else {
        0
    };
    assert(digits =~= text@.subrange(start as int, n as int));
    if start == n {
        return Err(ProtocolError::InvalidNumericInput);
    }
    let mut value: u128 = 0;
    let mut i: usize = start;
    assert(digits.take(0) =~= Seq::<char>::empty());
    while i < n
        invariant
            start <= i <= n,
            n == text@.len(),
            n == bytes@.len(),
            digits == unsigned_part(text@),
            digits == text@.subrange(start as int, n as int),
            forall|k: int| 0 <= k < n ==> bytes@[k] == text@[k] as u8,
            forall|k: int| 0 <= k < n ==> '\0' <= #[trigger] text@[k] <= '\u{7f}',
            all_digits(digits.take(i - start)),
            value == digits_value(digits.take(i - start)),
        decreases n - i,
    {
        let b = bytes[i];
        let ghost c = text@[i as int];
        assert(c == digits[i - start]);
        assert(b == c as u8);
        if b < 48u8 || b > 57u8 {
            assert(!is_digit(digits[i - start]));
            return Err(ProtocolError::InvalidNumericInput);
        }
        assert(is_digit(c));
        let d: u128 = (b - 48u8) as u128;
        assert(d == digit_value(c));
        proof {
            lemma_value_step(digits, i - start);
            lemma_prefix_value(digits, i - start + 1);
        }
        let scaled = match value.checked_mul(10) {
            Some(scaled) => scaled,
            None => {
                assert(digits_value(digits) > u128::MAX);
                return Err(ProtocolError::InvalidNumericInput);
            },
        };
        value = match scaled.checked_add(d) {
            Some(sum) => sum,
            None => {
                assert(digits_value(digits) > u128::MAX);
                return Err(ProtocolError::InvalidNumericInput);
            },
        };
        assert forall|k: int| 0 <= k < i + 1 - start implies is_digit(
            #[trigger] digits.take(i + 1 - start)[k],
        ) by {
            if k < i - start {
                assert(digits.take(i - start)[k] == digits[k]);
            }
        }
        i += 1;
    }
    assert(digits.take(n - start) =~= digits);
    Ok(value)
}

/// The one-character text of a digit.
fn digit_text(d: u8) -> (text: &'static str)
    requires
        d < 10,
    ensures
        text@ == seq![digit_char(d as nat)],
{
    let text = if d == 0 {
        proof { reveal_strlit("0"); }
        "0"
    } else if d == 1 {
        proof { reveal_strlit("1"); }
        "1"
    } else if d == 2 {
        proof { reveal_strlit("2"); }
        "2"
    } else if d == 3 {
        proof { reveal_strlit("3"); }
        "3"
    } else if d == 4 {
        proof { reveal_strlit("4"); }
        "4"
    } else if d == 5 {
        proof { reveal_strlit("5"); }
        "5"
    } else if d == 6 {
        proof { reveal_strlit("6"); }
        "6"
    } else if d == 7 {
        proof { reveal_strlit("7"); }
        "7"
    } else if d == 8 {
        proof { reveal_strlit("8"); }
        "8"
    } else {
        proof { reveal_strlit("9"); }
        "9"
    };
    assert(text@ =~= seq![digit_char(d as nat)]);
    text
}

/// Appends the decimal text of `value` to `out`.
fn push_decimal(value: u128, out: &mut String)
    ensures
        final(out)@ == old(out)@ + decimal_text(value as nat),
    decreases value,
{
    if value >= 10 {
        push_decimal(value / 10, out);
    }
    out.append(digit_text((value % 10) as u8));
    assert(out@ =~= old(out)@ + decimal_text(value as nat));
}

/// Writes a 128-bit unsigned integer as decimal text, without loss.
pub fn format_u128(value: u128) -> (text: String)
    ensures
        text@ == decimal_text(value as nat),
{
    let mut text = String::new();
    push_decimal(value, &mut text);
    assert(text@ =~= decimal_text(value as nat));
    text
}

/// The decimal text of a number is a non-empty run of digits that denotes
/// the number.
pub proof fn lemma_decimal_text_denotes(n: nat)
    ensures
        decimal_text(n).len() > 0,
        all_digits(decimal_text(n)),
        digits_value(decimal_text(n)) == n,
    decreases n,
{
    if n < 10 {
        let text = decimal_text(n);
        assert(text.drop_last() =~= Seq::<char>::empty());
        assert(digits_value(text.drop_last()) == 0);
        assert(is_digit(text[0]));
    } else {
        lemma_decimal_text_denotes(n / 10);
        let head = decimal_text(n / 10);
        let text = head.push(digit_char(n % 10));
        assert(text.drop_last() =~= head);
        assert(is_digit(digit_char(n % 10)));
        assert forall|i: int| 0 <= i < text.len() implies is_digit(#[trigger] text[i]) by {
            if i < head.len() {
                assert(text[i] == head[i]);
            }
        }
    }
}

/// Round trip: every 128-bit value, the largest included, comes back from
/// its decimal text unchanged.
pub proof fn lemma_decimal_round_trip(value: u128)
    ensures
        parsed_decimal(decimal_text(value as nat)) == Ok::<u128, ProtocolError>(value),
{
    lemma_decimal_text_denotes(value as nat);
    let text = decimal_text(value as nat);
    assert(is_digit(text[0]));
}

} // verus!
