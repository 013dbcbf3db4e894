//! The grammar of explicit timestamps: digits only, in one of three lengths,
//! the shorter ones completed from the current year.

use crate::error::TimeError;
use vstd::prelude::*;
use vstd::string::*;

verus! {

/// The most characters a timestamp may have.
pub const MAX_STAMP_CHARS: usize = 14;

/// Whether the character is an ASCII decimal digit.
pub open spec fn is_digit(c: char) -> bool {
    '0' <= c <= '9'
}

/// Whether the text is made of ASCII decimal digits alone.
pub open spec fn all_digits(text: Seq<char>) -> bool {
    forall|i: int| 0 <= i < text.len() ==> is_digit(#[trigger] text[i])
}

/// The character of one decimal digit.
pub open spec fn digit_char(digit: int) -> char {
    if digit == 0 {
        '0'
    } else if digit == 1 {
        '1'
    } else if digit == 2 {
        '2'
    } else if digit == 3 {
        '3'
    } else if digit == 4 {
        '4'
    } else if digit == 5 {
        '5'
    } else if digit == 6 {
        '6'
    } else if digit == 7 {
        '7'
    } else if digit == 8 {
        '8'
    } else {
        '9'
    }
}

/// A natural number in decimal, without leading zeros.
pub open spec fn decimal_digits(n: nat) -> Seq<char>
    decreases n,
{
    if n < 10 {
        seq![digit_char(n as int)]
    } else {
        decimal_digits(n / 10).push(digit_char((n % 10) as int))
    }
}

/// An integer in decimal, with a minus sign where it is negative.
pub open spec fn decimal(n: int) -> Seq<char> {
    if n < 0 {
        seq!['-'] + decimal_digits((-n) as nat)
    } else {
        decimal_digits(n as nat)
    }
}

/// The century of a year: the year divided by 100, rounded toward zero.
pub open spec fn century_of(year: int) -> int {
    if year >= 0 {
        year / 100
    } else {
        -((-year) / 100)
    }
}

/// The rules on the shape of a timestamp, in order: digits only, then at
/// most `MAX_STAMP_CHARS` of them, then 12, 10 or 8.
pub open spec fn stamp_shape(stamp: Seq<char>) -> Result<(), TimeError> {
    if !all_digits(stamp) {
        Err(TimeError::InvalidTimestampFormat)
    } else if stamp.len() > MAX_STAMP_CHARS {
        Err(TimeError::TimestampTooLong)
    } else if stamp.len() == 12 || stamp.len() == 10 || stamp.len() == 8 {
        Ok(())
    } else {
        Err(TimeError::InvalidTimestampFormat)
    }
}

/// The timestamp completed to year, month, day, hour and minute: as it is
/// where it has 12 digits, behind the current century where it has 10, and
/// behind the current year where it has 8.
pub open spec fn completed_stamp(stamp: Seq<char>, current_year: int) -> Result<
    Seq<char>,
    TimeError,
> {
    match stamp_shape(stamp) {
        Err(e) => Err(e),
        Ok(_) => if stamp.len() == 12 {
            Ok(stamp)
        } else if stamp.len() == 10 {
            Ok(decimal(century_of(current_year)) + stamp)
        } else {
            Ok(decimal(current_year) + stamp)
        },
    }
}

/// Whether the text is made of ASCII decimal digits alone.
pub fn is_all_digits(text: &str) -> (digits: bool)
    ensures
        digits == all_digits(text@),
{
    if !text.is_ascii() {
        proof {
            let i = choose|i: int|
                0 <= i < text@.len() && !('\0' <= #[trigger] text@[i] <= '\u{7f}');
            assert(!is_digit(text@[i]));
        }
        return false;
    }
    let bytes = text.as_bytes();
    proof {
        is_ascii_spec_bytes(text);
        assert forall|k: int| 0 <= k < text@.len() implies bytes@[k] as int == #[trigger] text@[k]
            as int by {
            assert('\0' <= text@[k] <= '\u{7f}');
        }
    }
    let mut i: usize = 0;
    while i < bytes.len()
        invariant
            i <= bytes@.len(),
            bytes@.len() == text@.len(),
            forall|k: int| 0 <= k < text@.len() ==> bytes@[k] as int == #[trigger] text@[k] as int,
            forall|k: int| 0 <= k < i ==> is_digit(#[trigger] text@[k]),
        decreases bytes@.len() - i,
    {
        let byte: u8 = bytes[i];
        if byte < 48 || byte > 57 {
            assert(!is_digit(text@[i as int]));
            return false;
        }
        assert(is_digit(text@[i as int]));
        i += 1;
    }
    true
}

/// The text of one decimal digit.
fn digit_text(digit: u32) -> (text: &'static str)
    requires
        digit < 10,
    ensures
        text@ == seq![digit_char(digit as int)],
{
    proof {
        reveal_strlit("0");
        reveal_strlit("1");
        reveal_strlit("2");
        reveal_strlit("3");
        reveal_strlit("4");
        reveal_strlit("5");
        reveal_strlit("6");
        reveal_strlit("7");
        reveal_strlit("8");
        reveal_strlit("9");
    }
    let text = if digit == 0 {
        "0"
    } else if digit == 1 {
        "1"
    } else if digit == 2 {
        "2"
    } else if digit == 3 {
        "3"
    } else if digit == 4 {
        "4"
    } else if digit == 5 {
        "5"
    } else if digit == 6 {
        "6"
    } else if digit == 7 {
        "7"
    } else if digit == 8 {
        "8"
    } else {
        "9"
    };
    assert(text@ =~= seq![digit_char(digit as int)]);
    text
}

/// Writes a natural number in decimal behind the text.
fn append_digits(text: String, n: u32) -> (longer: String)
    ensures
        longer@ == text@ + decimal_digits(n as nat),
    decreases n,
{
    if n < 10 {
        let longer = text.concat(digit_text(n));
        longer
    } else {
        let front = append_digits(text, n / 10);
        let longer = front.concat(digit_text(n % 10));
        assert(longer@ =~= text@ + decimal_digits(n as nat));
        longer
    }
}

/// Writes an integer in decimal.
pub fn render_decimal(n: i32) -> (text: String)
    ensures
        text@ == decimal(n as int),
{
    if n < 0 {
        proof {
            reveal_strlit("-");
        }
        let magnitude: u32 = (-(n as i64)) as u32;
        let text = append_digits(String::from_str("-"), magnitude);
        assert(text@ =~= decimal(n as int));
        text
    } else {
        let text = append_digits(String::new(), n as u32);
        assert(text@ =~= decimal(n as int));
        text
    }
}

/// The century of a year.
pub fn century(year: i32) -> (century: i32)
    ensures
        century == century_of(year as int),
{
    if year >= 0 {
        year / 100
    } else {
        let magnitude: i64 = -(year as i64);
        (-(magnitude / 100)) as i32
    }
}

/// Applies the shape rules to a timestamp, in their order.
pub fn check_shape(stamp: &str) -> (verdict: Result<(), TimeError>)
    ensures
        verdict == stamp_shape(stamp@),
{
    if !is_all_digits(stamp) {
        return Err(TimeError::InvalidTimestampFormat);
    }
    let length = stamp.unicode_len();
    if length > MAX_STAMP_CHARS {
        Err(TimeError::TimestampTooLong)
    } else if length == 12 || length == 10 || length == 8 {
        Ok(())
    } else {
        Err(TimeError::InvalidTimestampFormat)
    }
}

/// Checks the shape of a timestamp and completes it to twelve digits and
/// more from the current year.
pub fn complete_stamp(stamp: &str, current_year: i32) -> (completed: Result<String, TimeError>)
    ensures
        match completed {
            Ok(text) => completed_stamp(stamp@, current_year as int) == Ok::<
                Seq<char>,
                TimeError,
            >(text@),
            Err(e) => completed_stamp(stamp@, current_year as int) == Err::<Seq<char>, TimeError>(
                e,
            ),
        },
{
    match check_shape(stamp) {
        Err(e) => {
            return Err(e);
        },
        Ok(_) => {},
    }
    let length = stamp.unicode_len();
    if length == 12 {
        Ok(stamp.to_owned())
    } else if length == 10 {
        Ok(render_decimal(century(current_year)).concat(stamp))
    } else {
        Ok(render_decimal(current_year).concat(stamp))
    }
}

} // verus!
