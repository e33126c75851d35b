//! Reading command line arguments.
use vstd::prelude::*;
use vstd::string::StringExecFns;

verus! {

/// The texts of a list of arguments.
pub open spec fn texts(arguments: Seq<String>) -> Seq<Seq<char>> {
    arguments.map_values(|argument: String| argument@)
}

/// Whether `letter` is an ASCII digit.
pub open spec fn is_digit(letter: char) -> bool {
    '0' <= letter <= '9'
}

/// The number that a sequence of digits denotes in base ten.
pub open spec fn digits_value(digits: Seq<char>) -> nat
    decreases digits.len(),
{
    if digits.len() == 0 {
        0
    } else {
        (10 * digits_value(digits.drop_last()) + (digits.last() as int - '0' as int)) as nat
    }
}

/// `text` without the plus sign that it may start with.
pub open spec fn unsigned_part(text: Seq<char>) -> Seq<char> {
    if text.len() > 0 && text[0] == '+' {
        text.skip(1)
    } else {
        text
    }
}

/// The number that `text` denotes: an optional plus sign, then digits, at least one, and
/// nothing else.
pub open spec fn decimal_value(text: Seq<char>) -> Option<nat> {
    let digits = unsigned_part(text);
    if digits.len() > 0 && forall|i: int| 0 <= i < digits.len() ==> is_digit(#[trigger] digits[i]) {
        Some(digits_value(digits))
    } else {
        None
    }
}

/// The number that `text` denotes, if it is at most `limit`.
pub open spec fn decimal_up_to(text: Seq<char>, limit: nat) -> Option<nat> {
    match decimal_value(text) {
        Some(value) if value <= limit => Some(value),
        _ => None,
    }
}

/// Whether the argument is `text`.
pub fn is_text(argument: &String, text: &str) -> (same: bool)
    ensures
        same == (argument@ == text@),
{
    *argument == text.to_owned()
}

/// `prefix` followed by `value`.
pub fn complaint(prefix: &str, value: &String) -> (message: String)
    ensures
        message@ == prefix@ + value@,
{
    let mut message = prefix.to_owned();
    message.append(value.as_str());
    message
}

proof fn longer_is_larger(digits: Seq<char>, length: int)
    requires
        0 <= length <= digits.len(),
        forall|i: int| 0 <= i < digits.len() ==> is_digit(#[trigger] digits[i]),
    ensures
        digits_value(digits.take(length)) <= digits_value(digits),
    decreases digits.len() - length,
{
    if length < digits.len() {
        longer_is_larger(digits, length + 1);
        assert(digits.take(length + 1).drop_last() =~= digits.take(length));
        assert(digits.take(length + 1).last() == digits[length]);
    } else {
        assert(digits.take(length) =~= digits);
    }
}

/// The characters of `text`.
fn letters_of(text: &str) -> (letters: Vec<char>)
    ensures
        letters@ == text@,
{
    let mut letters: Vec<char> = Vec::new();
    for letter in source: text.chars()
        invariant
            source.seq() == text@,
            letters@ == text@.take(source.index()),
    {
        letters.push(letter);
        assert(letters@ =~= text@.take(source.index() + 1));
    }
    assert(letters@ =~= text@);
    letters
}

/// Reads a decimal number that fits in 64 bits.
pub fn parse_u64(text: &str) -> (parsed: Option<u64>)
    ensures
        parsed == (match decimal_up_to(text@, u64::MAX as nat) {
            Some(value) => Some(value as u64),
            None => None,
        }),
        match parsed {
            Some(value) => decimal_value(text@) == Some(value as nat),
            None => decimal_value(text@) matches Some(value) ==> value > u64::MAX,
        },
{
    let letters = letters_of(text);
    let start: usize = if letters.len() > 0 && letters[0] == '+' {
        1
    } else {
        0
    };
    if start == letters.len() {
        return None;
    }
    let ghost digits = unsigned_part(text@);
    let mut value: u64 = 0;
    for i in start..letters.len()
        invariant
            letters@ == text@,
            digits == unsigned_part(text@),
            digits == letters@.skip(start as int),
            forall|j: int| 0 <= j < i - start ==> is_digit(#[trigger] digits[j]),
            value == digits_value(digits.take(i - start)),
    {
        let letter: char = letters[i];
        assert(letter == digits[i - start]);
        if letter < '0' || '9' < letter {
            return None;
        }
        let digit: u64 = letter as u64 - '0' as u64;
        let ghost longer = digits.take(i + 1 - start);
        assert(longer.drop_last() =~= digits.take(i - start));
        assert(digits_value(longer) == 10 * value + digit);
        let extended: Option<u64> = match value.checked_mul(10) {
            Some(shifted) => shifted.checked_add(digit),
            None => None,
        };
        match extended {
            Some(extended) => {
                value = extended;
            },
            None => {
                proof {
                    if decimal_value(text@) is Some {
                        longer_is_larger(digits, i + 1 - start);
                    }
                }
                return None;
            },
        }
    }
    assert(digits.take(digits.len() as int) =~= digits);
    Some(value)
}

/// Reads a decimal number that fits in `usize`.
pub fn parse_usize(text: &str) -> (parsed: Option<usize>)
    ensures
        parsed == (match decimal_up_to(text@, usize::MAX as nat) {
            Some(value) => Some(value as usize),
            None => None,
        }),
        match parsed {
            Some(value) => decimal_value(text@) == Some(value as nat),
            None => decimal_value(text@) matches Some(value) ==> value > usize::MAX,
        },
{
    match parse_u64(text) {
        Some(value) => match usize::try_from(value) {
            Ok(value) => Some(value),
            Err(_) => None,
        },
        None => None,
    }
}

/// The texts of a list are those of its arguments, in their order.
pub proof fn texts_are_those_of_the_arguments(arguments: Seq<String>, i: int)
    ensures
        texts(arguments).len() == arguments.len(),
        0 <= i < arguments.len() ==> texts(arguments)[i] == arguments[i]@,
{
}

/// A number is within a limit or is none.
pub proof fn limit_is_exact(text: Seq<char>, limit: nat, value: nat)
    ensures
        decimal_up_to(text, limit) == Some(value) <==> decimal_value(text) == Some(value) && value
            <= limit,
        decimal_up_to(text, limit) is None <==> (decimal_value(text) matches Some(large) ==> large
            > limit),
{
}

/// The digits are the ten letters from code 48 to code 57.
pub proof fn digits_are_the_ten_letters(letter: char)
    ensures
        is_digit(letter) <==> 48 <= letter as int <= 57,
        '0' as int == 48,
{
}

/// A text of one letter denotes a number if the letter is a digit. Nothing, and a sign
/// alone, denote none.
pub proof fn one_letter_denotes_its_digit(letter: char)
    ensures
        48 <= letter as int <= 57 ==> decimal_value(seq![letter]) == Some(
            (letter as int - 48) as nat,
        ),
        !(48 <= letter as int <= 57) ==> decimal_value(seq![letter]) is None,
        decimal_value(Seq::empty()) is None,
{
    let text = seq![letter];
    reveal_with_fuel(digits_value, 3);
    assert(text.drop_last() =~= Seq::<char>::empty());
    if 48 <= letter as int <= 57 {
        assert(unsigned_part(text) == text);
        assert(text[0] == letter);
        assert(text.last() == letter);
        assert(digits_value(text.drop_last()) == 0);
    } else if letter == '+' {
        assert(text.skip(1).len() == 0);
    } else {
        assert(!is_digit(text[0]));
    }
}

/// A digit behind a text that denotes a number shifts that number by one place and takes
/// the last; any other letter behind a text that is not empty leaves no number.
pub proof fn one_more_letter_shifts_the_number(text: Seq<char>, letter: char)
    requires
        text.len() > 0,
    ensures
        decimal_value(text) matches Some(value) ==> {
            &&& 48 <= letter as int <= 57 ==> decimal_value(text.push(letter)) == Some(
                (10 * value + (letter as int - 48)) as nat,
            )
        },
        !(48 <= letter as int <= 57) ==> decimal_value(text.push(letter)) is None,
{
    let longer = text.push(letter);
    let digits = unsigned_part(text);
    let more = unsigned_part(longer);
    assert(longer[0] == text[0]);
    assert(more =~= digits.push(letter));
    assert(more.drop_last() =~= digits);
    assert(more[more.len() - 1] == letter);
    if decimal_value(text) is Some && 48 <= letter as int <= 57 {
        assert forall|i: int| 0 <= i < more.len() implies is_digit(#[trigger] more[i]) by {
            if i < digits.len() {
                assert(more[i] == digits[i]);
            }
        }
    } else if !(48 <= letter as int <= 57) {
        assert(!is_digit(more[more.len() - 1]));
    }
}

/// A text that does not denote a number denotes none with one more letter behind it,
/// unless it is empty or a sign alone.
pub proof fn one_more_letter_mends_nothing(text: Seq<char>, letter: char)
    requires
        decimal_value(text) is None,
        text.len() > 1 || (text.len() == 1 && text[0] != '+'),
    ensures
        decimal_value(text.push(letter)) is None,
{
    let longer = text.push(letter);
    let digits = unsigned_part(text);
    let more = unsigned_part(longer);
    assert(longer[0] == text[0]);
    assert(more =~= digits.push(letter));
    let i = choose|i: int| 0 <= i < digits.len() && !is_digit(#[trigger] digits[i]);
    assert(more[i] == digits[i]);
}

/// One plus sign before a text changes nothing, and a second one leaves no number.
pub proof fn one_plus_sign_changes_nothing(text: Seq<char>)
    ensures
        text.len() > 0 && text[0] != '+' ==> decimal_value(seq!['+'] + text) == decimal_value(text),
        text.len() > 0 && text[0] == '+' ==> decimal_value(seq!['+'] + text) is None,
        decimal_value(seq!['+']) is None,
{
    let signed = seq!['+'] + text;
    assert(signed.skip(1) =~= text);
    if text.len() > 0 {
        assert(text[0] == '+' ==> !is_digit(text[0]));
    }
    one_letter_denotes_its_digit('+');
}

/// The digits of a number in base ten, without leading zeros.
pub open spec fn digits_of(value: nat) -> Seq<char>
    decreases value,
{
    if value < 10 {
        seq![(48 + value) as char]
    } else {
        digits_of(value / 10).push((48 + value % 10) as char)
    }
}

/// Every number is denoted by its digits, alone and behind a plus sign.
pub proof fn digits_denote_their_number(value: nat)
    ensures
        digits_of(value).len() > 0,
        digits_of(value)[0] != '+',
        decimal_value(digits_of(value)) == Some(value),
        decimal_value(seq!['+'] + digits_of(value)) == Some(value),
    decreases value,
{
    if value < 10 {
        one_letter_denotes_its_digit((48 + value) as char);
    } else {
        digits_denote_their_number(value / 10);
        one_more_letter_shifts_the_number(digits_of(value / 10), (48 + value % 10) as char);
        assert(digits_of(value)[0] == digits_of(value / 10)[0]);
    }
    one_plus_sign_changes_nothing(digits_of(value));
}

} // verus!
