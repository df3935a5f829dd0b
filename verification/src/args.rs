//! Reading a mining request from command-line arguments.

use vstd::prelude::*;
use vstd::std_specs::iter::IteratorSpec;

use crate::error::ArgumentError;
use crate::miner::MiningRequest;
use crate::text::decimal;

verus! {

/// The difficulty of a request that names none.
pub const DEFAULT_DIFFICULTY: usize = 1;

/// Whether `c` is one of the characters `0` to `9`.
pub open spec fn is_decimal_digit(c: char) -> bool {
    '0' <= c && c <= '9'
}

/// The number that a decimal digit stands for.
pub open spec fn digit_value(c: char) -> nat
    recommends
        is_decimal_digit(c),
{
    (c as nat - '0' as nat) as nat
}

/// Whether every character of `text` is a decimal digit.
pub open spec fn all_decimal_digits(text: Seq<char>) -> bool {
    forall|i: int| 0 <= i < text.len() ==> is_decimal_digit(#[trigger] text[i])
}

/// The number that a string of decimal digits denotes.
pub open spec fn decimal_value(digits: Seq<char>) -> nat
    decreases digits.len(),
{
    if digits.len() == 0 {
        0
    } else {
        decimal_value(digits.drop_last()) * 10 + digit_value(digits.last())
    }
}

/// A numeral without its leading plus sign, if it has one.
pub open spec fn without_plus_sign(text: Seq<char>) -> Seq<char> {
    if text.len() > 0 && text[0] == '+' {
        text.drop_first()
    } else {
        text
    }
}

/// The difficulty that a text denotes: an optional plus sign, then at least
/// one decimal digit and nothing else, with a value that fits in `usize`.
pub open spec fn difficulty_of(text: Seq<char>) -> Option<usize> {
    let digits = without_plus_sign(text);
    if digits.len() > 0 && all_decimal_digits(digits) && decimal_value(digits) <= usize::MAX {
        Some(decimal_value(digits) as usize)
    } else {
        None
    }
}

/// Whether `parsed` is a request with this data, pattern and difficulty.
pub open spec fn is_request(
    parsed: Result<MiningRequest, ArgumentError>,
    data: Seq<char>,
    pattern: Seq<char>,
    difficulty: usize,
) -> bool {
    &&& parsed matches Ok(request)
    &&& request.data@ == data
    &&& request.pattern@ == pattern
    &&& request.difficulty == difficulty
}

proof fn lemma_decimal_value_step(digits: Seq<char>, read: int)
    requires
        0 <= read < digits.len(),
    ensures
        decimal_value(digits.take(read + 1)) == decimal_value(digits.take(read)) * 10
            + digit_value(digits[read]),
{
    assert(digits.take(read + 1).drop_last() == digits.take(read));
}

proof fn lemma_decimal_value_of_prefix(digits: Seq<char>, read: int)
    requires
        0 <= read <= digits.len(),
    ensures
        decimal_value(digits.take(read)) <= decimal_value(digits),
    decreases digits.len() - read,
{
    if read < digits.len() {
        lemma_decimal_value_step(digits, read);
        lemma_decimal_value_of_prefix(digits, read + 1);
    } else {
        assert(digits.take(read) == digits);
    }
}

proof fn lemma_all_decimal_digits_step(digits: Seq<char>, read: int)
    requires
        0 <= read < digits.len(),
        all_decimal_digits(digits.take(read)),
        is_decimal_digit(digits[read]),
    ensures
        all_decimal_digits(digits.take(read + 1)),
{
    assert forall|i: int| 0 <= i < read + 1 implies is_decimal_digit(
        #[trigger] digits.take(read + 1)[i],
    ) by {
        if i < read {
            assert(digits.take(read + 1)[i] == digits.take(read)[i]);
        }
    }
}

/// The decimal numeral of a number consists of digits and denotes that number.
pub proof fn lemma_decimal_denotes(n: nat)
    ensures
        decimal(n).len() > 0,
        all_decimal_digits(decimal(n)),
        decimal_value(decimal(n)) == n,
    decreases n,
{
    let numeral = decimal(n);
    if n < 10 {
        assert(decimal_value(numeral.drop_last()) == 0);
    } else {
        lemma_decimal_denotes(n / 10);
        assert(numeral.drop_last() == decimal(n / 10));
    }
}

/// A difficulty written out in decimal is read back as itself.
pub proof fn lemma_difficulty_of_decimal(difficulty: usize)
    ensures
        difficulty_of(decimal(difficulty as nat)) == Some(difficulty),
{
    lemma_decimal_denotes(difficulty as nat);
}

/// Reads a difficulty from its decimal numeral.
///
/// A numeral is an optional plus sign and then one or more of the digits `0`
/// to `9`. Anything else is refused: an empty text, a minus sign, blanks,
/// other characters, and a number too large for `usize`.
pub fn parse_difficulty(text: &str) -> (parsed: Option<usize>)
    ensures
        parsed == difficulty_of(text@),
{
    let ghost digits = without_plus_sign(text@);
    let ghost mut read: int = 0;
    let mut rest = text.chars();
    let mut next: Option<char> = rest.next();
    match next {
        Some('+') => {
            next = rest.next();
        },
        _ => {},
    }
    let mut value: usize = 0;
    let mut any_digit = false;
    loop
        invariant
            digits == without_plus_sign(text@),
            0 <= read <= digits.len(),
            any_digit == (read > 0),
            all_decimal_digits(digits.take(read)),
            value == decimal_value(digits.take(read)),
            match next {
                Some(c) => read < digits.len() && digits[read] == c && rest.remaining()
                    == digits.skip(read + 1),
                None => read == digits.len(),
            },
        ensures
            read == digits.len(),
            any_digit == (read > 0),
            all_decimal_digits(digits.take(read)),
            value == decimal_value(digits.take(read)),
        decreases digits.len() - read,
    {
        let c: char = match next {
            Some(c) => c,
            None => {
                break ;
            },
        };
        if !('0' <= c && c <= '9') {
            return None;
        }
        proof {
            lemma_decimal_value_step(digits, read);
            lemma_decimal_value_of_prefix(digits, read + 1);
            lemma_all_decimal_digits_step(digits, read);
        }
        let digit: usize = (c as u32 - '0' as u32) as usize;
        let tens: usize = match value.checked_mul(10) {
            Some(tens) => tens,
            None => {
                return None;
            },
        };
        value = match tens.checked_add(digit) {
            Some(sum) => sum,
            None => {
                return None;
            },
        };
        any_digit = true;
        next = rest.next();
        proof {
            read = read + 1;
        }
    }
    proof {
        assert(digits.take(read) == digits);
    }
    if any_digit {
        Some(value)
    } else {
        None
    }
}

/// Reads a mining request from the arguments of the command line, the
/// program's own name first: then the data, the pattern and, if there is a
/// fourth argument, the difficulty. Without one the difficulty is
/// `DEFAULT_DIFFICULTY`. Arguments after the fourth are ignored.
pub fn parse_arguments(args: &[String]) -> (parsed: Result<MiningRequest, ArgumentError>)
    ensures
        args@.len() < 3 ==> parsed == Err::<MiningRequest, ArgumentError>(
            ArgumentError::MissingArguments,
        ),
        args@.len() == 3 ==> is_request(parsed, args@[1]@, args@[2]@, DEFAULT_DIFFICULTY),
        args@.len() > 3 && difficulty_of(args@[3]@) is Some ==> is_request(
            parsed,
            args@[1]@,
            args@[2]@,
            difficulty_of(args@[3]@)->0,
        ),
        args@.len() > 3 && difficulty_of(args@[3]@) is None ==> parsed == Err::<
            MiningRequest,
            ArgumentError,
        >(ArgumentError::InvalidDifficulty),
{
    if args.len() < 3 {
        return Err(ArgumentError::MissingArguments);
    }
    let difficulty: usize = if args.len() > 3 {
        match parse_difficulty(args[3].as_str()) {
            Some(difficulty) => difficulty,
            None => {
                return Err(ArgumentError::InvalidDifficulty);
            },
        }
    } else {
        DEFAULT_DIFFICULTY
    };
    Ok(MiningRequest { data: args[1].clone(), pattern: args[2].clone(), difficulty })
}

} // verus!
