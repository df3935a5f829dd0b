//! Text building blocks: the target prefix (a pattern written several times
//! in a row), decimal numerals, and the test whether a text starts with a
//! target prefix.

use vstd::prelude::*;
use vstd::std_specs::iter::IteratorSpec;

verus! {

/// `String::push` appends one character to a string. Trusted: afterwards the
/// string holds what it held before, followed by `c`.
pub assume_specification[ String::push ](text: &mut String, c: char)
    ensures
        final(text)@ == old(text)@.push(c),
;

/// `pattern` written `count` times in a row.
pub open spec fn target_prefix(pattern: Seq<char>, count: nat) -> Seq<char>
    decreases count,
{
    if count == 0 {
        Seq::empty()
    } else {
        target_prefix(pattern, (count - 1) as nat) + pattern
    }
}

/// The character for a single decimal digit.
pub open spec fn decimal_digit(d: nat) -> char
    recommends
        d < 10,
{
    ('0' as nat + d) as char
}

/// The decimal numeral of `n`, without sign, padding or separators.
pub open spec fn decimal(n: nat) -> Seq<char>
    decreases n,
{
    if n < 10 {
        seq![decimal_digit(n)]
    } else {
        decimal(n / 10).push(decimal_digit(n % 10))
    }
}

/// The target prefix is as long as the pattern times the number of repetitions.
pub proof fn lemma_target_prefix_len(pattern: Seq<char>, count: nat)
    ensures
        target_prefix(pattern, count).len() == pattern.len() * count,
    decreases count,
{
    if count == 0 {
        assert(pattern.len() * count == 0) by (nonlinear_arith)
            requires
                count == 0,
        ;
    } else {
        let fewer: nat = (count - 1) as nat;
        lemma_target_prefix_len(pattern, fewer);
        assert(pattern.len() * fewer + pattern.len() == pattern.len() * count)
            by (nonlinear_arith)
            requires
                count == fewer + 1,
        ;
    }
}

/// Writing the pattern fewer times gives a prefix of writing it more times.
pub proof fn lemma_target_prefix_grows(pattern: Seq<char>, fewer: nat, more: nat)
    requires
        fewer <= more,
    ensures
        target_prefix(pattern, fewer).is_prefix_of(target_prefix(pattern, more)),
    decreases more,
{
    if fewer < more {
        lemma_target_prefix_grows(pattern, fewer, (more - 1) as nat);
    }
}

/// Writing the pattern `first + second` times is writing it `first` times and
/// then `second` times: the prefix does not depend on how the repetitions are
/// grouped.
pub proof fn lemma_target_prefix_add(pattern: Seq<char>, first: nat, second: nat)
    ensures
        target_prefix(pattern, first + second) == target_prefix(pattern, first) + target_prefix(
            pattern,
            second,
        ),
    decreases second,
{
    if second == 0 {
        assert(target_prefix(pattern, first) + Seq::<char>::empty() == target_prefix(
            pattern,
            first,
        ));
    } else {
        let fewer: nat = (second - 1) as nat;
        lemma_target_prefix_add(pattern, first, fewer);
        assert((target_prefix(pattern, first) + target_prefix(pattern, fewer)) + pattern
            == target_prefix(pattern, first) + (target_prefix(pattern, fewer) + pattern));
    }
}

/// Appends the decimal numeral of `n` to `text`.
pub fn push_decimal(text: &mut String, n: u64)
    ensures
        final(text)@ == old(text)@ + decimal(n as nat),
    decreases n,
{
    if n >= 10 {
        push_decimal(text, n / 10);
    }
    let digit: u8 = (n % 10) as u8;
    text.push(('0' as u8 + digit) as char);
}

/// Builds the target prefix: `pattern` written `difficulty` times in a row.
///
/// The number of characters in the prefix must fit in `usize`.
pub fn build_target_prefix(pattern: &str, difficulty: usize) -> (prefix: String)
    requires
        pattern@.len() * difficulty <= usize::MAX,
    ensures
        prefix@ == target_prefix(pattern@, difficulty as nat),
        prefix@.len() == pattern@.len() * difficulty,
{
    proof {
        lemma_target_prefix_len(pattern@, difficulty as nat);
    }
    let mut prefix = String::new();
    let mut done: usize = 0;
    while done < difficulty
        invariant
            done <= difficulty,
            prefix@ == target_prefix(pattern@, done as nat),
        decreases difficulty - done,
    {
        prefix.append(pattern);
        done = done + 1;
    }
    prefix
}

/// Whether `text` starts with `pattern` written `count` times in a row.
///
/// The repeated pattern is never built: the text is read once, against the
/// pattern over and over, and reading stops where the text ends or differs.
/// So any `count` is in order, however long the prefix would be.
pub fn starts_with_repeated(text: &str, pattern: &str, count: usize) -> (matched: bool)
    ensures
        matched == target_prefix(pattern@, count as nat).is_prefix_of(text@),
{
    if pattern.is_empty() {
        proof {
            lemma_target_prefix_len(pattern@, count as nat);
        }
        return true;
    }
    let mut rest = text.chars();
    let mut done: usize = 0;
    while done < count
        invariant
            done <= count,
            pattern@.len() > 0,
            target_prefix(pattern@, done as nat).is_prefix_of(text@),
            rest.remaining() == text@.skip(target_prefix(pattern@, done as nat).len() as int),
        decreases count - done,
    {
        let ghost base: int = target_prefix(pattern@, done as nat).len() as int;
        let ghost mut seen: int = 0;
        let mut wanted = pattern.chars();
        loop
            invariant
                done < count,
                0 <= seen <= pattern@.len(),
                base == target_prefix(pattern@, done as nat).len(),
                target_prefix(pattern@, done as nat).is_prefix_of(text@),
                base + seen <= text@.len(),
                wanted.remaining() == pattern@.skip(seen),
                rest.remaining() == text@.skip(base + seen),
                text@.subrange(base, base + seen) == pattern@.take(seen),
            ensures
                seen == pattern@.len(),
            decreases pattern@.len() - seen,
        {
            match wanted.next() {
                None => {
                    break ;
                },
                Some(expected) => {
                    proof {
                        // The next repetition lies within the whole prefix.
                        lemma_target_prefix_grows(pattern@, (done + 1) as nat, count as nat);
                        lemma_target_prefix_len(pattern@, (done + 1) as nat);
                    }
                    match rest.next() {
                        None => {
                            return false;
                        },
                        Some(actual) => {
                            if actual != expected {
                                proof {
                                    // Were the whole prefix a prefix of the text, the text
                                    // would agree with the next repetition at this place.
                                    let next = target_prefix(pattern@, (done + 1) as nat);
                                    if target_prefix(pattern@, count as nat).is_prefix_of(text@) {
                                        assert(text@[base + seen] == next[base + seen]);
                                    }
                                }
                                return false;
                            }
                        },
                    }
                    proof {
                        seen = seen + 1;
                    }
                },
            }
        }
        proof {
            // One more repetition has been read off the text.
            let next = target_prefix(pattern@, (done + 1) as nat);
            assert(pattern@.take(seen) == pattern@);
            assert(next == target_prefix(pattern@, done as nat) + pattern@);
            assert(next == text@.subrange(0, base + seen));
        }
        done = done + 1;
    }
    true
}

} // verus!
