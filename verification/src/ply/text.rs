use vstd::prelude::*;
use vstd::slice::slice_subrange;
use vstd::string::StringSliceAdditionalSpecFns;

verus! {

/// The byte that separates the tokens of a line.
pub const SPACE: u8 = 32;

/// The byte `0`, the first of the ten digits.
pub const ZERO: u8 = 48;

/// The byte `+`.
pub const PLUS: u8 = 43;

/// The byte `-`.
pub const MINUS: u8 = 45;

/// The length of the first token of a text: the number of bytes before its first space.
pub open spec fn first_token_len(text: Seq<u8>) -> nat
    decreases text.len(),
{
    if text.len() == 0 || text[0] == SPACE {
        0
    } else {
        1 + first_token_len(text.skip(1))
    }
}

/// The tokens of a line: the pieces between its spaces. A line without a space is one
/// token, the empty line too; two spaces in a row have an empty token between them.
pub open spec fn tokens(text: Seq<u8>) -> Seq<Seq<u8>>
    decreases text.len(),
{
    let n = first_token_len(text);
    if n >= text.len() {
        seq![text]
    } else {
        seq![text.take(n as int)].add(tokens(text.skip(n as int + 1)))
    }
}

/// The first token ends within the text.
pub proof fn lemma_first_token_len_bound(text: Seq<u8>)
    ensures
        first_token_len(text) <= text.len(),
        first_token_len(text) < text.len() ==> text[first_token_len(text) as int] == SPACE,
        forall|i: int| 0 <= i < first_token_len(text) ==> text[i] != SPACE,
    decreases text.len(),
{
    if text.len() > 0 && text[0] != SPACE {
        lemma_first_token_len_bound(text.skip(1));
        assert forall|i: int| 0 <= i < first_token_len(text) implies text[i] != SPACE by {
            if i > 0 {
                assert(text[i] == text.skip(1)[i - 1]);
            }
        }
    }
}

/// The tokens of a line, one after the other: the first is what stands before the first
/// space, and the others are the tokens of what follows that space. There is always a first
/// token, and no other where the line has no space.
pub proof fn lemma_tokens_unfold(text: Seq<u8>)
    ensures
        tokens(text).len() >= 1,
        tokens(text)[0] == text.take(first_token_len(text) as int),
        first_token_len(text) >= text.len() ==> tokens(text).len() == 1,
        first_token_len(text) < text.len() ==> tokens(text).skip(1) == tokens(
            text.skip(first_token_len(text) as int + 1),
        ),
{
    let n = first_token_len(text);
    lemma_first_token_len_bound(text);
    if n >= text.len() {
        assert(text.take(n as int) =~= text);
    } else {
        assert(tokens(text).skip(1) =~= tokens(text.skip(n as int + 1)));
    }
}

/// The end of the token that starts at `start`: the place of the next space, or the end of
/// the line.
fn token_end(line: &[u8], start: usize) -> (end: usize)
    requires
        start <= line@.len(),
    ensures
        start <= end <= line@.len(),
        end - start == first_token_len(line@.skip(start as int)),
{
    let mut end = start;
    while end < line.len() && line[end] != SPACE
        invariant
            start <= end <= line@.len(),
            first_token_len(line@.skip(start as int)) == (end - start) + first_token_len(line@.skip(end as int)),
        decreases line@.len() - end,
    {
        proof {
            assert(line@.skip(end as int)[0] == line@[end as int]);
            assert(line@.skip(end as int).skip(1) =~= line@.skip(end + 1));
        }
        end += 1;
    }
    proof {
        if end < line@.len() {
            assert(line@.skip(end as int)[0] == line@[end as int]);
        }
    }
    end
}

/// The token of a line at the given place, counted from zero, if the line has that many.
pub fn token(line: &[u8], index: usize) -> (found: Option<&[u8]>)
    ensures
        found is Some <==> index < tokens(line@).len(),
        found matches Some(t) ==> t@ == tokens(line@)[index as int],
{
    let mut start: usize = 0;
    let mut passed: usize = 0;
    proof {
        assert(line@.skip(0) =~= line@);
        assert(tokens(line@).skip(0) =~= tokens(line@));
    }
    loop
        invariant
            passed <= index,
            start <= line@.len(),
            passed < tokens(line@).len(),
            tokens(line@).skip(passed as int) == tokens(line@.skip(start as int)),
        decreases index - passed,
    {
        let end = token_end(line, start);
        let ghost rest = line@.skip(start as int);
        proof {
            lemma_tokens_unfold(rest);
            assert(tokens(line@).skip(passed as int)[0] == tokens(line@)[passed as int]);
            assert(rest.take(end - start) =~= line@.subrange(start as int, end as int));
        }
        if passed == index {
            return Some(slice_subrange(line, start, end));
        }
        if end == line.len() {
            proof {
                assert(tokens(line@).skip(passed as int).len() == 1);
            }
            return None;
        }
        proof {
            assert(rest.skip(end - start + 1) =~= line@.skip(end + 1));
            assert(tokens(line@).skip(passed as int).skip(1) =~= tokens(line@).skip(passed + 1));
            assert(tokens(line@.skip(end + 1)).len() >= 1) by {
                lemma_tokens_unfold(line@.skip(end + 1));
            }
        }
        start = end + 1;
        passed += 1;
    }
}

/// Whether a token spells a word, byte for byte.
pub fn spells(token: &[u8], word: &str) -> (r: bool)
    ensures
        r == (token@ == word.spec_bytes()),
{
    let bytes = word.as_bytes();
    if token.len() != bytes.len() {
        return false;
    }
    let mut i: usize = 0;
    while i < token.len()
        invariant
            i <= token@.len(),
            token@.len() == bytes@.len(),
            bytes@ == word.spec_bytes(),
            forall|j: int| 0 <= j < i ==> token@[j] == bytes@[j],
        decreases token@.len() - i,
    {
        if token[i] != bytes[i] {
            return false;
        }
        i += 1;
    }
    assert(token@ =~= bytes@);
    true
}

/// A text without the spaces that lead it.
pub open spec fn without_leading_spaces(text: Seq<u8>) -> Seq<u8>
    decreases text.len(),
{
    if text.len() > 0 && text[0] == SPACE {
        without_leading_spaces(text.skip(1))
    } else {
        text
    }
}

/// What follows the first token of a line and the space after it, without the spaces that
/// lead it. This is what the tokens after the first spell when they are put together again
/// with one space between them, empty tokens at the front aside.
pub open spec fn text_after_first_token(line: Seq<u8>) -> Seq<u8> {
    let n = first_token_len(line);
    if n < line.len() {
        without_leading_spaces(line.skip(n as int + 1))
    } else {
        Seq::empty()
    }
}

/// What follows the first token of a line and the space after it, without the spaces that
/// lead it.
pub fn after_first_token(line: &[u8]) -> (text: &[u8])
    ensures
        text@ == text_after_first_token(line@),
{
    proof {
        assert(line@.skip(0) =~= line@);
    }
    let end = token_end(line, 0);
    if end == line.len() {
        let text = slice_subrange(line, end, end);
        assert(text@ =~= Seq::empty());
        return text;
    }
    let mut start = end + 1;
    while start < line.len() && line[start] == SPACE
        invariant
            end < start <= line@.len(),
            without_leading_spaces(line@.skip(end + 1)) == without_leading_spaces(line@.skip(start as int)),
        decreases line@.len() - start,
    {
        proof {
            assert(line@.skip(start as int)[0] == line@[start as int]);
            assert(line@.skip(start as int).skip(1) =~= line@.skip(start + 1));
        }
        start += 1;
    }
    proof {
        if start < line@.len() {
            assert(line@.skip(start as int)[0] == line@[start as int]);
        }
        assert(line@.subrange(start as int, line@.len() as int) =~= line@.skip(start as int));
    }
    slice_subrange(line, start, line.len())
}

/// Whether a byte is one of the ten digits.
pub open spec fn is_digit(byte: u8) -> bool {
    ZERO <= byte <= ZERO + 9
}

/// Whether a text is made of digits alone.
pub open spec fn all_digits(text: Seq<u8>) -> bool {
    forall|i: int| 0 <= i < text.len() ==> is_digit(#[trigger] text[i])
}

/// The number that digits spell in base ten.
pub open spec fn digits_value(digits: Seq<u8>) -> nat
    decreases digits.len(),
{
    if digits.len() == 0 {
        0
    } else {
        (10 * digits_value(digits.drop_last()) + (digits.last() - ZERO)) as nat
    }
}

/// The whole number that a text spells in base ten: a sign, which may be left out, and
/// then at least one digit and nothing else. With `signed` unset a minus sign is no part
/// of a number.
pub open spec fn decimal(text: Seq<u8>, signed: bool) -> Option<int> {
    let has_sign = text.len() > 0 && (text[0] == PLUS || (signed && text[0] == MINUS));
    let digits = if has_sign {
        text.skip(1)
    } else {
        text
    };
    if digits.len() == 0 || !all_digits(digits) {
        None
    } else if has_sign && text[0] == MINUS {
        Some(-(digits_value(digits) as int))
    } else {
        Some(digits_value(digits) as int)
    }
}

/// The number that a text spells, where it spells one that lies in the given range.
pub open spec fn decimal_within(text: Seq<u8>, signed: bool, low: int, high: int) -> Option<int> {
    match decimal(text, signed) {
        Some(value) => if low <= value <= high {
            Some(value)
        } else {
            None
        },
        None => None,
    }
}

/// More digits never spell a smaller number.
proof fn lemma_digits_value_grows(digits: Seq<u8>, n: int)
    requires
        0 <= n <= digits.len(),
        all_digits(digits),
    ensures
        digits_value(digits.take(n)) <= digits_value(digits),
    decreases digits.len() - n,
{
    if n < digits.len() {
        lemma_digits_value_grows(digits, n + 1);
        assert(digits.take(n + 1).drop_last() =~= digits.take(n));
        assert(is_digit(digits[n]));
        assert(digits.take(n + 1).last() == digits[n]);
    } else {
        assert(digits.take(n) =~= digits);
    }
}

/// The number that the digits from `start` on spell, if there is a digit, there are digits
/// alone, and the number is at most `limit`.
fn parse_digits(text: &[u8], start: usize, limit: u64) -> (r: Option<u64>)
    requires
        start <= text@.len(),
    ensures
        r is Some <==> start < text@.len() && all_digits(text@.skip(start as int)) && digits_value(
            text@.skip(start as int),
        ) <= limit,
        r matches Some(v) ==> v == digits_value(text@.skip(start as int)),
{
    let ghost digits = text@.skip(start as int);
    if start == text.len() {
        return None;
    }
    let mut value: u64 = 0;
    let mut i: usize = start;
    proof {
        assert(digits.take(0) =~= Seq::<u8>::empty());
    }
    while i < text.len()
        invariant
            start <= i <= text@.len(),
            digits == text@.skip(start as int),
            all_digits(digits.take(i - start)),
            value == digits_value(digits.take(i - start)),
            value <= limit,
        decreases text@.len() - i,
    {
        let byte = text[i];
        proof {
            assert(digits[i - start] == byte);
            assert(digits.take(i - start + 1).drop_last() =~= digits.take(i - start));
            assert(digits.take(i - start + 1).last() == byte);
        }
        if byte < ZERO || byte > ZERO + 9 {
            return None;
        }
        let digit = (byte - ZERO) as u64;
        if digit > limit || value > (limit - digit) / 10 {
            proof {
                // The digits so far spell a number above the limit already, and more
                // digits do not make it smaller.
                if digit <= limit {
                    assert(10 * value + digit > limit) by (nonlinear_arith)
                        requires
                            value > (limit - digit) / 10,
                            digit <= limit,
                    {
                    }
                }
                if all_digits(digits) {
                    lemma_digits_value_grows(digits, i - start + 1);
                }
            }
            return None;
        }
        proof {
            assert(10 * value + digit <= limit) by (nonlinear_arith)
                requires
                    value <= (limit - digit) / 10,
                    digit <= limit,
            {
            }
            assert forall|j: int| 0 <= j < i - start + 1 implies is_digit(#[trigger] digits.take(i - start + 1)[j]) by {
                if j < i - start {
                    assert(digits.take(i - start + 1)[j] == digits.take(i - start)[j]);
                }
            }
        }
        value = 10 * value + digit;
        i += 1;
    }
    proof {
        assert(digits.take(i - start) =~= digits);
    }
    Some(value)
}

/// The sign and the size of the number that a text spells, where it spells one whose size
/// is at most `below` if it is negative and at most `above` if it is not. A number with a
/// minus sign counts as negative, zero too.
fn parse_sign_and_size(text: &[u8], signed: bool, below: u64, above: u64) -> (r: Option<(bool, u64)>)
    ensures
        match decimal(text@, signed) {
            Some(value) => {
                let negative = signed && text@[0] == MINUS;
                if negative && -value <= below || !negative && value <= above {
                    r == Some((negative, (if negative { -value } else { value }) as u64))
                } else {
                    r is None
                }
            },
            None => r is None,
        },
{
    if text.len() == 0 {
        return None;
    }
    let first = text[0];
    let negative = signed && first == MINUS;
    let start: usize = if first == PLUS || negative {
        1
    } else {
        0
    };
    proof {
        assert(text@.skip(0) =~= text@);
    }
    let limit = if negative {
        below
    } else {
        above
    };
    match parse_digits(text, start, limit) {
        Some(size) => Some((negative, size)),
        None => None,
    }
}

/// The number that a text spells in base ten, as `i64`: a sign, which may be left out, and
/// then digits alone, at least one. Nothing is returned for any other text, nor for a
/// number that `i64` does not hold.
pub fn parse_i64(text: &[u8]) -> (r: Option<i64>)
    ensures
        match decimal_within(text@, true, i64::MIN as int, i64::MAX as int) {
            Some(value) => r == Some(value as i64),
            None => r is None,
        },
{
    match parse_sign_and_size(text, true, 0x8000_0000_0000_0000, 0x7fff_ffff_ffff_ffff) {
        Some((negative, size)) => {
            if !negative {
                Some(size as i64)
            } else if size == 0x8000_0000_0000_0000 {
                Some(i64::MIN)
            } else {
                Some(-(size as i64))
            }
        },
        None => None,
    }
}

/// The number that a text spells in base ten, as `i32`: a sign, which may be left out, and
/// then digits alone, at least one. Nothing is returned for any other text, nor for a
/// number that `i32` does not hold.
pub fn parse_i32(text: &[u8]) -> (r: Option<i32>)
    ensures
        match decimal_within(text@, true, i32::MIN as int, i32::MAX as int) {
            Some(value) => r == Some(value as i32),
            None => r is None,
        },
{
    match parse_sign_and_size(text, true, 0x8000_0000, 0x7fff_ffff) {
        Some((negative, size)) => {
            if negative {
                Some((-(size as i64)) as i32)
            } else {
                Some(size as i32)
            }
        },
        None => None,
    }
}

/// The number that a text spells in base ten, as `usize`: a plus sign, which may be left
/// out, and then digits alone, at least one. Nothing is returned for any other text, a
/// minus sign included, nor for a number that `usize` does not hold.
pub fn parse_usize(text: &[u8]) -> (r: Option<usize>)
    ensures
        match decimal_within(text@, false, 0, usize::MAX as int) {
            Some(value) => r == Some(value as usize),
            None => r is None,
        },
{
    match parse_sign_and_size(text, false, 0, usize::MAX as u64) {
        Some((_, size)) => Some(size as usize),
        None => None,
    }
}

} // verus!
