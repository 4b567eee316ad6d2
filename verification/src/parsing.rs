//! Reading an age — a positive number — out of a piece of text: trimming the
//! surrounding whitespace, parsing a signed decimal integer, and rejecting
//! ages that are not positive. The caller does whatever input it likes (a
//! file, a prompt) and hands the raw bytes here.

use vstd::prelude::*;

verus! {

/// Everything that can go wrong when reading an age out of text:
/// the input could not be obtained, the text is not a number in range, or
/// the number is not a positive age.
#[derive(Debug, PartialEq, Eq, Structural)]
pub enum AgeReaderError {
    Io(),
    Parse(),
    NegativeAge(),
}

/// What can go wrong when parsing a signed decimal integer.
#[derive(Debug, PartialEq, Eq, Structural)]
pub enum ParseError {
    /// The input has no bytes at all.
    Empty,
    /// A byte that is not part of a decimal literal (a sign with no digits
    /// counts too).
    InvalidDigit,
    /// A well-formed literal whose value does not fit the result type.
    OutOfRange,
}

/// The ASCII whitespace bytes `str::trim` strips from ASCII text.
pub open spec fn is_ascii_space(b: u8) -> bool {
    b == 32 || (9 <= b <= 13)
}

/// An ASCII decimal digit.
pub open spec fn is_ascii_digit(b: u8) -> bool {
    48 <= b <= 57
}

/// Every byte is a digit.
pub open spec fn is_digit_seq(s: Seq<u8>) -> bool {
    forall|k: int| 0 <= k < s.len() ==> is_ascii_digit(#[trigger] s[k])
}

/// The number the digit string denotes, most significant digit first.
pub open spec fn digits_value(s: Seq<u8>) -> int
    decreases s.len(),
{
    if s.len() == 0 {
        0
    } else {
        10 * digits_value(s.drop_last()) + (s.last() - 48)
    }
}

/// Whether the literal opens with an explicit sign byte.
pub open spec fn has_sign(s: Seq<u8>) -> bool {
    s.len() > 0 && (s[0] == 43 || s[0] == 45)
}

/// The digits of the literal, with any sign stripped.
pub open spec fn literal_body(s: Seq<u8>) -> Seq<u8> {
    if has_sign(s) {
        s.drop_first()
    } else {
        s
    }
}

/// A well-formed signed decimal literal: an optional sign, then one or more
/// digits and nothing else.
pub open spec fn valid_int_literal(s: Seq<u8>) -> bool {
    literal_body(s).len() > 0 && is_digit_seq(literal_body(s))
}

/// The value a well-formed literal denotes.
pub open spec fn literal_value(s: Seq<u8>) -> int {
    if s.len() > 0 && s[0] == 45 {
        -digits_value(literal_body(s))
    } else {
        digits_value(literal_body(s))
    }
}

/// A digit string denotes a number, never something negative.
proof fn lemma_digits_value_nonneg(s: Seq<u8>)
    requires
        is_digit_seq(s),
    ensures
        digits_value(s) >= 0,
    decreases s.len(),
{
    if s.len() > 0 {
        assert(is_digit_seq(s.drop_last())) by {
            assert(forall|k: int|
                0 <= k < s.len() - 1 ==> s.drop_last()[k] == #[trigger] s[k]);
        }
        lemma_digits_value_nonneg(s.drop_last());
    }
}

/// Reading one more digit multiplies the value by ten and adds the digit.
proof fn lemma_digits_value_step(s: Seq<u8>, i: int)
    requires
        0 <= i < s.len(),
    ensures
        digits_value(s.take(i + 1)) == 10 * digits_value(s.take(i)) + (s[i] - 48),
{
    assert(s.take(i + 1).drop_last() =~= s.take(i));
    assert(s.take(i + 1).last() == s[i]);
}

/// Parses a signed decimal integer, as `i32` text is parsed: an optional
/// `+` or `-` sign, then one or more ASCII digits. Succeeds exactly on
/// well-formed literals whose value fits an `i32`, and says which of the three
/// possible faults a rejected input has.
pub fn parse_i32(s: &[u8]) -> (r: Result<i32, ParseError>)
    ensures
        r is Ok <==> valid_int_literal(s@) && i32::MIN <= literal_value(s@) <= i32::MAX,
        r matches Ok(n) ==> n == literal_value(s@),
        r == Err::<i32, ParseError>(ParseError::Empty) <==> s@.len() == 0,
        r == Err::<i32, ParseError>(ParseError::InvalidDigit) <==> s@.len() > 0
            && !valid_int_literal(s@),
        r == Err::<i32, ParseError>(ParseError::OutOfRange) <==> valid_int_literal(s@)
            && !(i32::MIN <= literal_value(s@) <= i32::MAX),
{
    if s.len() == 0 {
        return Err(ParseError::Empty);
    }
    let negative: bool = s[0] == 45u8;
    let start: usize = if s[0] == 43u8 || s[0] == 45u8 {
        1
    } else {
        0
    };
    if start == s.len() {
        // A sign with no digits after it.
        return Err(ParseError::InvalidDigit);
    }
    let ghost body = literal_body(s@);
    proof {
        assert(body =~= s@.subrange(start as int, s@.len() as int));
    }
    // The magnitude so far, saturated just above the largest magnitude an
    // `i32` can carry (2^31), which is all the later range check needs.
    let cap: u64 = 0x8000_0000;
    let mut acc: u64 = 0;
    let mut i: usize = start;
    while i < s.len()
        invariant
            start <= i <= s@.len(),
            s@.len() > 0,
            start <= 1,
            body == literal_body(s@),
            body =~= s@.subrange(start as int, s@.len() as int),
            cap == 0x8000_0000u64,
            is_digit_seq(body.take(i - start)),
            digits_value(body.take(i - start)) <= cap ==> acc == digits_value(
                body.take(i - start),
            ),
            digits_value(body.take(i - start)) > cap ==> acc == cap + 1,
            acc <= cap + 1,
        decreases s@.len() - i,
    {
        let b = s[i];
        if !(48u8 <= b && b <= 57u8) {
            proof {
                assert(body[i - start] == b);
                assert(!is_ascii_digit(body[i - start]));
                assert(!is_digit_seq(body));
            }
            return Err(ParseError::InvalidDigit);
        }
        let d: u64 = (b - 48) as u64;
        proof {
            let j = i - start;
            lemma_digits_value_step(body, j);
            lemma_digits_value_nonneg(body.take(j));
            assert(body.take(j + 1) == body.take(j).push(body[j]));
        }
        acc = if acc > cap {
            acc
        } else {
            acc * 10 + d
        };
        if acc > cap {
            acc = cap + 1;
        }
        i = i + 1;
    }
    proof {
        assert(body.take(i - start) =~= body);
        lemma_digits_value_nonneg(body);
    }
    if negative {
        if acc <= cap {
            if acc == cap {
                Ok(i32::MIN)
            } else {
                Ok(-((acc as i32)))
            }
        } else {
            Err(ParseError::OutOfRange)
        }
    } else {
        if acc <= cap - 1 {
            Ok(acc as i32)
        } else {
            Err(ParseError::OutOfRange)
        }
    }
}

/// `s` with leading whitespace stripped.
pub open spec fn trim_front_spec(s: Seq<u8>) -> Seq<u8>
    decreases s.len(),
{
    if s.len() > 0 && is_ascii_space(s[0]) {
        trim_front_spec(s.drop_first())
    } else {
        s
    }
}

/// `s` with trailing whitespace stripped.
pub open spec fn trim_back_spec(s: Seq<u8>) -> Seq<u8>
    decreases s.len(),
{
    if s.len() > 0 && is_ascii_space(s.last()) {
        trim_back_spec(s.drop_last())
    } else {
        s
    }
}

/// `s` with whitespace stripped from both ends.
pub open spec fn trim_spec(s: Seq<u8>) -> Seq<u8> {
    trim_back_spec(trim_front_spec(s))
}

/// Whether `b` is one of the ASCII whitespace bytes.
fn is_space_byte(b: u8) -> (r: bool)
    ensures
        r == is_ascii_space(b),
{
    b == 32 || (9 <= b && b <= 13)
}

/// Strips ASCII whitespace from both ends of `s`, as `str::trim` does on
/// ASCII text.
pub fn trim_ascii(s: &[u8]) -> (r: &[u8])
    ensures
        r@ == trim_spec(s@),
{
    let n = s.len();
    proof {
        assert(s@.subrange(0, n as int) =~= s@);
    }
    let mut lo: usize = 0;
    while lo < n && is_space_byte(s[lo])
        invariant
            n == s@.len(),
            0 <= lo <= n,
            trim_front_spec(s@) == trim_front_spec(s@.subrange(lo as int, n as int)),
        decreases n - lo,
    {
        proof {
            let cur = s@.subrange(lo as int, n as int);
            assert(cur[0] == s@[lo as int]);
            assert(cur.drop_first() =~= s@.subrange(lo as int + 1, n as int));
        }
        lo = lo + 1;
    }
    proof {
        let cur = s@.subrange(lo as int, n as int);
        assert(trim_front_spec(cur) == cur) by {
            if cur.len() > 0 {
                assert(cur[0] == s@[lo as int]);
            }
        }
    }
    let mut hi: usize = n;
    while hi > lo && is_space_byte(s[hi - 1])
        invariant
            n == s@.len(),
            0 <= lo <= hi <= n,
            trim_front_spec(s@) == s@.subrange(lo as int, n as int),
            trim_back_spec(s@.subrange(lo as int, n as int)) == trim_back_spec(
                s@.subrange(lo as int, hi as int),
            ),
        decreases hi,
    {
        proof {
            let cur = s@.subrange(lo as int, hi as int);
            assert(cur.last() == s@[hi - 1]);
            assert(cur.drop_last() =~= s@.subrange(lo as int, hi as int - 1));
        }
        hi = hi - 1;
    }
    proof {
        let cur = s@.subrange(lo as int, hi as int);
        assert(trim_back_spec(cur) == cur) by {
            if cur.len() > 0 {
                assert(cur.last() == s@[hi - 1]);
            }
        }
    }
    &s[lo..hi]
}

/// Reads an age out of raw text: trims surrounding whitespace, parses a
/// signed decimal integer, and accepts only a positive value. Fails with
/// `Parse` when the trimmed text is not a number an `i32` can carry, and with
/// `NegativeAge` when it is one but is zero or below.
pub fn parse_age(content: &[u8]) -> (r: Result<i32, AgeReaderError>)
    ensures
        r is Ok <==> valid_int_literal(trim_spec(content@)) && 0 < literal_value(
            trim_spec(content@),
        ) <= i32::MAX,
        r matches Ok(age) ==> age == literal_value(trim_spec(content@)),
        r == Err::<i32, AgeReaderError>(AgeReaderError::Parse()) <==> !(valid_int_literal(
            trim_spec(content@),
        ) && i32::MIN <= literal_value(trim_spec(content@)) <= i32::MAX),
        r == Err::<i32, AgeReaderError>(AgeReaderError::NegativeAge()) <==> valid_int_literal(
            trim_spec(content@),
        ) && i32::MIN <= literal_value(trim_spec(content@)) <= 0,
{
    let trimmed = trim_ascii(content);
    match parse_i32(trimmed) {
        Ok(age) => {
            if age > 0 {
                Ok(age)
            } else {
                Err(AgeReaderError::NegativeAge())
            }
        },
        Err(_) => Err(AgeReaderError::Parse()),
    }
}

} // verus!
