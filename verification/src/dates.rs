//! Pulling the day out of a date written as `day.month.year`: the leftmost
//! place in the text where two digits, any separator, two digits, any
//! separator and four digits stand in a row, read as by the pattern
//! `(\d{2}).(\d{2}).(\d{4})`, whose first group is the day.

use vstd::prelude::*;
use vstd::string::StrSliceExecFns;

verus! {

/// An ASCII decimal digit character.
pub open spec fn is_digit_char(c: char) -> bool {
    '0' <= c <= '9'
}

/// A character the single-character wildcard of the pattern accepts:
/// anything but a line break.
pub open spec fn is_separator_char(c: char) -> bool {
    c != '\n'
}

/// Whether the date pattern matches `s` starting at position `i`:
/// two digits, a separator, two digits, a separator, four digits.
pub open spec fn date_match_at(s: Seq<char>, i: int) -> bool {
    &&& 0 <= i
    &&& i + 10 <= s.len()
    &&& is_digit_char(s[i])
    &&& is_digit_char(s[i + 1])
    &&& is_separator_char(s[i + 2])
    &&& is_digit_char(s[i + 3])
    &&& is_digit_char(s[i + 4])
    &&& is_separator_char(s[i + 5])
    &&& is_digit_char(s[i + 6])
    &&& is_digit_char(s[i + 7])
    &&& is_digit_char(s[i + 8])
    &&& is_digit_char(s[i + 9])
}

/// Whether the digit character `c` stands at position `i` of `date`.
fn digit_at(date: &str, i: usize) -> (r: bool)
    requires
        i < date@.len(),
    ensures
        r == is_digit_char(date@[i as int]),
{
    let c = date.get_char(i);
    '0' <= c && c <= '9'
}

/// Whether a separator — anything but a line break — stands at position `i`.
fn separator_at(date: &str, i: usize) -> (r: bool)
    requires
        i < date@.len(),
    ensures
        r == is_separator_char(date@[i as int]),
{
    let c = date.get_char(i);
    c != '\n'
}

/// Whether the whole date pattern matches at position `i`.
fn matches_at(date: &str, i: usize) -> (r: bool)
    requires
        i + 10 <= date@.len() <= usize::MAX,
    ensures
        r == date_match_at(date@, i as int),
{
    digit_at(date, i) && digit_at(date, i + 1) && separator_at(date, i + 2) && digit_at(
        date,
        i + 3,
    ) && digit_at(date, i + 4) && separator_at(date, i + 5) && digit_at(date, i + 6) && digit_at(
        date,
        i + 7,
    ) && digit_at(date, i + 8) && digit_at(date, i + 9)
}

/// Finds the leftmost match of the date pattern in `date` and returns its
/// first two digits — the day — or `None` when the pattern matches nowhere.
pub fn extract_day<'a>(date: &'a str) -> (r: Option<&'a str>)
    ensures
        r matches Some(day) ==> exists|i: int|
            {
                &&& #[trigger] date_match_at(date@, i)
                &&& forall|j: int| 0 <= j < i ==> !date_match_at(date@, j)
                &&& day@ == date@.subrange(i, i + 2)
            },
        r is None <==> forall|i: int| !date_match_at(date@, i),
{
    let n = date.unicode_len();
    if n < 10 {
        return None;
    }
    let mut i: usize = 0;
    while i <= n - 10
        invariant
            10 <= n == date@.len(),
            i <= n - 10 + 1,
            forall|j: int| 0 <= j < i ==> !date_match_at(date@, j),
        decreases n - i,
    {
        if matches_at(date, i) {
            let day = date.substring_char(i, i + 2);
            return Some(day);
        }
        i = i + 1;
    }
    proof {
        assert(forall|j: int| j > n - 10 ==> !date_match_at(date@, j));
    }
    None
}

} // verus!
