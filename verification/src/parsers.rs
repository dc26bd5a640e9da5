//! Parsers for typed URL segments.
//!
//! All parsers share the convention of the segment-capture contract: they
//! attempt to consume a prefix of the cursor and either succeed, returning the
//! captured value with the cursor advanced past it, or fail with `None`, in
//! which case the caller treats the whole route alternative as non-matching
//! and retries the next one from a snapshot of the cursor.

use vstd::prelude::*;

verus! {

use crate::cursor::Cursor;

/// A decimal digit character.
pub open spec fn is_digit(c: char) -> bool {
    48 <= c as u32 <= 57
}

/// The numeric value of a decimal digit character.
pub open spec fn digit_val(c: char) -> int {
    c as u32 - 48
}

/// Number of consecutive decimal-digit characters of `s` starting at `pos`.
pub open spec fn digit_run_len(s: Seq<char>, pos: int) -> int
    decreases s.len() - pos,
{
    if !(0 <= pos < s.len()) || !is_digit(s[pos]) {
        0
    } else {
        1 + digit_run_len(s, pos + 1)
    }
}

/// Base-10 value of a sequence of digit characters (most significant first).
pub open spec fn digits_value(ds: Seq<char>) -> int
    decreases ds.len(),
{
    if ds.len() == 0 {
        0
    } else {
        digits_value(ds.drop_last()) * 10 + digit_val(ds.last())
    }
}

/// Base-10 value of the digit run of `s` starting at `pos`.
pub open spec fn digit_run_value(s: Seq<char>, pos: int) -> int {
    digits_value(s.subrange(pos, pos + digit_run_len(s, pos)))
}

/// If `s` holds digits at the `i` positions from `pos` and then a non-digit or
/// its end, the digit run from `pos` has length exactly `i`.
pub proof fn lemma_digit_run_characterize(s: Seq<char>, pos: int, i: int)
    requires
        0 <= pos,
        0 <= i,
        pos + i <= s.len(),
        forall|j: int| pos <= j < pos + i ==> is_digit(#[trigger] s[j]),
        pos + i == s.len() || !is_digit(s[pos + i]),
    ensures
        digit_run_len(s, pos) == i,
    decreases i,
{
    if i == 0 {
    } else {
        assert(is_digit(s[pos]));
        lemma_digit_run_characterize(s, pos + 1, i - 1);
    }
}

/// Appending one digit multiplies the value by ten and adds the digit.
pub proof fn lemma_digits_value_snoc(ds: Seq<char>, c: char)
    ensures
        digits_value(ds.push(c)) == digits_value(ds) * 10 + digit_val(c),
{
    assert(ds.push(c).drop_last() =~= ds);
    assert(ds.push(c).last() == c);
}

/// Scans the digit run at the cursor and accumulates its base-10 value,
/// bounded by `max`.  Fails if there is no digit to read or if the run's value
/// exceeds `max`; either way the cursor ends just past the digit run.
pub(crate) fn scan_number(cursor: &mut Cursor<'_>, max: u64) -> (r: Option<u64>)
    requires
        old(cursor).wf(),
    ensures
        final(cursor).wf(),
        final(cursor).chars() == old(cursor).chars(),
        final(cursor).pos() == old(cursor).pos() + digit_run_len(
            old(cursor).chars(),
            old(cursor).pos(),
        ),
        ({
            let k = digit_run_len(old(cursor).chars(), old(cursor).pos());
            let v = digit_run_value(old(cursor).chars(), old(cursor).pos());
            &&& (r is Some <==> k > 0 && v <= max)
            &&& (r matches Some(got) ==> got as int == v)
        }),
{
    let ghost s = old(cursor).chars();
    let ghost p0 = old(cursor).pos();
    let mut value: u64 = 0;
    let mut count: usize = 0;
    let mut over = false;
    loop
        invariant
            cursor.wf(),
            cursor.chars() == s,
            s == old(cursor).chars(),
            p0 == old(cursor).pos(),
            0 <= p0 <= s.len(),
            cursor.pos() == p0 + count,
            p0 + count <= s.len(),
            forall|j: int| p0 <= j < p0 + count ==> is_digit(#[trigger] s[j]),
            over == (digits_value(s.subrange(p0, p0 + count)) > max),
            !over ==> value as int == digits_value(s.subrange(p0, p0 + count)),
        ensures
            cursor.wf(),
            cursor.chars() == s,
            cursor.pos() == p0 + count,
            p0 + count <= s.len(),
            forall|j: int| p0 <= j < p0 + count ==> is_digit(#[trigger] s[j]),
            over == (digits_value(s.subrange(p0, p0 + count)) > max),
            !over ==> value as int == digits_value(s.subrange(p0, p0 + count)),
            p0 + count == s.len() || !is_digit(s[p0 + count]),
        decreases s.len() - p0 - count,
    {
        let next = cursor.peek();
        let mut digit: u64 = 0;
        let got_digit = match next {
            Some(c) => {
                let u = c as u32;
                if 48 <= u && u <= 57 {
                    digit = (u - 48) as u64;
                    true
                } else {
                    false
                }
            },
            None => false,
        };
        if !got_digit {
            break;
        }
        let ghost c = s[p0 + count];
        let ghost run = s.subrange(p0, p0 + count);
        proof {
            assert(s.subrange(p0, p0 + count + 1) =~= run.push(c));
            lemma_digits_value_snoc(run, c);
        }
        cursor.advance();
        if !over {
            let grown = match value.checked_mul(10) {
                Some(x) => x.checked_add(digit),
                None => None,
            };
            match grown {
                Some(y) => {
                    if y <= max {
                        value = y;
                    } else {
                        over = true;
                    }
                },
                None => {
                    over = true;
                },
            }
        } else {
            proof {
                assert(digits_value(run) > max >= 0);
                assert(digits_value(run.push(c)) > max);
            }
        }
        count = count + 1;
    }
    proof {
        lemma_digit_run_characterize(s, p0, count as int);
    }
    if count == 0 {
        None
    } else if over {
        None
    } else {
        Some(value)
    }
}

/// A type whose values can be captured from a URL segment as a decimal
/// numeral: an unsigned or signed integer width.
pub trait UrlParser: Sized {
    /// Largest value the type can represent, as a mathematical integer.
    spec fn max_spec() -> int;

    /// The captured value, as a mathematical integer.
    spec fn value_spec(self) -> int;

    /// Consumes the digit run at the cursor and converts it by base-10
    /// accumulation.  Fails if no digit was consumed or if the numeral's
    /// value exceeds the type's range; the whole route alternative then
    /// fails, so the cursor's final position only matters on success, where
    /// it rests just past the digits.
    fn parse_from_url(cursor: &mut Cursor<'_>) -> (r: Option<Self>)
        requires
            old(cursor).wf(),
        ensures
            final(cursor).wf(),
            final(cursor).chars() == old(cursor).chars(),
            final(cursor).pos() == old(cursor).pos() + digit_run_len(
                old(cursor).chars(),
                old(cursor).pos(),
            ),
            ({
                let k = digit_run_len(old(cursor).chars(), old(cursor).pos());
                let v = digit_run_value(old(cursor).chars(), old(cursor).pos());
                &&& (r is Some <==> k > 0 && v <= Self::max_spec())
                &&& (r matches Some(got) ==> got.value_spec() == v)
            }),
    ;
}

impl UrlParser for u8 {
    open spec fn max_spec() -> int {
        u8::MAX as int
    }

    open spec fn value_spec(self) -> int {
        self as int
    }

    fn parse_from_url(cursor: &mut Cursor<'_>) -> (r: Option<u8>) {
        match scan_number(cursor, u8::MAX as u64) {
            Some(v) => Some(v as u8),
            None => None,
        }
    }
}

impl UrlParser for u16 {
    open spec fn max_spec() -> int {
        u16::MAX as int
    }

    open spec fn value_spec(self) -> int {
        self as int
    }

    fn parse_from_url(cursor: &mut Cursor<'_>) -> (r: Option<u16>) {
        match scan_number(cursor, u16::MAX as u64) {
            Some(v) => Some(v as u16),
            None => None,
        }
    }
}

impl UrlParser for u32 {
    open spec fn max_spec() -> int {
        u32::MAX as int
    }

    open spec fn value_spec(self) -> int {
        self as int
    }

    fn parse_from_url(cursor: &mut Cursor<'_>) -> (r: Option<u32>) {
        match scan_number(cursor, u32::MAX as u64) {
            Some(v) => Some(v as u32),
            None => None,
        }
    }
}

impl UrlParser for u64 {
    open spec fn max_spec() -> int {
        u64::MAX as int
    }

    open spec fn value_spec(self) -> int {
        self as int
    }

    fn parse_from_url(cursor: &mut Cursor<'_>) -> (r: Option<u64>) {
        scan_number(cursor, u64::MAX)
    }
}

impl UrlParser for i8 {
    open spec fn max_spec() -> int {
        i8::MAX as int
    }

    open spec fn value_spec(self) -> int {
        self as int
    }

    fn parse_from_url(cursor: &mut Cursor<'_>) -> (r: Option<i8>) {
        match scan_number(cursor, i8::MAX as u64) {
            Some(v) => Some(v as i8),
            None => None,
        }
    }
}

impl UrlParser for i16 {
    open spec fn max_spec() -> int {
        i16::MAX as int
    }

    open spec fn value_spec(self) -> int {
        self as int
    }

    fn parse_from_url(cursor: &mut Cursor<'_>) -> (r: Option<i16>) {
        match scan_number(cursor, i16::MAX as u64) {
            Some(v) => Some(v as i16),
            None => None,
        }
    }
}

impl UrlParser for i32 {
    open spec fn max_spec() -> int {
        i32::MAX as int
    }

    open spec fn value_spec(self) -> int {
        self as int
    }

    fn parse_from_url(cursor: &mut Cursor<'_>) -> (r: Option<i32>) {
        match scan_number(cursor, i32::MAX as u64) {
            Some(v) => Some(v as i32),
            None => None,
        }
    }
}

impl UrlParser for i64 {
    open spec fn max_spec() -> int {
        i64::MAX as int
    }

    open spec fn value_spec(self) -> int {
        self as int
    }

    fn parse_from_url(cursor: &mut Cursor<'_>) -> (r: Option<i64>) {
        match scan_number(cursor, i64::MAX as u64) {
            Some(v) => Some(v as i64),
            None => None,
        }
    }
}

/// Parses a decimal numeral from the URL into any supported integer width.
pub fn num<T: UrlParser>(cursor: &mut Cursor<'_>) -> (r: Option<T>)
    requires
        old(cursor).wf(),
    ensures
        final(cursor).wf(),
        final(cursor).chars() == old(cursor).chars(),
        final(cursor).pos() == old(cursor).pos() + digit_run_len(
            old(cursor).chars(),
            old(cursor).pos(),
        ),
        ({
            let k = digit_run_len(old(cursor).chars(), old(cursor).pos());
            let v = digit_run_value(old(cursor).chars(), old(cursor).pos());
            &&& (r is Some <==> k > 0 && v <= T::max_spec())
            &&& (r matches Some(got) ==> got.value_spec() == v)
        }),
{
    T::parse_from_url(cursor)
}

/// Position of the first occurrence of `delim` in `s` at or after `pos`.
pub open spec fn find_from(s: Seq<char>, pos: int, delim: char) -> Option<int>
    decreases s.len() - pos,
{
    if !(0 <= pos < s.len()) {
        None
    } else if s[pos] == delim {
        Some(pos)
    } else {
        find_from(s, pos + 1, delim)
    }
}

/// If `delim` first occurs at `j`, the search finds exactly `j`.
pub proof fn lemma_find_from_found(s: Seq<char>, pos: int, delim: char, j: int)
    requires
        0 <= pos <= j < s.len(),
        s[j] == delim,
        forall|k: int| pos <= k < j ==> #[trigger] s[k] != delim,
    ensures
        find_from(s, pos, delim) == Some(j),
    decreases j - pos,
{
    if pos < j {
        lemma_find_from_found(s, pos + 1, delim, j);
    }
}

/// If `delim` occurs nowhere at or after `pos`, the search fails.
pub proof fn lemma_find_from_missing(s: Seq<char>, pos: int, delim: char)
    requires
        0 <= pos,
        forall|k: int| pos <= k < s.len() ==> #[trigger] s[k] != delim,
    ensures
        find_from(s, pos, delim) is None,
    decreases s.len() - pos,
{
    if pos < s.len() {
        lemma_find_from_missing(s, pos + 1, delim);
    }
}

/// Parses the characters up to the first occurrence of `delim`, which is
/// consumed but excluded from the captured string.  Fails if the delimiter
/// never occurs, in which case the cursor is left exhausted and the caller
/// discards it.
pub fn until(delim: char, cursor: &mut Cursor<'_>) -> (r: Option<String>)
    requires
        old(cursor).wf(),
    ensures
        final(cursor).wf(),
        final(cursor).chars() == old(cursor).chars(),
        ({
            let s = old(cursor).chars();
            let p0 = old(cursor).pos();
            match find_from(s, p0, delim) {
                Some(j) => {
                    &&& r matches Some(piece) && piece@ == s.subrange(p0, j)
                    &&& final(cursor).pos() == j + 1
                },
                None => {
                    &&& r is None
                    &&& final(cursor).pos() == s.len()
                },
            }
        }),
{
    let ghost s = old(cursor).chars();
    let ghost p0 = old(cursor).pos();
    let start = cursor.position();
    let mut found = false;
    loop
        invariant_except_break
            !found,
        invariant
            cursor.wf(),
            cursor.chars() == s,
            s == old(cursor).chars(),
            p0 == old(cursor).pos(),
            start as int == p0,
            0 <= p0 <= cursor.pos() <= s.len(),
            forall|k: int| p0 <= k < cursor.pos() ==> #[trigger] s[k] != delim,
        ensures
            cursor.wf(),
            cursor.chars() == s,
            p0 <= cursor.pos() <= s.len(),
            forall|k: int| p0 <= k < cursor.pos() ==> #[trigger] s[k] != delim,
            found ==> cursor.pos() < s.len() && s[cursor.pos()] == delim,
            !found ==> cursor.pos() == s.len(),
        decreases s.len() - cursor.pos(),
    {
        match cursor.peek() {
            Some(c) => {
                if c == delim {
                    found = true;
                    break;
                } else {
                    cursor.advance();
                }
            },
            None => {
                break;
            },
        }
    }
    if found {
        let j = cursor.position();
        proof {
            lemma_find_from_found(s, p0, delim, j as int);
        }
        let piece = cursor.extract(start, j);
        cursor.advance();
        Some(piece)
    } else {
        proof {
            lemma_find_from_missing(s, p0, delim);
        }
        None
    }
}

/// Parses the entire rest of the URL; always succeeds, even on an exhausted
/// cursor, where it captures the empty string.
pub fn rest(cursor: &mut Cursor<'_>) -> (r: Option<String>)
    requires
        old(cursor).wf(),
    ensures
        final(cursor).wf(),
        final(cursor).chars() == old(cursor).chars(),
        final(cursor).pos() == old(cursor).chars().len(),
        r matches Some(piece) && piece@ == old(cursor).chars().subrange(
            old(cursor).pos(),
            old(cursor).chars().len() as int,
        ),
{
    let start = cursor.position();
    let end = cursor.char_len();
    let piece = cursor.extract(start, end);
    cursor.seek_end();
    Some(piece)
}

} // verus!
