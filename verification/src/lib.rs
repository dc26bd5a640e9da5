//! Pattern-match-style URL routing.
//!
//! A route table is an ordered list of alternatives, each an optional method
//! guard plus a sequence of segment matchers (literal text, typed integer
//! capture, delimiter-bounded capture, rest-of-path capture).  Dispatch tries
//! the alternatives in declaration order against a fresh cursor over the path
//! and selects the first whose matchers all succeed and consume the whole
//! path; if none does, it falls back to the table's mandatory default handler.

use vstd::prelude::*;

pub mod cursor;
pub mod parsers;
pub mod route;
pub mod laws;

verus! {

use crate::cursor::Cursor;

/// Matches `text` against the characters at the cursor's position, advancing
/// the cursor one character for each character of `text` that agrees with the
/// path.  Returns true only if every character of `text` matched; an empty
/// `text` trivially succeeds without consuming.  On failure the cursor is left
/// after the agreeing prefix (callers retry a failed alternative from a
/// snapshot taken before the attempt).
pub fn matches(cursor: &mut Cursor<'_>, text: &str) -> (r: bool)
    requires
        old(cursor).wf(),
    ensures
        final(cursor).wf(),
        final(cursor).chars() == old(cursor).chars(),
        final(cursor).pos() == old(cursor).pos() + common_prefix_len(
            old(cursor).chars(),
            old(cursor).pos(),
            text@,
        ),
        r == lit_matches(old(cursor).chars(), old(cursor).pos(), text@),
        r ==> final(cursor).pos() == old(cursor).pos() + text@.len(),
{
    let ghost s = old(cursor).chars();
    let ghost p0 = old(cursor).pos();
    let text_len = text.unicode_len();
    let mut i: usize = 0;
    while i < text_len
        invariant
            cursor.wf(),
            text_len == text@.len(),
            cursor.chars() == s,
            s == old(cursor).chars(),
            p0 == old(cursor).pos(),
            0 <= p0 <= s.len(),
            0 <= i <= text_len,
            cursor.pos() == p0 + i,
            p0 + i <= s.len(),
            forall|j: int| 0 <= j < i ==> s[p0 + j] == #[trigger] text@[j],
        decreases text_len - i,
    {
        let expected = text.get_char(i);
        let agreed = match cursor.peek() {
            Some(c) => c == expected,
            None => false,
        };
        if agreed {
            cursor.advance();
            i = i + 1;
        } else {
            proof {
                lemma_common_prefix_len_characterize(s, p0, text@, i as int);
                lemma_common_prefix_len_bounds(s, p0, text@);
            }
            return false;
        }
    }
    proof {
        lemma_common_prefix_len_characterize(s, p0, text@, text@.len() as int);
        lemma_common_prefix_len_bounds(s, p0, text@);
    }
    true
}

/// A literal pattern `t` matches the path `s` at position `pos`: the next
/// `t.len()` characters of `s` exist and equal `t`.
pub open spec fn lit_matches(s: Seq<char>, pos: int, t: Seq<char>) -> bool {
    &&& pos + t.len() <= s.len()
    &&& s.subrange(pos, pos + t.len()) == t
}

/// Length of the longest prefix of `t` that agrees, character by character,
/// with `s` starting at `pos`.
pub open spec fn common_prefix_len(s: Seq<char>, pos: int, t: Seq<char>) -> int
    decreases t.len(),
{
    if t.len() == 0 || !(0 <= pos < s.len()) || s[pos] != t[0] {
        0
    } else {
        1 + common_prefix_len(s, pos + 1, t.drop_first())
    }
}

/// The agreeing prefix never outruns `t` or the end of `s`, and it covers all
/// of `t` exactly when the literal matches.
pub proof fn lemma_common_prefix_len_bounds(s: Seq<char>, pos: int, t: Seq<char>)
    requires
        0 <= pos <= s.len(),
    ensures
        0 <= common_prefix_len(s, pos, t) <= t.len(),
        pos + common_prefix_len(s, pos, t) <= s.len(),
        (common_prefix_len(s, pos, t) == t.len()) == lit_matches(s, pos, t),
    decreases t.len(),
{
    if t.len() == 0 || !(pos < s.len()) || s[pos] != t[0] {
        if t.len() == 0 {
            assert(s.subrange(pos, pos) =~= t);
        } else {
            if pos + t.len() <= s.len() && s.subrange(pos, pos + t.len()) == t {
                assert(s.subrange(pos, pos + t.len())[0] == t[0]);
                assert(false);
            }
        }
    } else {
        lemma_common_prefix_len_bounds(s, pos + 1, t.drop_first());
        let n = common_prefix_len(s, pos + 1, t.drop_first());
        if n == t.len() - 1 {
            let sub = s.subrange(pos + 1, pos + t.len());
            assert(sub == t.drop_first());
            assert forall|k: int| 0 <= k < t.len() implies s.subrange(pos, pos + t.len())[k]
                == t[k] by {
                if k > 0 {
                    assert(sub[k - 1] == t.drop_first()[k - 1]);
                }
            }
            assert(s.subrange(pos, pos + t.len()) =~= t);
        } else {
            if pos + t.len() <= s.len() && s.subrange(pos, pos + t.len()) == t {
                assert forall|k: int| 0 <= k < t.len() - 1 implies s.subrange(
                    pos + 1,
                    pos + t.len(),
                )[k] == t.drop_first()[k] by {
                    assert(s.subrange(pos, pos + t.len())[k + 1] == t[k + 1]);
                }
                assert(s.subrange(pos + 1, pos + t.len()) =~= t.drop_first());
                assert(false);
            }
        }
    }
}

/// If the first `i` characters of `t` agree with `s` at `pos` and the next one
/// does not (or `t` ends there), the agreeing prefix has length exactly `i`.
pub proof fn lemma_common_prefix_len_characterize(s: Seq<char>, pos: int, t: Seq<char>, i: int)
    requires
        0 <= pos,
        0 <= i <= t.len(),
        pos + i <= s.len(),
        forall|j: int| 0 <= j < i ==> s[pos + j] == #[trigger] t[j],
        i < t.len() ==> !(pos + i < s.len() && s[pos + i] == t[i]),
    ensures
        common_prefix_len(s, pos, t) == i,
    decreases i,
{
    if i == 0 {
    } else {
        assert(s[pos + 0] == t[0]);
        assert forall|j: int| 0 <= j < i - 1 implies s[pos + 1 + j]
            == #[trigger] t.drop_first()[j] by {
            assert(s[pos + (j + 1)] == t[j + 1]);
            assert(t.drop_first()[j] == t[j + 1]);
        }
        if i - 1 < t.drop_first().len() {
            assert(t.drop_first()[i - 1] == t[i]);
        }
        lemma_common_prefix_len_characterize(s, pos + 1, t.drop_first(), i - 1);
    }
}

} // verus!
