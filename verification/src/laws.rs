//! Proved laws of the matching engine.
//!
//! Each proof function states a property of the dispatch model that holds for
//! every route table, request method and path, over the same spec functions
//! that the executable functions' contracts use.

use vstd::prelude::*;

verus! {

use crate::route::Matcher;
use crate::route::RouteEntry;
use crate::route::entry_model;
use crate::route::seg_model;
use crate::route::segs_model;
use crate::route::first_match;
use crate::route::width_max;
use crate::parsers::digit_run_value;

/// Exhaustiveness: an entry whose segment matchers all succeed but leave
/// trailing unconsumed input is not a match.
pub proof fn lemma_exhaustiveness(e: RouteEntry, method: Seq<char>, s: Seq<char>)
    requires
        segs_model(s, 0, e.segments@) matches Some(outcome) && outcome.0 != s.len(),
    ensures
        entry_model(e, method, s) is None,
{
}

/// The selection is sound: a selected index points at a matching entry, and
/// every entry tried before it failed; when nothing is selected, every entry
/// failed.
pub proof fn lemma_first_match_sound(
    entries: Seq<RouteEntry>,
    method: Seq<char>,
    s: Seq<char>,
    i: int,
)
    requires
        0 <= i,
    ensures
        match first_match(entries, method, s, i) {
            Some(k) => {
                &&& i <= k < entries.len()
                &&& entry_model(entries[k], method, s) is Some
                &&& forall|j: int|
                    i <= j < k ==> #[trigger] entry_model(entries[j], method, s) is None
            },
            None => forall|j: int|
                i <= j < entries.len() ==> #[trigger] entry_model(entries[j], method, s) is None,
        },
    decreases entries.len() - i,
{
    if 0 <= i < entries.len() && entry_model(entries[i], method, s) is None {
        lemma_first_match_sound(entries, method, s, i + 1);
    }
}

/// First-match priority, general form: when entry `i` matches, the selected
/// index is never later than `i`.
pub proof fn lemma_first_match_le(
    entries: Seq<RouteEntry>,
    method: Seq<char>,
    s: Seq<char>,
    i: int,
)
    requires
        0 <= i < entries.len(),
        entry_model(entries[i], method, s) is Some,
    ensures
        first_match(entries, method, s, 0) matches Some(k) && 0 <= k <= i,
{
    lemma_first_match_sound(entries, method, s, 0);
    match first_match(entries, method, s, 0) {
        Some(k) => {
            if k > i {
                assert(entry_model(entries[i], method, s) is None);
            }
        },
        None => {
            assert(entry_model(entries[i], method, s) is None);
        },
    }
}

/// First-match priority: given two entries with identical patterns (same
/// guard, same segment matchers) and, in particular, different handlers,
/// dispatch on a matching path selects the earlier-declared entry — so its
/// handler, never the later one's.
pub proof fn lemma_first_match_priority(
    e1: RouteEntry,
    e2: RouteEntry,
    method: Seq<char>,
    s: Seq<char>,
)
    requires
        e1.segments@ == e2.segments@,
        e1.method == e2.method,
        entry_model(e1, method, s) is Some,
    ensures
        first_match(seq![e1, e2], method, s, 0) == Some(0int),
{
    assert(seq![e1, e2][0] == e1);
}

/// Exhaustiveness at the table: an entry that only matches a prefix of the
/// path is never the selected alternative.
pub proof fn lemma_unconsumed_never_selected(
    entries: Seq<RouteEntry>,
    method: Seq<char>,
    s: Seq<char>,
    i: int,
)
    requires
        0 <= i < entries.len(),
        segs_model(s, 0, entries[i].segments@) matches Some(outcome) && outcome.0 != s.len(),
    ensures
        first_match(entries, method, s, 0) != Some(i),
{
    lemma_exhaustiveness(entries[i], method, s);
    lemma_first_match_sound(entries, method, s, 0);
}

/// Verb gating: an entry guarded by one method never matches a request made
/// with a different method, whatever the path.
pub proof fn lemma_verb_gating(e: RouteEntry, method: Seq<char>, s: Seq<char>)
    requires
        e.method matches Some(g) && g@ != method,
    ensures
        entry_model(e, method, s) is None,
{
}

/// Overflow rejection: a numeric capture whose digit run exceeds the target
/// width's range fails the segment (and with it the alternative), rather
/// than truncating or wrapping.
pub proof fn lemma_overflow_rejection(s: Seq<char>, pos: int, m: Matcher)
    requires
        m matches Matcher::Number { name: _, width } && digit_run_value(s, pos) > width_max(
            width,
        ),
    ensures
        seg_model(s, pos, m) is None,
{
}

/// Default fallback: when every entry fails for a request, nothing is
/// selected, so dispatch returns the table's default handler and no entry
/// handler.
pub proof fn lemma_default_fallback(entries: Seq<RouteEntry>, method: Seq<char>, s: Seq<char>)
    requires
        forall|j: int|
            0 <= j < entries.len() ==> #[trigger] entry_model(entries[j], method, s) is None,
    ensures
        first_match(entries, method, s, 0) is None,
{
    lemma_first_match_sound(entries, method, s, 0);
    match first_match(entries, method, s, 0) {
        Some(k) => {
            assert(entry_model(entries[k], method, s) is None);
        },
        None => {},
    }
}

} // verus!
