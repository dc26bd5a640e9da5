//! Route entries, route tables, and the first-match dispatcher.
//!
//! A route entry is an optional method guard, an ordered sequence of segment
//! matchers and a handler index.  A route table is an ordered sequence of
//! entries plus a mandatory default handler index.  Dispatch tries the
//! entries in declaration order against a fresh cursor over the path and
//! returns the first entry's handler whose matchers all succeed and consume
//! the whole path; otherwise it falls back to the default handler.  Handlers
//! themselves are opaque to the core: the caller keeps them in a list and the
//! dispatcher selects an index into it, together with the captured bindings.

use vstd::prelude::*;

verus! {

use crate::cursor::Cursor;
use crate::lit_matches;
use crate::lemma_common_prefix_len_bounds;
use crate::parsers::digit_run_len;
use crate::parsers::digit_run_value;
use crate::parsers::find_from;
use crate::parsers::scan_number;
use crate::parsers::until;
use crate::parsers::rest;

/// A value captured from the path: a numeral (held as its non-negative
/// magnitude, which every supported width fits) or a string segment.
pub enum Value {
    Num(u64),
    Text(String),
}

/// The mathematical reading of a captured value.
pub enum ValueModel {
    Num(int),
    Text(Seq<char>),
}

impl View for Value {
    type V = ValueModel;

    open spec fn view(&self) -> ValueModel {
        match self {
            Value::Num(n) => ValueModel::Num(*n as int),
            Value::Text(t) => ValueModel::Text(t@),
        }
    }
}

impl DeepView for Value {
    type V = ValueModel;

    open spec fn deep_view(&self) -> ValueModel {
        self.view()
    }
}

/// A named, typed value extracted from the path during a successful match.
pub struct Capture {
    pub name: String,
    pub value: Value,
}

/// The mathematical reading of a capture.
pub struct CaptureModel {
    pub name: Seq<char>,
    pub value: ValueModel,
}

impl View for Capture {
    type V = CaptureModel;

    open spec fn view(&self) -> CaptureModel {
        CaptureModel { name: self.name@, value: self.value@ }
    }
}

impl DeepView for Capture {
    type V = CaptureModel;

    open spec fn deep_view(&self) -> CaptureModel {
        self.view()
    }
}

/// The integer widths a numeric capture can target.
#[derive(Clone, Copy)]
pub enum NumWidth {
    U8,
    U16,
    U32,
    U64,
    I8,
    I16,
    I32,
    I64,
}

/// Largest value a numeric capture of the given width may take.  Numerals are
/// unsigned (a leading minus sign is just a non-digit), so the lower bound of
/// signed widths never comes into play.
pub open spec fn width_max(w: NumWidth) -> int {
    match w {
        NumWidth::U8 => u8::MAX as int,
        NumWidth::U16 => u16::MAX as int,
        NumWidth::U32 => u32::MAX as int,
        NumWidth::U64 => u64::MAX as int,
        NumWidth::I8 => i8::MAX as int,
        NumWidth::I16 => i16::MAX as int,
        NumWidth::I32 => i32::MAX as int,
        NumWidth::I64 => i64::MAX as int,
    }
}

/// `width_max`, computed.
pub fn width_max_u64(w: NumWidth) -> (r: u64)
    ensures
        r as int == width_max(w),
{
    match w {
        NumWidth::U8 => u8::MAX as u64,
        NumWidth::U16 => u16::MAX as u64,
        NumWidth::U32 => u32::MAX as u64,
        NumWidth::U64 => u64::MAX,
        NumWidth::I8 => i8::MAX as u64,
        NumWidth::I16 => i16::MAX as u64,
        NumWidth::I32 => i32::MAX as u64,
        NumWidth::I64 => i64::MAX as u64,
    }
}

/// One step within a pattern: match literal text exactly, or capture a typed
/// value under a binding name.
pub enum Matcher {
    /// Matches iff the next characters equal the text exactly; captures
    /// nothing.
    Literal(String),
    /// Captures a decimal numeral that fits the width.
    Number { name: String, width: NumWidth },
    /// Captures the characters before the first occurrence of the delimiter
    /// and consumes the delimiter too.
    Until { name: String, delim: char },
    /// Captures the entire remainder of the path.
    Rest { name: String },
}

/// What one matcher does to the path `s` at position `pos`: `None` if it
/// fails, otherwise the new position and the captures it contributes.
pub open spec fn seg_model(s: Seq<char>, pos: int, m: Matcher) -> Option<(int, Seq<CaptureModel>)> {
    match m {
        Matcher::Literal(t) => {
            if lit_matches(s, pos, t@) {
                Some((pos + t@.len(), Seq::<CaptureModel>::empty()))
            } else {
                None
            }
        },
        Matcher::Number { name, width } => {
            let k = digit_run_len(s, pos);
            let v = digit_run_value(s, pos);
            if k > 0 && v <= width_max(width) {
                Some(
                    (
                        pos + k,
                        seq![CaptureModel { name: name@, value: ValueModel::Num(v) }],
                    ),
                )
            } else {
                None
            }
        },
        Matcher::Until { name, delim } => {
            match find_from(s, pos, delim) {
                Some(j) => Some(
                    (
                        j + 1,
                        seq![
                            CaptureModel { name: name@, value: ValueModel::Text(s.subrange(pos, j)) }
                        ],
                    ),
                ),
                None => None,
            }
        },
        Matcher::Rest { name } => Some(
            (
                s.len() as int,
                seq![
                    CaptureModel {
                        name: name@,
                        value: ValueModel::Text(s.subrange(pos, s.len() as int)),
                    }
                ],
            ),
        ),
    }
}

/// What a sequence of matchers, applied in order, does to `s` from `pos`:
/// `None` as soon as one fails, otherwise the final position and the
/// accumulated captures in capture order.
pub open spec fn segs_model(s: Seq<char>, pos: int, ms: Seq<Matcher>) -> Option<
    (int, Seq<CaptureModel>),
>
    decreases ms.len(),
{
    if ms.len() == 0 {
        Some((pos, Seq::<CaptureModel>::empty()))
    } else {
        match seg_model(s, pos, ms[0]) {
            None => None,
            Some(step) => {
                match segs_model(s, step.0, ms.drop_first()) {
                    None => None,
                    Some(tail) => Some((tail.0, step.1 + tail.1)),
                }
            },
        }
    }
}

/// A method guard admits a request method iff it is absent or equal to it.
pub open spec fn method_allows(guard: Option<String>, method: Seq<char>) -> bool {
    match guard {
        None => true,
        Some(g) => g@ == method,
    }
}

/// One candidate alternative: an optional method guard, the pattern's
/// segment matchers in order, and the index of the handler to invoke on a
/// match.
pub struct RouteEntry {
    pub method: Option<String>,
    pub segments: Vec<Matcher>,
    pub handler: usize,
}

/// Whether an entry matches the request, and with which captures: the method
/// guard must admit the request's method, every segment matcher must
/// succeed, and the whole path must be consumed — a pattern that matches
/// only a prefix is not a match.
pub open spec fn entry_model(e: RouteEntry, method: Seq<char>, s: Seq<char>) -> Option<
    Seq<CaptureModel>,
> {
    if !method_allows(e.method, method) {
        None
    } else {
        match segs_model(s, 0, e.segments@) {
            Some(outcome) => {
                if outcome.0 == s.len() {
                    Some(outcome.1)
                } else {
                    None
                }
            },
            None => None,
        }
    }
}

/// Index of the first entry at or after `i` that matches the request.
pub open spec fn first_match(
    entries: Seq<RouteEntry>,
    method: Seq<char>,
    s: Seq<char>,
    i: int,
) -> Option<int>
    decreases entries.len() - i,
{
    if !(0 <= i < entries.len()) {
        None
    } else if entry_model(entries[i], method, s) is Some {
        Some(i)
    } else {
        first_match(entries, method, s, i + 1)
    }
}

/// An ordered route table with its mandatory default handler.  Built once
/// and immutable thereafter: routing is a pure function of the request
/// against this table.
pub struct RouteTable {
    pub entries: Vec<RouteEntry>,
    pub default_handler: usize,
}

/// What dispatch returns: the first matching entry's handler with the
/// values captured on the way, or the table's default handler when every
/// entry failed.
pub enum Outcome {
    Matched { handler: usize, captures: Vec<Capture> },
    Fallback { handler: usize },
}

/// Character-for-character string equality.
pub fn str_eq(a: &str, b: &str) -> (r: bool)
    ensures
        r == (a@ == b@),
{
    let a_len = a.unicode_len();
    let b_len = b.unicode_len();
    if a_len != b_len {
        return false;
    }
    let mut i: usize = 0;
    while i < a_len
        invariant
            a_len == a@.len(),
            a_len == b@.len(),
            0 <= i <= a_len,
            forall|j: int| 0 <= j < i ==> a@[j] == #[trigger] b@[j],
        decreases a_len - i,
    {
        if a.get_char(i) != b.get_char(i) {
            return false;
        }
        i = i + 1;
    }
    proof {
        assert(a@ =~= b@);
    }
    true
}

impl Matcher {
    /// Applies this matcher at the cursor.  On success the cursor stands
    /// after the consumed prefix and the matcher's capture, if it makes one,
    /// is appended to `captures`; on failure `captures` is untouched and the
    /// caller abandons the attempt (and with it the cursor).
    pub fn apply(&self, cursor: &mut Cursor<'_>, captures: &mut Vec<Capture>) -> (ok: bool)
        requires
            old(cursor).wf(),
        ensures
            final(cursor).wf(),
            final(cursor).chars() == old(cursor).chars(),
            match seg_model(old(cursor).chars(), old(cursor).pos(), *self) {
                Some(step) => {
                    &&& ok
                    &&& final(cursor).pos() == step.0
                    &&& final(captures).deep_view() == old(captures).deep_view() + step.1
                },
                None => {
                    &&& !ok
                    &&& *final(captures) == *old(captures)
                },
            },
    {
        let ghost s = old(cursor).chars();
        let ghost p0 = old(cursor).pos();
        match self {
            Matcher::Literal(t) => {
                let ok = crate::matches(cursor, t.as_str());
                proof {
                    lemma_common_prefix_len_bounds(s, p0, t@);
                    if ok {
                        assert(captures.deep_view() =~= captures.deep_view()
                            + Seq::<CaptureModel>::empty());
                    }
                }
                ok
            },
            Matcher::Number { name, width } => {
                match scan_number(cursor, width_max_u64(*width)) {
                    Some(v) => {
                        let ghost before = captures.deep_view();
                        captures.push(Capture { name: name.clone(), value: Value::Num(v) });
                        proof {
                            let step = seg_model(s, p0, *self)->Some_0;
                            assert(captures.deep_view() =~= before + step.1);
                        }
                        true
                    },
                    None => false,
                }
            },
            Matcher::Until { name, delim } => {
                match until(*delim, cursor) {
                    Some(piece) => {
                        let ghost before = captures.deep_view();
                        captures.push(Capture { name: name.clone(), value: Value::Text(piece) });
                        proof {
                            let step = seg_model(s, p0, *self)->Some_0;
                            assert(captures.deep_view() =~= before + step.1);
                        }
                        true
                    },
                    None => false,
                }
            },
            Matcher::Rest { name } => {
                match rest(cursor) {
                    Some(piece) => {
                        let ghost before = captures.deep_view();
                        captures.push(Capture { name: name.clone(), value: Value::Text(piece) });
                        proof {
                            let step = seg_model(s, p0, *self)->Some_0;
                            assert(captures.deep_view() =~= before + step.1);
                        }
                        true
                    },
                    None => {
                        proof {
                            assert(false);
                        }
                        false
                    },
                }
            },
        }
    }
}

impl RouteEntry {
    /// Attempts this entry against the request: checks the method guard,
    /// applies the segment matchers in order to a fresh cursor, and demands
    /// that the path be fully consumed.  Returns the captures on a match.
    pub fn try_match(&self, method: &str, path: &str) -> (r: Option<Vec<Capture>>)
        ensures
            match entry_model(*self, method@, path@) {
                Some(model_caps) => r matches Some(caps) && caps.deep_view() == model_caps,
                None => r is None,
            },
    {
        let guard_ok = match &self.method {
            None => true,
            Some(g) => str_eq(g.as_str(), method),
        };
        if !guard_ok {
            return None;
        }
        let ghost s = path@;
        let ghost all = self.segments@;
        let mut cursor = Cursor::new(path);
        let mut captures: Vec<Capture> = Vec::new();
        let n = self.segments.len();
        let mut i: usize = 0;
        proof {
            assert(all.skip(0) =~= all);
            assert(captures.deep_view() =~= Seq::<CaptureModel>::empty());
            match segs_model(s, 0, all) {
                Some(tail) => {
                    assert(captures.deep_view() + tail.1 =~= tail.1);
                },
                None => {},
            }
        }
        while i < n
            invariant
                cursor.wf(),
                cursor.chars() == s,
                s == path@,
                all == self.segments@,
                n == all.len(),
                0 <= i <= n,
                match segs_model(s, cursor.pos(), all.skip(i as int)) {
                    Some(tail) => segs_model(s, 0, all) == Some(
                        (tail.0, captures.deep_view() + tail.1),
                    ),
                    None => segs_model(s, 0, all) is None,
                },
            decreases n - i,
        {
            let ghost pos_before = cursor.pos();
            let ghost caps_before = captures.deep_view();
            let ok = self.segments[i].apply(&mut cursor, &mut captures);
            proof {
                assert(all.skip(i as int)[0] == all[i as int]);
                assert(all.skip(i as int).drop_first() =~= all.skip(i as int + 1));
            }
            if !ok {
                return None;
            }
            proof {
                let step = seg_model(s, pos_before, all[i as int])->Some_0;
                match segs_model(s, cursor.pos(), all.skip(i as int + 1)) {
                    Some(tail) => {
                        assert(segs_model(s, pos_before, all.skip(i as int)) == Some(
                            (tail.0, step.1 + tail.1),
                        ));
                        assert(caps_before + (step.1 + tail.1) =~= (caps_before + step.1)
                            + tail.1);
                    },
                    None => {},
                }
            }
            i = i + 1;
        }
        proof {
            assert(all.skip(n as int) =~= Seq::<Matcher>::empty());
            assert(captures.deep_view() + Seq::<CaptureModel>::empty() =~= captures.deep_view());
        }
        if cursor.is_exhausted() {
            Some(captures)
        } else {
            None
        }
    }
}

impl RouteTable {
    /// Builds a table from its entries and the handler index to fall back to
    /// when no entry matches.  The default is a required argument, so a table
    /// without one cannot be constructed.
    pub fn new(entries: Vec<RouteEntry>, default_handler: usize) -> (t: RouteTable)
        ensures
            t.entries == entries,
            t.default_handler == default_handler,
    {
        RouteTable { entries, default_handler }
    }

    /// Tries the entries in declaration order and returns the first full
    /// match's handler with its captures — later entries are not consulted —
    /// or the default handler when every entry fails.
    pub fn dispatch(&self, method: &str, path: &str) -> (r: Outcome)
        ensures
            match first_match(self.entries@, method@, path@, 0) {
                Some(sel) => r matches Outcome::Matched { handler, captures }
                    && handler == self.entries@[sel].handler
                    && Some(captures.deep_view()) == entry_model(
                    self.entries@[sel],
                    method@,
                    path@,
                ),
                None => r matches Outcome::Fallback { handler } && handler
                    == self.default_handler,
            },
    {
        let n = self.entries.len();
        let mut i: usize = 0;
        while i < n
            invariant
                n == self.entries@.len(),
                0 <= i <= n,
                first_match(self.entries@, method@, path@, 0) == first_match(
                    self.entries@,
                    method@,
                    path@,
                    i as int,
                ),
            decreases n - i,
        {
            match self.entries[i].try_match(method, path) {
                Some(captures) => {
                    return Outcome::Matched { handler: self.entries[i].handler, captures };
                },
                None => {},
            }
            i = i + 1;
        }
        Outcome::Fallback { handler: self.default_handler }
    }
}

} // verus!
