//! Concrete checks of the declared properties: exhaustive consumption,
//! overflow rejection at the width boundaries, delimiter and rest capture
//! edges, verb gating, and the default fallback.

use silk_router::cursor::Cursor;
use silk_router::parsers::{num, rest, until, UrlParser};
use silk_router::route::{Capture, Matcher, NumWidth, Outcome, RouteEntry, RouteTable, Value};

fn lit(text: &str) -> Matcher {
    Matcher::Literal(text.to_string())
}

fn entry(method: Option<&str>, segments: Vec<Matcher>, handler: usize) -> RouteEntry {
    RouteEntry { method: method.map(|m| m.to_string()), segments, handler }
}

fn run(table: &RouteTable, method: &str, path: &str) -> (usize, Vec<Capture>) {
    match table.dispatch(method, path) {
        Outcome::Matched { handler, captures } => (handler, captures),
        Outcome::Fallback { handler } => (handler, Vec::new()),
    }
}

#[test]
fn prefix_match_is_not_a_match() {
    let table = RouteTable::new(vec![entry(None, vec![lit("/foo")], 0)], 1);
    let (handler, _) = run(&table, "GET", "/foobar");
    assert_eq!(handler, 1);
}

#[test]
fn short_path_is_not_a_match() {
    let table = RouteTable::new(vec![entry(None, vec![lit("/foo/bar")], 0)], 1);
    let (handler, _) = run(&table, "GET", "/foo");
    assert_eq!(handler, 1);
}

#[test]
fn empty_pattern_matches_only_empty_path() {
    let table = RouteTable::new(vec![entry(None, vec![], 0)], 1);
    let (on_empty, _) = run(&table, "GET", "");
    let (on_rest, _) = run(&table, "GET", "/x");
    assert_eq!((on_empty, on_rest), (0, 1));
}

#[test]
fn literal_pattern_captures_nothing() {
    let table = RouteTable::new(vec![entry(None, vec![lit("/foo/bar")], 0)], 1);
    let (handler, captures) = run(&table, "GET", "/foo/bar");
    assert_eq!((handler, captures.len()), (0, 0));
}

#[test]
fn empty_literal_consumes_nothing() {
    let mut cursor = Cursor::new("/a");
    assert!(silk_router::matches(&mut cursor, ""));
    assert_eq!(cursor.position(), 0);
}

#[test]
fn unicode_literal_paths_match() {
    let table = RouteTable::new(vec![entry(None, vec![lit("/héllo/wörld")], 0)], 1);
    let (on_match, _) = run(&table, "GET", "/héllo/wörld");
    let (on_other, _) = run(&table, "GET", "/héllo/world");
    assert_eq!((on_match, on_other), (0, 1));
}

#[test]
fn overflow_rejects_alternative() {
    let table = RouteTable::new(
        vec![entry(
            None,
            vec![lit("/foo/"), Matcher::Number { name: "id".to_string(), width: NumWidth::U8 }],
            0,
        )],
        1,
    );
    let (in_range, captures) = run(&table, "GET", "/foo/255");
    assert_eq!(in_range, 0);
    assert!(matches!(&captures[0].value, Value::Num(255)));
    let (overflowed, _) = run(&table, "GET", "/foo/256");
    assert_eq!(overflowed, 1);
}

#[test]
fn num_width_boundaries() {
    assert_eq!(parse_all::<u8>("255"), Some(255));
    assert_eq!(parse_all::<u8>("256"), None);
    assert_eq!(parse_all::<u16>("65535"), Some(65535));
    assert_eq!(parse_all::<u16>("65536"), None);
    assert_eq!(parse_all::<u32>("4294967295"), Some(4294967295));
    assert_eq!(parse_all::<u32>("4294967296"), None);
    assert_eq!(parse_all::<u64>("18446744073709551615"), Some(u64::MAX));
    assert_eq!(parse_all::<u64>("18446744073709551616"), None);
    assert_eq!(parse_all::<i8>("127"), Some(127));
    assert_eq!(parse_all::<i8>("128"), None);
    assert_eq!(parse_all::<i16>("32767"), Some(32767));
    assert_eq!(parse_all::<i16>("32768"), None);
    assert_eq!(parse_all::<i32>("2147483647"), Some(2147483647));
    assert_eq!(parse_all::<i32>("2147483648"), None);
    assert_eq!(parse_all::<i64>("9223372036854775807"), Some(i64::MAX));
    assert_eq!(parse_all::<i64>("9223372036854775808"), None);
}

/// Parses the whole of `text` as a numeral of type `T`.
fn parse_all<T: UrlParser>(text: &str) -> Option<T> {
    let mut cursor = Cursor::new(text);
    match num::<T>(&mut cursor) {
        Some(v) if cursor.is_exhausted() => Some(v),
        _ => None,
    }
}

#[test]
fn num_stops_at_first_non_digit() {
    let mut cursor = Cursor::new("42abc");
    let parsed = num::<u32>(&mut cursor);
    assert_eq!(parsed, Some(42));
    assert_eq!(cursor.position(), 2);
}

#[test]
fn num_requires_at_least_one_digit() {
    let mut cursor = Cursor::new("abc");
    assert_eq!(num::<u32>(&mut cursor), None);
    let mut empty = Cursor::new("");
    assert_eq!(num::<u32>(&mut empty), None);
}

#[test]
fn num_leading_zeros_accumulate() {
    assert_eq!(parse_all::<u8>("007"), Some(7));
    assert_eq!(parse_all::<u8>("000255"), Some(255));
    assert_eq!(parse_all::<u8>("000256"), None);
}

#[test]
fn until_splits_at_first_delimiter() {
    let mut cursor = Cursor::new("a:b:c");
    let captured = until(':', &mut cursor);
    assert_eq!(captured.as_deref(), Some("a"));
    assert_eq!(cursor.position(), 2);
}

#[test]
fn until_accepts_empty_capture() {
    let mut cursor = Cursor::new(":tail");
    let captured = until(':', &mut cursor);
    assert_eq!(captured.as_deref(), Some(""));
    assert_eq!(cursor.position(), 1);
}

#[test]
fn until_fails_without_delimiter() {
    let mut cursor = Cursor::new("abc");
    assert_eq!(until(':', &mut cursor), None);
}

#[test]
fn rest_always_succeeds() {
    let mut cursor = Cursor::new("tail");
    assert_eq!(rest(&mut cursor).as_deref(), Some("tail"));
    assert!(cursor.is_exhausted());
    assert_eq!(rest(&mut cursor).as_deref(), Some(""));
}

#[test]
fn verb_mismatch_falls_through() {
    let table = RouteTable::new(vec![entry(Some("POST"), vec![lit("/foo/bar")], 0)], 1);
    let (handler, _) = run(&table, "GET", "/foo/bar");
    assert_eq!(handler, 1);
}

#[test]
fn default_fallback_when_all_entries_fail() {
    let table = RouteTable::new(
        vec![
            entry(None, vec![lit("/a")], 0),
            entry(Some("PUT"), vec![lit("/b")], 1),
            entry(
                None,
                vec![lit("/c/"), Matcher::Number { name: "n".to_string(), width: NumWidth::U8 }],
                2,
            ),
        ],
        7,
    );
    match table.dispatch("GET", "/nowhere") {
        Outcome::Fallback { handler } => assert_eq!(handler, 7),
        Outcome::Matched { .. } => panic!("no entry should have matched"),
    }
}

#[test]
fn empty_table_falls_back() {
    let table = RouteTable::new(Vec::new(), 0);
    match table.dispatch("GET", "/") {
        Outcome::Fallback { handler } => assert_eq!(handler, 0),
        Outcome::Matched { .. } => panic!("an empty table cannot match"),
    }
}

#[test]
fn nested_dispatch_on_rest_capture() {
    let outer = RouteTable::new(
        vec![entry(
            Some("GET"),
            vec![
                lit("/user/"),
                Matcher::Number { name: "id".to_string(), width: NumWidth::U32 },
                Matcher::Rest { name: "sub_url".to_string() },
            ],
            0,
        )],
        1,
    );
    let inner = RouteTable::new(
        vec![entry(None, vec![lit("/settings")], 0), entry(None, vec![lit("/token")], 1)],
        2,
    );
    let (outer_handler, captures) = run(&outer, "GET", "/user/42/token");
    assert_eq!(outer_handler, 0);
    assert!(matches!(&captures[0].value, Value::Num(42)));
    let sub_url = match &captures[1].value {
        Value::Text(s) => s.clone(),
        Value::Num(_) => panic!("rest capture must be text"),
    };
    let (inner_handler, _) = run(&inner, "GET", &sub_url);
    assert_eq!(inner_handler, 1);
}

#[test]
fn first_match_keeps_capture_of_winner() {
    let table = RouteTable::new(
        vec![
            entry(
                None,
                vec![lit("/n/"), Matcher::Number { name: "a".to_string(), width: NumWidth::U8 }],
                0,
            ),
            entry(
                None,
                vec![lit("/n/"), Matcher::Number { name: "b".to_string(), width: NumWidth::U64 }],
                1,
            ),
        ],
        2,
    );
    // Both entries would match; the first declared one supplies the capture.
    let (handler, captures) = run(&table, "GET", "/n/9");
    assert_eq!(handler, 0);
    assert_eq!(captures[0].name, "a");
    // A numeral only the second entry's width admits falls through to it.
    let (handler, captures) = run(&table, "GET", "/n/900");
    assert_eq!(handler, 1);
    assert_eq!(captures[0].name, "b");
    assert!(matches!(&captures[0].value, Value::Num(900)));
}
