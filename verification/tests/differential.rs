//! The library's text and path helpers held against the standard library
//! functions whose behaviour their contracts describe, on many inputs.
use parqview::derive::sanitize_ident;
use parqview::paths::{extension, file_name};
use parqview::state::display_cell;
use parqview::text::{
    contains_str, decimal_string, ends_with_str, join_strings, lower_ascii_str, parse_u64_str,
    quote_ident, sql_string, starts_with_str, trim_str,
};
use std::path::Path;

const TEXTS: &[&str] = &[
    "", " ", "a", "abc", "  abc  ", "\tx\n", "ABC def", "ÄÖü", "é", "a\"b", "it's", "0", "007",
    "+1", "+", "-1", "1.5", "18446744073709551615", "18446744073709551616", "99999999999999999999",
    "\u{3000}x\u{3000}", "\u{85}y", "x\r\n", "lost+found", "a.b.c", ".hidden", "dir/", "/",
    "a/..", "a/.", "./a.csv", "/d/x.PARQUET", "C:\\x.csv", "x.", "..", "/a//b.json", "a b",
];

#[test]
fn parse_matches_std() {
    for t in TEXTS {
        assert_eq!(parse_u64_str(t), t.parse::<u64>().ok(), "{t:?}");
    }
}

#[test]
fn decimal_matches_std() {
    for n in [0u128, 1, 9, 10, 99, 100, 12345, u64::MAX as u128, u128::MAX] {
        assert_eq!(decimal_string(n), n.to_string());
    }
}

#[test]
fn trim_and_lower_match_std() {
    for t in TEXTS {
        assert_eq!(trim_str(t), t.trim(), "{t:?}");
        assert_eq!(lower_ascii_str(t), t.to_ascii_lowercase(), "{t:?}");
    }
}

#[test]
fn substring_tests_match_std() {
    for a in TEXTS {
        for b in ["", "a", "b", "abc", ".", "/", "é", "x\r"] {
            assert_eq!(contains_str(a, b), a.contains(b), "{a:?} {b:?}");
            assert_eq!(starts_with_str(a, b), a.starts_with(b), "{a:?} {b:?}");
            assert_eq!(ends_with_str(a, b), a.ends_with(b), "{a:?} {b:?}");
        }
    }
}

#[test]
fn quoting_matches_format() {
    for t in TEXTS {
        assert_eq!(quote_ident(t), format!("\"{}\"", t.replace('"', "\"\"")));
        assert_eq!(sql_string(t), format!("'{}'", t.replace('\'', "''")));
    }
}

#[test]
fn join_matches_std() {
    let parts: Vec<String> = TEXTS.iter().take(6).map(|s| s.to_string()).collect();
    for sep in ["", ", ", "\nUNION ALL\n"] {
        assert_eq!(join_strings(&parts, sep), parts.join(sep));
        assert_eq!(join_strings(&Vec::new(), sep), "");
    }
}

#[test]
fn path_parts_match_std() {
    for t in TEXTS {
        let p = Path::new(t);
        let name = p.file_name().map(|n| n.to_string_lossy().to_string());
        let ext = p.extension().map(|e| e.to_string_lossy().to_string());
        assert_eq!(file_name(t), name, "{t:?}");
        assert_eq!(extension(t), ext, "{t:?}");
    }
}

fn sanitize_by_hand(name: &str) -> String {
    let mut s: String = name
        .chars()
        .map(|c| if c.is_ascii_alphanumeric() { c } else { '_' })
        .collect();
    if s.is_empty() {
        s = "col".into();
    }
    if s.chars().next().is_some_and(|c| c.is_ascii_digit()) {
        s = format!("c_{s}");
    }
    s
}

#[test]
fn sanitize_matches_by_hand() {
    for t in TEXTS {
        assert_eq!(sanitize_ident(t), sanitize_by_hand(t), "{t:?}");
    }
}

fn display_by_hand(cell: &str) -> String {
    if cell.contains('\n') {
        let first = cell.lines().next().unwrap_or("");
        if cell.lines().count() > 1 {
            format!("{first} …")
        } else {
            first.to_string()
        }
    } else if cell.chars().count() > 120 {
        let t: String = cell.chars().take(120).collect();
        format!("{t}…")
    } else if cell.is_empty() {
        "∅".into()
    } else {
        cell.to_string()
    }
}

#[test]
fn grid_cells_match_by_hand() {
    let long = "ü".repeat(130);
    let mut cells: Vec<String> = TEXTS.iter().map(|s| s.to_string()).collect();
    cells.extend(
        ["\n", "\n\n", "a\nb\n", "a\r\n\r\n", "\r\n", "x\ry\nz", "{\n  \"a\": 1\n}"]
            .iter()
            .map(|s| s.to_string()),
    );
    cells.push(long);
    for c in &cells {
        assert_eq!(display_cell(c), display_by_hand(c), "{c:?}");
    }
}
