use parqview::search::{DirFacts, SearchAction, TabularSearch};

fn file(dir: &str, name: &str) -> DirFacts {
    DirFacts { path: format!("{dir}/{name}"), name: name.to_string(), is_file: true, is_dir: false }
}

fn sub(dir: &str, name: &str) -> DirFacts {
    DirFacts { path: format!("{dir}/{name}"), name: name.to_string(), is_file: false, is_dir: true }
}

/// Runs a search against a listing function; returns the directories read,
/// in order, and what was found.
fn run(root: &str, listing: impl Fn(&str) -> Option<Vec<DirFacts>>) -> (Vec<String>, Option<String>) {
    let (mut s, mut a) = TabularSearch::start(root);
    let mut read = Vec::new();
    loop {
        match a {
            SearchAction::ReadDir(d) => {
                assert!(s.is_waiting());
                read.push(d.clone());
                a = s.step(listing(&d));
            }
            SearchAction::Finished(found) => {
                assert!(!s.is_waiting());
                return (read, found);
            }
        }
    }
}

#[test]
fn data_file_in_root_wins() {
    let (read, found) = run("/r", |d| match d {
        "/r" => Some(vec![sub("/r", "a"), file("/r", "notes.txt"), file("/r", "x.CSV"), file("/r", "y.parquet")]),
        _ => Some(vec![file(d, "deep.parquet")]),
    });
    assert_eq!(read, vec!["/r"]);
    assert_eq!(found.as_deref(), Some("/r/x.CSV"));
}

#[test]
fn sql_files_are_not_data() {
    let (_, found) = run("/r", |d| match d {
        "/r" => Some(vec![file("/r", "q.sql")]),
        _ => None,
    });
    assert_eq!(found, None);
}

#[test]
fn walk_is_depth_first_in_listing_order() {
    let (read, found) = run("/r", |d| match d {
        "/r" => Some(vec![sub("/r", "a"), sub("/r", ".git"), sub("/r", "lost+found"), sub("/r", "b")]),
        "/r/a" => Some(vec![sub("/r/a", "a1"), sub("/r/a", "build-cache")]),
        "/r/a/a1" => Some(vec![file("/r/a/a1", "t.jsonl")]),
        "/r/b" => Some(vec![file("/r/b", "u.parquet")]),
        _ => Some(vec![file(d, "hidden.parquet")]),
    });
    assert_eq!(read, vec!["/r", "/r/a", "/r/a/a1"]);
    assert_eq!(found.as_deref(), Some("/r/a/a1/t.jsonl"));
}

#[test]
fn unreadable_and_empty_directories_are_passed_over() {
    let (read, found) = run("/r", |d| match d {
        "/r" => Some(vec![sub("/r", "a"), sub("/r", "b"), sub("/r", "c")]),
        "/r/a" => None,
        "/r/b" => Some(vec![]),
        "/r/c" => Some(vec![file("/r/c", "v.tsv")]),
        _ => None,
    });
    assert_eq!(read, vec!["/r", "/r/a", "/r/b", "/r/c"]);
    assert_eq!(found.as_deref(), Some("/r/c/v.tsv"));
}

#[test]
fn search_stops_below_depth_six() {
    // every directory holds one subdirectory; a data file sits at depth 7
    let (read, found) = run("/r", |d| {
        let depth = d.matches('/').count() - 1;
        if depth == 7 {
            Some(vec![file(d, "far.parquet")])
        } else {
            Some(vec![sub(d, "n")])
        }
    });
    assert_eq!(read.len(), 7);
    assert_eq!(read.last().map(|s| s.as_str()), Some("/r/n/n/n/n/n/n"));
    assert_eq!(found, None);
}

#[test]
fn unreadable_root_finds_nothing() {
    let (read, found) = run("/nowhere", |_| None);
    assert_eq!(read, vec!["/nowhere"]);
    assert_eq!(found, None);
}

#[test]
fn ndjson_files_are_data() {
    let (_, found) = run("/r", |d| match d {
        "/r" => Some(vec![file("/r", "notes.txt"), file("/r", "lines.NDJSON")]),
        _ => None,
    });
    assert_eq!(found.as_deref(), Some("/r/lines.NDJSON"));
}
