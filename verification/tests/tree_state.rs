use parqview::derive::build_derived;
use parqview::display::{
    candidate_lib_dirs, either_set, force_x11, is_truthy_flag, ld_library_path_value,
};
use parqview::duck::QueryResult;
use parqview::paths::{
    extension, file_icon, file_name, has_parquet_ext, is_data_file, is_jsonl, is_sql,
    is_supported, is_tabular, lower_extension,
};
use parqview::relation::DataSource;
use parqview::state::{display_cell, shown_name_of, ParqApp};
use parqview::tree::{
    listing_from, render_window, scan_depth_ok, scan_enters_dir, DirEntry,
    FolderTree, RawEntry, TreeAction,
};

fn strs(v: &[&str]) -> Vec<String> {
    v.iter().map(|s| s.to_string()).collect()
}

fn result(cols: &[&str], rows: &[&[&str]], ms: u128) -> QueryResult {
    QueryResult {
        columns: strs(cols),
        rows: rows.iter().map(|r| strs(r)).collect(),
        row_count_hint: None,
        elapsed_ms: ms,
        sql: String::new(),
    }
}

fn raw(name: &str, is_dir: bool) -> RawEntry {
    RawEntry { name: name.to_string(), path: format!("/r/{name}"), is_dir }
}

fn listed_names(v: &[DirEntry]) -> Vec<String> {
    v.iter().map(|e| e.name.clone()).collect()
}

#[test]
fn path_parts() {
    assert_eq!(file_name("/a/b.csv"), Some("b.csv".to_string()));
    assert_eq!(file_name("/"), None);
    assert_eq!(file_name("a/.."), None);
    assert_eq!(file_name("dir/"), Some("dir".to_string()));
    assert_eq!(extension("x.tar.gz"), Some("gz".to_string()));
    assert_eq!(extension(".bashrc"), None);
    assert_eq!(extension("a."), Some(String::new()));
    assert_eq!(extension("/d.x/file"), None);
    assert_eq!(lower_extension("A.CSV"), "csv");
    assert_eq!(lower_extension("README"), "");
    assert_eq!(shown_name_of("/d/x.csv"), "x.csv");
    assert_eq!(shown_name_of("/"), "file");
}

#[test]
fn file_kinds() {
    assert!(!is_supported("X.NDJSON"));
    assert!(is_supported("X.JSONL"));
    assert!(is_data_file("X.NDJSON"));
    assert!(is_tabular("x.ndjson", false, false));
    assert!(is_supported("q.sql"));
    assert!(!is_supported("notes.txt"));
    assert!(!is_supported("parquet"));
    assert!(is_sql("q.SQL"));
    assert!(!is_data_file("q.sql"));
    assert!(is_data_file("t.Parquet"));
    assert!(is_jsonl("a.ndjson"));
    assert!(!is_jsonl("a.json"));
    assert!(!is_tabular("d", true, false));
    assert!(is_tabular("d", true, true));
    assert!(is_tabular("t.tsv", false, false));
    assert!(!is_tabular("q.sql", false, true));
    assert!(has_parquet_ext("a.Parquet"));
    assert!(!has_parquet_ext("a.parq"));
}

#[test]
fn file_icons() {
    assert_eq!(file_icon("a.parquet"), "▣");
    assert_eq!(file_icon("a.TSV"), "▦");
    assert_eq!(file_icon("a.json"), "{ }");
    assert_eq!(file_icon("a.jsonl"), "☰");
    assert_eq!(file_icon("a.sql"), "Σ");
    assert_eq!(file_icon("a.txt"), "·");
}

#[test]
fn listing_orders_and_filters() {
    let entries = vec![
        raw("b.csv", false),
        raw(".hidden", true),
        raw("z", true),
        raw("notes.txt", false),
        raw("B.json", false),
        raw("a.PARQUET", false),
        raw("A", true),
        raw("Ä.sql", false),
        raw(".x.csv", false),
        raw("lines.ndjson", false),
        raw("lines.jsonl", false),
    ];
    let l = listing_from(&entries);
    assert_eq!(listed_names(&l), strs(&["A", "z", "a.PARQUET", "b.csv", "B.json", "lines.jsonl", "Ä.sql"]));
    assert!(l[0].is_dir && l[1].is_dir && !l[2].is_dir);
    assert_eq!(l[0].path, "/r/A");
}

#[test]
fn listing_ignores_case_and_keeps_ties() {
    let l = listing_from(&vec![raw("B.csv", false), raw("a.csv", false)]);
    assert_eq!(listed_names(&l), strs(&["a.csv", "B.csv"]));
    let l = listing_from(&vec![raw("X.csv", false), raw("x.csv", false)]);
    assert_eq!(listed_names(&l), strs(&["X.csv", "x.csv"]));
    let l = listing_from(&vec![raw("x.csv", false), raw("X.csv", false)]);
    assert_eq!(listed_names(&l), strs(&["x.csv", "X.csv"]));
    assert!(listing_from(&Vec::new()).is_empty());
}

#[test]
fn folder_tree_operations() {
    let mut t = FolderTree::new();
    assert!(t.root.is_none());
    assert!(!t.is_expanded("/r"));
    t.set_root("/r".to_string());
    assert_eq!(t.root.as_deref(), Some("/r"));
    assert!(t.is_expanded("/r"));
    t.toggle_expanded("/r/x");
    assert!(t.is_expanded("/r/x"));
    t.toggle_expanded("/r/x");
    assert!(!t.is_expanded("/r/x"));
    assert!(t.is_expanded("/r"));

    assert!(t.cached("/r").is_none());
    let first = listing_from(&vec![raw("a.csv", false)]);
    t.cache_listing("/r", first);
    let second = listing_from(&vec![raw("b.csv", false)]);
    t.cache_listing("/r", second);
    assert_eq!(listed_names(t.cached("/r").unwrap()), strs(&["a.csv"]));

    t.set_error("denied".to_string());
    assert_eq!(t.error.as_deref(), Some("denied"));
    t.refresh();
    assert!(t.cached("/r").is_none());
    assert!(t.error.is_none());
    assert!(t.is_expanded("/r"));

    t.select("/r/a.csv");
    assert!(t.is_selected("/r/a.csv"));
    assert!(!t.is_selected("/r/b.csv"));
    assert!(matches!(t.open_data("/r/b.csv"), TreeAction::OpenData(p) if p == "/r/b.csv"));
    assert!(t.is_selected("/r/b.csv"));
    assert!(matches!(t.load_sql("/r/q.sql"), TreeAction::LoadSql(p) if p == "/r/q.sql"));
    assert!(t.is_selected("/r/q.sql"));

    t.set_root("/s".to_string());
    assert!(!t.is_expanded("/r"));
    assert!(t.selected.is_none());
}

#[test]
fn render_window_and_scan_limits() {
    assert_eq!(render_window(0), (0, 0));
    assert_eq!(render_window(300), (300, 0));
    assert_eq!(render_window(301), (300, 1));
    assert!(!scan_enters_dir(".git"));
    assert!(!scan_enters_dir("lost+found"));
    assert!(!scan_enters_dir("build-cache"));
    assert!(scan_enters_dir("data"));
    assert!(scan_depth_ok(6));
    assert!(!scan_depth_ok(7));
}

#[test]
fn app_starts_empty() {
    let app = ParqApp::default();
    assert_eq!(app.status, "Open a folder · parquet · csv · json · jsonl · sql");
    assert_eq!(app.preview_limit, 100);
    assert!(app.open_path.is_none() && app.result.is_none() && app.error.is_none());
    assert!(app.show_schema);
}

#[test]
fn app_refuses_missing_and_unsupported() {
    let mut app = ParqApp::default();
    assert!(!app.begin_open("/d/x.csv", false, true));
    assert_eq!(app.error.as_deref(), Some("not found: /d/x.csv"));
    assert!(!app.begin_open("/d/x.txt", true, false));
    assert_eq!(
        app.error.as_deref(),
        Some("unsupported type (want parquet/csv/json/jsonl): /d/x.txt")
    );
    assert!(app.open_path.is_none());
}

#[test]
fn app_open_flow() {
    let mut app = ParqApp::default();
    assert!(app.begin_open("/d/x.csv", true, true));
    assert_eq!(app.open_path.as_deref(), Some("/d/x.csv"));
    assert!(app.tree.is_selected("/d/x.csv"));
    let src = DataSource::file("/d/x.csv");
    let q = app.after_derive(&src, Vec::new());
    assert_eq!(app.sql, "SELECT * FROM read_csv_auto('/d/x.csv', header := true) LIMIT 100");
    assert_eq!(q, "SELECT count(*)::BIGINT AS n FROM read_csv_auto('/d/x.csv', header := true)");
    let q = app.after_count(&src, Ok(result(&["n"], &[&["42"]], 1)));
    assert_eq!(app.total_rows, Some(42));
    assert_eq!(
        q,
        "SELECT column_name, column_type FROM (DESCRIBE SELECT * FROM read_csv_auto('/d/x.csv', header := true))"
    );
    let q = app.after_schema(Ok(result(&["column_name", "column_type"], &[&["a", "INT"]], 1)));
    assert_eq!(q, app.sql);
    assert!(app.schema.is_some());
    app.after_preview("/d/x.csv", Ok(result(&["a", "b"], &[&["1", "2"], &["3", "4"], &["5", "6"]], 7)));
    assert_eq!(app.status, "● x.csv (csv)  ·  2 cols  ·  3 shown / 42  ·  7 ms");
    assert_eq!(app.result.as_ref().unwrap().rows.len(), 3);
    assert!(app.error.is_none());
}

#[test]
fn app_open_with_derived_and_jsonl() {
    let mut app = ParqApp::default();
    assert!(app.begin_open("/d/x.ndjson", true, true));
    let src = DataSource::file("/d/x.ndjson");
    let d = build_derived(&strs(&["rev"]), &strs(&[]));
    let _ = app.after_derive(&src, d);
    assert_eq!(app.derived.len(), 2);
    assert!(app.sql.starts_with("SELECT * FROM (SELECT *, CASE "));
    let q = app.after_count(&src, Err("boom".to_string()));
    assert!(app.total_rows.is_none());
    assert_eq!(app.error.as_deref(), Some("count: boom"));
    assert!(q.starts_with("SELECT column_name, column_type FROM (DESCRIBE SELECT * FROM (SELECT *, "));
    let _ = app.after_schema(Err("bad".to_string()));
    assert_eq!(app.error.as_deref(), Some("schema: bad"));
    app.after_preview("/d/x.ndjson", Ok(result(&["a"], &[&["1"]], 3)));
    assert_eq!(app.status, "● x.ndjson (jsonl)  ·  1 cols  ·  1 shown  ·  +2 derived  ·  3 ms");
    app.after_preview("/d/x.ndjson", Err("gone".to_string()));
    assert_eq!(app.error.as_deref(), Some("preview: gone"));
    assert!(app.result.is_none());
}

#[test]
fn app_runs_sql() {
    let mut app = ParqApp::default();
    app.sql = "  \n ".to_string();
    assert_eq!(app.begin_run_sql(), None);
    assert_eq!(app.error.as_deref(), Some("SQL is empty"));
    app.sql = " select 1 \n".to_string();
    assert_eq!(app.begin_run_sql(), Some("select 1".to_string()));
    assert!(app.error.is_none());
    app.after_run_sql(Ok(result(&["x"], &[&["1"], &["2"]], 5)));
    assert_eq!(app.status, "✓ query  ·  1 cols  ·  2 rows  ·  5 ms");
    app.after_run_sql(Err("Parser Error".to_string()));
    assert_eq!(app.error.as_deref(), Some("Parser Error"));
    assert_eq!(app.status, "✓ query  ·  1 cols  ·  2 rows  ·  5 ms");
    app.clear_sql();
    assert!(app.sql.is_empty());
    app.reset_sql(&DataSource::file("/d/t.parquet"));
    assert_eq!(app.sql, "SELECT * FROM '/d/t.parquet' LIMIT 100");
}

#[test]
fn app_describe_steps() {
    let mut app = ParqApp::default();
    assert_eq!(app.begin_describe(true), None);
    assert_eq!(app.error.as_deref(), Some("open a data file first (parquet/csv/json/jsonl)"));
    assert!(app.begin_open("/d/t.parquet", true, true));
    assert_eq!(app.begin_describe(false), None);
    assert_eq!(app.error.as_deref(), Some("Describe table needs a tabular file open"));
    assert_eq!(app.begin_describe(true), Some("/d/t.parquet".to_string()));
    assert_eq!(app.status, "running intelligent describe…");
    app.after_describe(Ok((result(&["m"], &[&["x"]], 9), "describe · 1 rows".to_string())));
    assert_eq!(app.status, "✓ describe · 1 rows  ·  9 ms");
    app.after_describe(Err("no columns found".to_string()));
    assert_eq!(app.error.as_deref(), Some("describe: no columns found"));
    assert!(app.result.is_some());
}

#[test]
fn app_copies_results() {
    let mut app = ParqApp::default();
    assert_eq!(app.copy_results(), None);
    assert_eq!(app.error.as_deref(), Some("no results to copy"));
    app.after_run_sql(Ok(result(&["a", "b"], &[&["1", "x\ty"]], 0)));
    assert_eq!(app.copy_results(), Some("a\tb\n1\tx y\n".to_string()));
    assert_eq!(app.status, "copied 2×1 TSV to clipboard");
    assert_eq!(app.clipboard_flash.as_deref(), Some("copied 2×1 TSV to clipboard"));
}

#[test]
fn app_sql_files_and_start() {
    let mut app = ParqApp::default();
    app.on_sql_file("/d/q.sql", Ok("select 1".to_string()));
    assert_eq!(app.sql, "select 1");
    assert_eq!(app.status, "loaded SQL · q.sql");
    assert!(app.tree.is_selected("/d/q.sql"));
    app.on_sql_file("/d/r.sql", Err("nope".to_string()));
    assert_eq!(app.error.as_deref(), Some("read sql: nope"));
    assert_eq!(app.sql, "select 1");

    app.start_with_dir("/data");
    assert_eq!(app.tree.root.as_deref(), Some("/data"));
    let a = app.start_with_file("/d/q.sql", Some("/d".to_string()), true, false);
    assert!(matches!(a, Some(TreeAction::LoadSql(p)) if p == "/d/q.sql"));
    assert_eq!(app.tree.root.as_deref(), Some("/d"));
    assert!(app.tree.is_selected("/d/q.sql"));
    let a = app.start_with_file("/d/x.csv", Some("/d".to_string()), false, true);
    assert!(matches!(a, Some(TreeAction::OpenData(p)) if p == "/d/x.csv"));
    assert!(app.start_with_file("x.txt", None, false, false).is_none());
}

#[test]
fn grid_cells() {
    assert_eq!(display_cell(""), "∅");
    assert_eq!(display_cell("a\nb"), "a …");
    assert_eq!(display_cell("a\n"), "a");
    assert_eq!(display_cell("a\n\n"), "a …");
    assert_eq!(display_cell("a\r\nb"), "a …");
    assert_eq!(display_cell("\n"), "");
    let long = "x".repeat(121);
    assert_eq!(display_cell(&long), format!("{}…", "x".repeat(120)));
    assert_eq!(display_cell(&"x".repeat(120)), "x".repeat(120));
    assert_eq!(display_cell(&"é".repeat(121)), format!("{}…", "é".repeat(120)));
}

#[test]
fn display_choices() {
    assert!(is_truthy_flag(Some("yes")));
    assert!(is_truthy_flag(Some("1")));
    assert!(!is_truthy_flag(Some("Yes")));
    assert!(!is_truthy_flag(None));
    assert!(force_x11(true, true));
    assert!(force_x11(false, false));
    assert!(!force_x11(false, true));
    assert!(!either_set(Some(""), None));
    assert!(either_set(None, Some("wayland-0")));
    assert_eq!(
        candidate_lib_dirs(Some("/home/u")),
        strs(&[
            "/run/current-system/sw/share/nix-ld/lib",
            "/run/opengl-driver/lib",
            "/home/u/.nix-profile/lib",
            "/usr/lib",
            "/usr/lib64",
            "/usr/lib/x86_64-linux-gnu",
        ])
    );
    assert_eq!(candidate_lib_dirs(Some("/home/u/"))[2], "/home/u/.nix-profile/lib");
    assert_eq!(candidate_lib_dirs(None).len(), 5);
    assert_eq!(ld_library_path_value(&strs(&["/a", "/b"]), Some("/c")), "/a:/b:/c");
    assert_eq!(ld_library_path_value(&strs(&["/a", "/b"]), Some("")), "/a:/b");
    assert_eq!(ld_library_path_value(&strs(&["/a"]), None), "/a");
}
