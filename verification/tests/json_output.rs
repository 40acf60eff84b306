//! Reading the DuckDB tool's `-json` output into a grid, and what the grid
//! offers.
use parqview::duck::{
    columns_from_describe, describe_columns_sql, empty_result, interpret_output,
    version_from_output, ProcessOutput, QueryResult, QueryStep,
};
use parqview::json::pretty_cell;

fn ok_out(stdout: &str) -> ProcessOutput {
    ProcessOutput {
        success: true,
        stdout: stdout.to_string(),
        stderr: String::new(),
        status: "exit status: 0".to_string(),
    }
}

fn rows_of(step: QueryStep) -> QueryResult {
    match step {
        QueryStep::Rows(r) => r,
        QueryStep::Failed(m) => panic!("failed: {m}"),
        QueryStep::NoRows => panic!("no rows"),
    }
}

fn failure_of(step: QueryStep) -> String {
    match step {
        QueryStep::Failed(m) => m,
        _ => panic!("expected a failure"),
    }
}

#[test]
fn rows_in_key_order() {
    let out = ok_out("[{\"b\":1,\"a\":\"x\"},{\"a\":null,\"b\":2.5}]\n");
    let r = rows_of(interpret_output("SELECT 1", &out, 12));
    assert_eq!(r.columns, vec!["a", "b"]);
    assert_eq!(r.rows, vec![vec!["x", "1"], vec!["", "2.5"]]);
    assert_eq!(r.row_count_hint, Some(2));
    assert_eq!(r.elapsed_ms, 12);
    assert_eq!(r.sql, "SELECT 1");
}

#[test]
fn nested_and_text_json_cells_are_pretty() {
    let out = ok_out("[{\"j\":{\"k\":1},\"s\":\"[1,2]\",\"t\":true,\"u\":\"{bad\"}]");
    let r = rows_of(interpret_output("q", &out, 0));
    assert_eq!(r.columns, vec!["j", "s", "t", "u"]);
    assert_eq!(r.rows[0][0], "{\n  \"k\": 1\n}");
    assert_eq!(r.rows[0][1], "[\n  1,\n  2\n]");
    assert_eq!(r.rows[0][2], "true");
    assert_eq!(r.rows[0][3], "{bad");
}

#[test]
fn missing_keys_are_empty_cells() {
    let out = ok_out("[{\"a\":1,\"b\":2},{\"a\":3}]");
    let r = rows_of(interpret_output("q", &out, 0));
    assert_eq!(r.rows, vec![vec!["1", "2"], vec!["3", ""]]);
    for row in &r.rows {
        assert_eq!(row.len(), r.columns.len());
    }
}

#[test]
fn failures_say_why() {
    let mut out = ok_out("partial");
    out.success = false;
    out.stderr = "  Catalog Error: no table  \n".to_string();
    assert_eq!(failure_of(interpret_output("q", &out, 0)), "Catalog Error: no table");
    out.stderr = String::new();
    assert_eq!(failure_of(interpret_output("q", &out, 0)), "partial");
    out.stdout = " ".to_string();
    out.status = "exit status: 1".to_string();
    assert_eq!(failure_of(interpret_output("q", &out, 0)), "duckdb exited exit status: 1");
}

#[test]
fn wrong_shapes_fail() {
    let m = failure_of(interpret_output("q", &ok_out("{\"a\":1}"), 0));
    assert_eq!(m, "expected JSON array from duckdb, got {\"a\":1}");
    let m = failure_of(interpret_output("q", &ok_out(" { \"b\" : [ 1 , 2 ] } "), 0));
    assert_eq!(m, "expected JSON array from duckdb, got {\"b\":[1,2]}");
    let m = failure_of(interpret_output("q", &ok_out("\"text\""), 0));
    assert_eq!(m, "expected JSON array from duckdb, got \"text\"");
    let m = failure_of(interpret_output("q", &ok_out("[{\"a\":1}, 3]"), 0));
    assert_eq!(m, "expected object rows in JSON array");
    let m = failure_of(interpret_output("q", &ok_out("[oops"), 0));
    assert!(m.starts_with("parse duckdb JSON:\n[oops: "), "{m}");
}

#[test]
fn no_rows_asks_for_columns() {
    assert!(matches!(interpret_output("q", &ok_out("  \n"), 0), QueryStep::NoRows));
    assert!(matches!(interpret_output("q", &ok_out("[]"), 0), QueryStep::NoRows));
    assert_eq!(
        describe_columns_sql("SELECT 1 AS x"),
        "SELECT column_name FROM (DESCRIBE (SELECT 1 AS x))"
    );
    let cols = columns_from_describe(
        "[{\"column_name\":\"x\",\"column_type\":\"INTEGER\"},{\"column_name\":3},{\"other\":\"y\"},{\"column_name\":\"z\"}]",
    );
    assert_eq!(cols, vec!["x", "z"]);
    assert!(columns_from_describe("").is_empty());
    assert!(columns_from_describe("not json").is_empty());
    assert!(columns_from_describe("{\"column_name\":\"x\"}").is_empty());
    let r = empty_result("q", cols, 5);
    assert_eq!(r.columns, vec!["x", "z"]);
    assert!(r.rows.is_empty());
    assert_eq!(r.row_count_hint, Some(0));
}

#[test]
fn pretty_cell_cases() {
    assert_eq!(pretty_cell("plain"), "plain");
    assert_eq!(pretty_cell("  {\"a\": [1]}  "), "{\n  \"a\": [\n    1\n  ]\n}");
    assert_eq!(pretty_cell("{"), "{");
    assert_eq!(pretty_cell("[x]"), "[x]");
    assert_eq!(pretty_cell(""), "");
}

fn grid() -> QueryResult {
    QueryResult {
        columns: vec!["name".into(), "n".into(), "n".into()],
        rows: vec![vec!["a\tb".into(), "17".into(), "x".into()], vec!["line\nbreak\r".into()]],
        row_count_hint: Some(2),
        elapsed_ms: 0,
        sql: String::new(),
    }
}

#[test]
fn tsv_flattens_cells() {
    let r = grid();
    assert_eq!(r.to_tsv(), "name\tn\tn\na b\t17\tx\nline break \n");
    let empty = QueryResult { columns: vec![], rows: vec![], row_count_hint: None, elapsed_ms: 0, sql: String::new() };
    assert_eq!(empty.to_tsv(), "\n");
}

#[test]
fn get_by_column_name() {
    let r = grid();
    assert_eq!(r.get(&r.rows[0], "n"), Some("17"));
    assert_eq!(r.get(&r.rows[0], "missing"), None);
    assert_eq!(r.get(&r.rows[1], "n"), None);
    assert_eq!(r.get_u64(&r.rows[0], "n"), Some(17));
    assert_eq!(r.get_u64(&r.rows[0], "name"), None);
}

#[test]
fn version_output() {
    let out = ok_out(" v1.2.0 abc\n");
    assert_eq!(version_from_output(&out), Ok("v1.2.0 abc".to_string()));
    let mut bad = ok_out("");
    bad.success = false;
    bad.status = "exit status: 2".into();
    assert_eq!(version_from_output(&bad), Err("duckdb --version failed with status exit status: 2".to_string()));
}

#[test]
fn numbers_are_written_by_serde_json() {
    let out = ok_out("[{\"a\":1e3,\"b\":-0.50,\"c\":12345678901234567890}]");
    let r = rows_of(interpret_output("q", &out, 0));
    assert_eq!(r.rows, vec![vec!["1000.0", "-0.5", "12345678901234567890"]]);
}

#[test]
fn lookup_ignores_column_order() {
    let mk = |cols: &[&str], row: &[&str]| QueryResult {
        columns: cols.iter().map(|s| s.to_string()).collect(),
        rows: vec![row.iter().map(|s| s.to_string()).collect()],
        row_count_hint: None,
        elapsed_ms: 0,
        sql: String::new(),
    };
    let a = mk(&["x", "y", "z"], &["1", "2", "3"]);
    let b = mk(&["z", "x", "y"], &["3", "1", "2"]);
    for c in ["x", "y", "z", "w"] {
        assert_eq!(a.get(&a.rows[0], c), b.get(&b.rows[0], c));
    }
}
