use parqview::derive::{
    build_derived, classify_column, currency_match_sql, enhance_relation, plain_numeric_match_sql,
    sample_query,
    select_star_with_derived, varchar_columns_from, ColumnClass, DeriveScan, DerivedCol,
    DerivedKind, ScanStep,
};
use parqview::describe::{
    add_grain_columns, column_metas_from, column_profile_select, derive_note, fallback_grain,
    filled_predicate, grain_inputs, grain_label, grain_name_bonus, grain_status_from,
    is_numeric_type, merge_grain_header, physical_columns, quoted_list, set_col,
    sort_by_unique_desc, unique_pairs_from, ColMeta,
};
use parqview::describe_task::{DescribeAction, DescribeEvent, DescribeTask};
use parqview::duck::QueryResult;
use parqview::relation::{columns_sql, count_sql, relation_sql, DataSource};

fn grid(rows: &[&[&str]]) -> Vec<Vec<String>> {
    rows.iter().map(|r| r.iter().map(|c| c.to_string()).collect()).collect()
}

fn strs(v: &[&str]) -> Vec<String> {
    v.iter().map(|s| s.to_string()).collect()
}

fn result(cols: &[&str], rows: &[&[&str]]) -> QueryResult {
    QueryResult {
        columns: strs(cols),
        rows: grid(rows),
        row_count_hint: None,
        elapsed_ms: 0,
        sql: String::new(),
    }
}

fn names(d: &[DerivedCol]) -> Vec<String> {
    d.iter().map(|c| c.name.clone()).collect()
}

#[test]
fn varchar_columns_skip_nested_and_short_rows() {
    let rows = grid(&[
        &["name", "VARCHAR"],
        &["age", "INTEGER"],
        &["tags", "VARCHAR[]"],
        &["meta", "STRUCT(a VARCHAR)"],
        &["doc", "JSON"],
        &["short"],
        &["blob", "MAP(VARCHAR, INTEGER)"],
        &["t", "text"],
    ]);
    assert_eq!(varchar_columns_from(&rows), strs(&["name", "doc", "t"]));
}

#[test]
fn classify_column_thresholds() {
    // money-like name: currency from 3/4 of the values
    assert_eq!(classify_column("revenue", &grid(&[&["10", "8", "0"]])), ColumnClass::Currency);
    assert_eq!(classify_column("Price_x", &grid(&[&["20", "15", "0"]])), ColumnClass::Currency);
    assert_eq!(classify_column("price", &grid(&[&["20", "14", "0"]])), ColumnClass::Plain);
    // other names: 9/10
    assert_eq!(classify_column("name", &grid(&[&["10", "8", "0"]])), ColumnClass::Plain);
    assert_eq!(classify_column("name", &grid(&[&["10", "9", "0"]])), ColumnClass::Currency);
    // numbers in text
    assert_eq!(classify_column("qty", &grid(&[&["10", "0", "10"]])), ColumnClass::Numeric);
    assert_eq!(classify_column("qty", &grid(&[&["25", "0", "23"]])), ColumnClass::Numeric);
    assert_eq!(classify_column("qty", &grid(&[&["25", "0", "22"]])), ColumnClass::Plain);
    assert_eq!(classify_column("fee", &grid(&[&["20", "0", "17"]])), ColumnClass::Numeric);
    // half of them look like currency: neither
    assert_eq!(classify_column("qty", &grid(&[&["10", "5", "10"]])), ColumnClass::Plain);
    // too few values, missing or short rows, unreadable counts
    assert_eq!(classify_column("qty", &grid(&[&["4", "0", "4"]])), ColumnClass::Plain);
    assert_eq!(classify_column("qty", &grid(&[])), ColumnClass::Plain);
    assert_eq!(classify_column("qty", &grid(&[&["10", "9"]])), ColumnClass::Plain);
    assert_eq!(classify_column("qty", &grid(&[&["x", "9", "9"]])), ColumnClass::Plain);
}

#[test]
fn build_derived_single_currency() {
    let d = build_derived(&strs(&["revenue"]), &strs(&[]));
    assert_eq!(names(&d), strs(&["pv_deriv_currency", "pv_deriv_currency_value"]));
    assert_eq!(d[0].note, "currency symbol from `revenue`");
    assert_eq!(d[1].note, "numeric amount from `revenue` (K/M/B/T aware)");
    assert!(matches!(&d[0].kind, DerivedKind::CurrencySymbol { source } if source == "revenue"));
    assert!(matches!(&d[1].kind, DerivedKind::CurrencyValue { source } if source == "revenue"));
    assert_eq!(d[0].data_type_label(), "VARCHAR (derived)");
    assert_eq!(d[1].data_type_label(), "DOUBLE (derived)");
    assert!(!d[0].is_numeric());
    assert!(d[1].is_numeric());
}

#[test]
fn build_derived_many_currencies_and_numbers() {
    let d = build_derived(&strs(&["rev enue", "9cost"]), &strs(&["qty", "9cost"]));
    assert_eq!(
        names(&d),
        strs(&[
            "pv_deriv_rev_enue_currency",
            "pv_deriv_rev_enue_currency_value",
            "pv_deriv_c_9cost_currency",
            "pv_deriv_c_9cost_currency_value",
            "pv_deriv_qty",
        ])
    );
    assert_eq!(d[4].note, "numeric cast from varchar `qty`");
    assert_eq!(d[4].data_type_label(), "DOUBLE (derived)");
    assert!(build_derived(&strs(&[]), &strs(&[])).is_empty());
}

#[test]
fn numeric_expr_and_enhanced_relation() {
    let d = build_derived(&strs(&[]), &strs(&["q\"x"]));
    let expr = "try_cast(replace(replace(trim(cast(\"q\"\"x\" AS VARCHAR)), ',', ''), ' ', '') AS DOUBLE)";
    assert_eq!(d[0].sql_expr(), expr);
    assert_eq!(enhance_relation("base", &Vec::new()), "base");
    assert_eq!(
        enhance_relation("base", &d),
        format!("(SELECT *, {expr} AS \"pv_deriv_q_x\" FROM base) t")
    );
    let src = DataSource::file("/d/a.csv");
    assert_eq!(
        select_star_with_derived(&src, &Vec::new(), 3),
        "SELECT * FROM read_csv_auto('/d/a.csv', header := true) LIMIT 3"
    );
}

#[test]
fn currency_symbol_expr_mentions_source() {
    let d = build_derived(&strs(&["amt"]), &strs(&[]));
    let e = d[0].sql_expr();
    assert!(e.starts_with("CASE WHEN regexp_matches(trim(cast(\"amt\" AS VARCHAR)), '€') THEN '€'"));
    assert!(e.ends_with("ELSE regexp_extract(trim(cast(\"amt\" AS VARCHAR)), '([€$£¥₹])', 1) END"));
    let v = d[1].sql_expr();
    assert!(v.contains("WHEN 'T' THEN 1e12"));
    assert!(v.contains("regexp_replace(trim(cast(\"amt\" AS VARCHAR)), '[€$£¥₹,\\s]', '', 'g')"));
}

#[test]
fn derive_scan_runs_query_by_query() {
    let src = DataSource::file("/d/t.parquet");
    let base = relation_sql(&src);
    assert_eq!(base, "'/d/t.parquet'");
    let (mut scan, q) = DeriveScan::start(&src);
    assert_eq!(q, "SELECT column_name, column_type FROM (DESCRIBE SELECT * FROM '/d/t.parquet')");
    assert_eq!(q, columns_sql(&base));
    let listing = grid(&[&["revenue", "VARCHAR"], &["qty", "VARCHAR"], &["n", "BIGINT"]]);
    match scan.step(&listing) {
        ScanStep::Query(q) => assert_eq!(q, sample_query(&base, "revenue")),
        ScanStep::Done(_) => panic!("expected a sample query"),
    }
    match scan.step(&grid(&[&["10", "9", "0"]])) {
        ScanStep::Query(q) => assert_eq!(q, sample_query(&base, "qty")),
        ScanStep::Done(_) => panic!("expected a sample query"),
    }
    match scan.step(&grid(&[&["10", "0", "10"]])) {
        ScanStep::Query(_) => panic!("expected the result"),
        ScanStep::Done(d) => assert_eq!(
            names(&d),
            strs(&["pv_deriv_currency", "pv_deriv_currency_value", "pv_deriv_qty"])
        ),
    }
}

#[test]
fn derive_scan_without_text_columns() {
    let (mut scan, _) = DeriveScan::start(&DataSource::file("/d/t.parquet"));
    assert!(scan.is_waiting());
    match scan.step(&grid(&[&["n", "BIGINT"]])) {
        ScanStep::Done(d) => {
            assert!(d.is_empty());
            assert!(!scan.is_waiting());
        }
        ScanStep::Query(_) => panic!("nothing to sample"),
    }
}

#[test]
fn sample_query_text() {
    let q = sample_query("src", "a");
    let cur = currency_match_sql("v");
    let num = plain_numeric_match_sql("v");
    assert_eq!(
        q,
        format!(
            "WITH s AS (SELECT cast(\"a\" AS VARCHAR) AS v FROM src WHERE \"a\" IS NOT NULL AND trim(cast(\"a\" AS VARCHAR)) <> '' LIMIT 500) SELECT count(*)::BIGINT AS n, count(*) FILTER (WHERE {cur})::BIGINT AS n_cur, count(*) FILTER (WHERE {num})::BIGINT AS n_num FROM s"
        )
    );
}

#[test]
fn column_metas_and_physical() {
    let metas = column_metas_from(&grid(&[&["id", "BIGINT"], &["pv_deriv_x", "DOUBLE"], &["bad"]]));
    assert_eq!(metas.len(), 2);
    assert_eq!(metas[0].name, "id");
    assert!(!metas[0].derived);
    assert_eq!(metas[1].dtype, "DOUBLE");
    assert!(metas[1].derived);
    let phys = physical_columns(&metas);
    assert_eq!(phys.len(), 1);
    assert_eq!(phys[0].name, "id");
}

#[test]
fn numeric_types_and_filled_predicates() {
    assert!(is_numeric_type("BIGINT"));
    assert!(is_numeric_type("REAL"));
    assert!(is_numeric_type("DECIMAL(10,2)"));
    assert!(!is_numeric_type("VARCHAR"));
    assert!(!is_numeric_type("REAL[]"));
    assert_eq!(filled_predicate("\"a\"", "INTEGER[]"), "\"a\" IS NOT NULL");
    assert_eq!(filled_predicate("\"a\"", "LIST"), "\"a\" IS NOT NULL AND len(\"a\") > 0");
    assert_eq!(
        filled_predicate("\"a\"", "UUID"),
        "\"a\" IS NOT NULL AND trim(cast(\"a\" AS VARCHAR)) <> ''"
    );
    assert_eq!(filled_predicate("\"a\"", "DATE"), "\"a\" IS NOT NULL");
}

fn expected_profile(source: &str, name: &str, dtype: &str, derived: bool, numeric: bool, filled: &str) -> String {
    let qn = format!("\"{name}\"");
    let metric = if derived { "derived_profile" } else { "column_profile" };
    let extra = if numeric {
        format!(
            "round(avg(try_cast({qn} AS DOUBLE)), 6) AS avg, \
             min(try_cast({qn} AS DOUBLE)) AS min, \
             round(quantile_cont(try_cast({qn} AS DOUBLE), 0.25), 6) AS q25, \
             round(quantile_cont(try_cast({qn} AS DOUBLE), 0.50), 6) AS q50, \
             round(quantile_cont(try_cast({qn} AS DOUBLE), 0.75), 6) AS q75, \
             max(try_cast({qn} AS DOUBLE)) AS max"
        )
    } else {
        "NULL AS avg, NULL AS min, NULL AS q25, NULL AS q50, NULL AS q75, NULL AS max".to_string()
    };
    let label = if derived { format!("{dtype} (derived)") } else { dtype.to_string() };
    format!(
        "SELECT \
            '{metric}' AS metric_type, \
            '{name}' AS column_name, \
            '{label}' AS data_type, \
            count(*)::BIGINT AS row_count, \
            count(DISTINCT {qn})::BIGINT AS unique_count, \
            round(count(*) FILTER (WHERE {filled})::DOUBLE / nullif(count(*), 0), 4) AS coverage_rate, \
            {extra} \
         FROM {source}"
    )
}

#[test]
fn column_profile_selects() {
    let meta = |n: &str, t: &str, d: bool| ColMeta { name: n.to_string(), dtype: t.to_string(), derived: d };
    let text_fill = |n: &str| format!("\"{n}\" IS NOT NULL AND trim(cast(\"{n}\" AS VARCHAR)) <> ''");
    assert_eq!(
        column_profile_select("src", &meta("name", "VARCHAR", false)),
        expected_profile("src", "name", "VARCHAR", false, false, &text_fill("name"))
    );
    assert_eq!(
        column_profile_select("src", &meta("n", "BIGINT", false)),
        expected_profile("src", "n", "BIGINT", false, true, "\"n\" IS NOT NULL")
    );
    assert_eq!(
        column_profile_select("src", &meta("pv_deriv_currency", "VARCHAR", true)),
        expected_profile("src", "pv_deriv_currency", "VARCHAR", true, false, &text_fill("pv_deriv_currency"))
    );
    assert_eq!(
        column_profile_select("src", &meta("pv_deriv_qty", "VARCHAR", true)),
        expected_profile("src", "pv_deriv_qty", "VARCHAR", true, true, &text_fill("pv_deriv_qty"))
    );
    assert_eq!(
        column_profile_select("src", &meta("x_currency_value", "VARCHAR", false)),
        expected_profile("src", "x_currency_value", "VARCHAR", false, true, &text_fill("x_currency_value"))
    );
}

#[test]
fn unique_pairs_and_candidates() {
    let pairs = unique_pairs_from(&grid(&[&["a", "3"], &["b", "x"], &["c"]]));
    assert_eq!(pairs, vec![("a".to_string(), 3), ("b".to_string(), 0)]);
    let metas = column_metas_from(&grid(&[&["b", "INT"], &["z", "INT"], &["a", "INT"]]));
    let cands = grain_inputs(&metas, &pairs);
    assert_eq!(
        cands,
        vec![("b".to_string(), 0), ("z".to_string(), 0), ("a".to_string(), 3)]
    );
}

#[test]
fn grain_name_bonuses() {
    assert_eq!(grain_name_bonus("user_id"), 5);
    assert_eq!(grain_name_bonus("ID"), 5);
    assert_eq!(grain_name_bonus("uuid"), 9);
    assert_eq!(grain_name_bonus("guid_x"), 4);
    assert_eq!(grain_name_bonus("pk_key"), 3);
    assert_eq!(grain_name_bonus("name"), 0);
}

fn pairs(v: &[(&str, u64)]) -> Vec<(String, u64)> {
    v.iter().map(|(n, u)| (n.to_string(), *u)).collect()
}

#[test]
fn sort_keeps_ties_in_order() {
    let s = sort_by_unique_desc(&pairs(&[("a", 5), ("b", 10), ("c", 7), ("d", 7), ("e", 1)]));
    assert_eq!(s, pairs(&[("b", 10), ("c", 7), ("d", 7), ("a", 5), ("e", 1)]));
}

#[test]
fn fallback_grain_cases() {
    let g = fallback_grain(&pairs(&[("a", 5), ("b", 10), ("c_id", 7), ("d_date", 7), ("e", 1)]));
    assert_eq!(g, strs(&["c_id", "d_date"]));
    assert_eq!(fallback_grain(&pairs(&[("a", 1), ("b", 2)])), strs(&["b", "a"]));
    assert!(fallback_grain(&pairs(&[("a", 1)])).is_empty());
    assert_eq!(fallback_grain(&pairs(&[("x", 9), ("y_id", 1), ("z", 5)])), strs(&["x", "z"]));
    // only the six most distinct columns are looked at
    let g = fallback_grain(&pairs(&[
        ("a", 9), ("b", 8), ("c", 7), ("d", 6), ("e", 5), ("f", 4), ("g_id", 3), ("h_key", 2),
    ]));
    assert_eq!(g, strs(&["a", "b"]));
    assert!(fallback_grain(&pairs(&[])).is_empty());
}

#[test]
fn grain_status_and_labels() {
    let cols = ["row_count", "grain_groups", "max_per_group"];
    assert_eq!(grain_status_from(&result(&cols, &[&["10", "10", "1"]]), 10), "unique grain (1 row per key)");
    assert_eq!(
        grain_status_from(&result(&cols, &[&["10", "8", "3"]]), 10),
        "approx grain · 8 groups · max 3 rows/group"
    );
    assert_eq!(grain_status_from(&result(&cols, &[]), 10), "grain validated");
    assert_eq!(
        grain_status_from(&result(&["x"], &[&["1"]]), 10),
        "approx grain · 0 groups · max 0 rows/group"
    );
    assert_eq!(grain_label(&strs(&[])), "(none detected)");
    assert_eq!(grain_label(&strs(&["a", "b"])), "a, b");
    assert_eq!(quoted_list(&strs(&["a", "b\"c"])), "\"a\", \"b\"\"c\"");
    assert_eq!(derive_note(&Vec::new()), "none");
    let d = build_derived(&strs(&["r"]), &strs(&[]));
    assert_eq!(derive_note(&d), "pv_deriv_currency, pv_deriv_currency_value");
}

#[test]
fn set_col_cases() {
    let cols = strs(&["a", "b"]);
    let mut row = strs(&["", ""]);
    set_col(&cols, &mut row, "b", "x");
    assert_eq!(row, strs(&["", "x"]));
    set_col(&cols, &mut row, "z", "y");
    assert_eq!(row, strs(&["", "x"]));
    let mut short = strs(&[""]);
    set_col(&cols, &mut short, "b", "x");
    assert_eq!(short, strs(&[""]));
}

#[test]
fn grain_columns_and_header() {
    let mut p = result(&["x"], &[&["1"], &["2"]]);
    add_grain_columns(&mut p, "id", "ok", "none");
    assert_eq!(p.columns, strs(&["x", "detected_grain", "grain_note", "derived_cols"]));
    assert_eq!(p.rows, grid(&[&["1", "id", "ok", "none"], &["2", "id", "ok", "none"]]));

    let profile = result(
        &[
            "metric_type", "column_name", "data_type", "row_count", "unique_count",
            "coverage_rate", "detected_grain", "grain_note", "extra",
        ],
        &[&["column_profile", "a", "INT", "10", "9", "1.0", "a, b", "n", "e"]],
    );
    let gq = result(&["row_count", "unique_count", "max_rows_per_grain"], &[&["10", "9", "2"]]);
    let merged = merge_grain_header(profile.clone(), &strs(&["a", "b"]), &gq, "n", Some("0.9000".to_string()));
    assert_eq!(merged.columns, profile.columns);
    assert_eq!(merged.rows.len(), 2);
    assert_eq!(merged.rows[0], strs(&["grain_summary", "a + b", "GRAIN", "10", "9", "0.9000", "a, b", "n", ""]));
    assert_eq!(merged.rows[1], profile.rows[0]);
    let empty_q = result(&["row_count"], &[]);
    let merged = merge_grain_header(profile.clone(), &strs(&["a"]), &empty_q, "n", None);
    assert_eq!(merged.rows[0], strs(&["grain_summary", "a", "GRAIN", "", "", "", "a", "n", ""]));
}

fn expect_query(a: DescribeAction) -> String {
    match a {
        DescribeAction::Query(q) => q,
        _ => panic!("expected a query"),
    }
}

#[test]
fn describe_task_full_run() {
    let src = DataSource::file("/d/t.csv");
    let base = relation_sql(&src);
    let (task, action) = DescribeTask::start(&src, Vec::new());
    assert!(!task.accepts_event(&DescribeEvent::Choice(None)));
    assert!(task.accepts_event(&DescribeEvent::Answer(Err(String::new()))));
    assert_eq!(expect_query(action), columns_sql(&base));
    let listing = result(&["column_name", "column_type"], &[&["id", "BIGINT"], &["name", "VARCHAR"]]);
    let (task, action) = task.step(DescribeEvent::Answer(Ok(listing)));
    assert_eq!(expect_query(action), count_sql(&base));
    let (task, action) = task.step(DescribeEvent::Answer(Ok(result(&["n"], &[&["3"]]))));
    let uq = expect_query(action);
    assert_eq!(
        uq,
        format!("SELECT 'id' AS col, count(DISTINCT \"id\")::BIGINT AS u FROM {base} UNION ALL SELECT 'name' AS col, count(DISTINCT \"name\")::BIGINT AS u FROM {base}")
    );
    let (task, action) = task.step(DescribeEvent::Answer(Ok(result(&["col", "u"], &[&["id", "3"], &["name", "2"]]))));
    assert!(task.accepts_event(&DescribeEvent::Choice(None)));
    assert!(!task.accepts_event(&DescribeEvent::Answer(Err(String::new()))));
    match action {
        DescribeAction::ScoreGrain(c, n) => {
            assert_eq!(c, pairs(&[("id", 3), ("name", 2)]));
            assert_eq!(n, 3);
        }
        _ => panic!("expected a ranking request"),
    }
    let (task, action) = task.step(DescribeEvent::Choice(Some("id".to_string())));
    let vq = expect_query(action);
    assert_eq!(
        vq,
        format!("SELECT 3::BIGINT AS row_count, (SELECT count(*) FROM (SELECT 1 FROM {base} GROUP BY \"id\"))::BIGINT AS grain_groups, (SELECT max(c) FROM (SELECT count(*)::BIGINT AS c FROM {base} GROUP BY \"id\"))::BIGINT AS max_per_group")
    );
    let (task, action) = task.step(DescribeEvent::Answer(Ok(result(
        &["row_count", "grain_groups", "max_per_group"],
        &[&["3", "3", "1"]],
    ))));
    let pq = expect_query(action);
    let meta = |n: &str, t: &str| ColMeta { name: n.to_string(), dtype: t.to_string(), derived: false };
    assert_eq!(
        pq,
        format!(
            "{}\nUNION ALL\n{}",
            column_profile_select(&base, &meta("id", "BIGINT")),
            column_profile_select(&base, &meta("name", "VARCHAR"))
        )
    );
    let profile = result(
        &["metric_type", "column_name", "data_type", "row_count", "unique_count", "coverage_rate"],
        &[&["column_profile", "id", "BIGINT", "3", "3", "1.0"], &["column_profile", "name", "VARCHAR", "3", "2", "1.0"]],
    );
    let (task, action) = task.step(DescribeEvent::Answer(Ok(profile)));
    let gq = expect_query(action);
    assert_eq!(
        gq,
        format!("SELECT 3::BIGINT AS row_count, (SELECT count(*) FROM (SELECT 1 FROM {base} GROUP BY \"id\"))::BIGINT AS unique_count, (SELECT max(c) FROM (SELECT count(*)::BIGINT AS c FROM {base} GROUP BY \"id\"))::BIGINT AS max_rows_per_grain")
    );
    let (task, action) = task.step(DescribeEvent::Answer(Ok(result(
        &["row_count", "unique_count", "max_rows_per_grain"],
        &[&["3", "3", "1"]],
    ))));
    match &action {
        DescribeAction::FormatCoverage(t, u) => {
            assert_eq!(t, "3");
            assert_eq!(u, "3");
        }
        _ => panic!("expected a coverage request"),
    }
    let (_, action) = task.step(DescribeEvent::Choice(Some("1.0000".to_string())));
    match action {
        DescribeAction::Finished(Ok((p, summary))) => {
            assert_eq!(summary, "describe · 3 rows · 2 cols (+0 derived) · grain: id · unique grain (1 row per key)");
            assert_eq!(p.rows.len(), 3);
            assert_eq!(p.rows[0][0], "grain_summary");
            assert_eq!(p.rows[0][5], "1.0000");
            assert_eq!(p.rows[1][6], "id");
            assert_eq!(p.rows[1][7], "unique grain (1 row per key)");
            assert_eq!(p.rows[1][8], "none");
        }
        _ => panic!("expected the finished profile"),
    }
}

#[test]
fn describe_task_empty_table() {
    let src = DataSource::file("/d/t.parquet");
    let (task, _) = DescribeTask::start(&src, Vec::new());
    let listing = result(&["column_name", "column_type"], &[&["a", "INT"], &["pv_deriv_b", "DOUBLE"]]);
    let (task, _) = task.step(DescribeEvent::Answer(Ok(listing)));
    let (task, action) = task.step(DescribeEvent::Answer(Ok(result(&["n"], &[&["0"]]))));
    let _ = expect_query(action);
    let (_, action) = task.step(DescribeEvent::Answer(Ok(result(&["metric_type"], &[&["column_profile"]]))));
    match action {
        DescribeAction::Finished(Ok((p, summary))) => {
            assert_eq!(summary, "describe · 0 rows · 1 cols · (empty table)");
            assert_eq!(p.rows.len(), 1);
        }
        _ => panic!("expected the finished profile"),
    }
}

#[test]
fn describe_task_errors() {
    let src = DataSource::file("/d/t.parquet");
    let (task, _) = DescribeTask::start(&src, Vec::new());
    let (_, action) = task.step(DescribeEvent::Answer(Err("boom".to_string())));
    assert!(matches!(action, DescribeAction::Finished(Err(e)) if e == "boom"));

    let (task, _) = DescribeTask::start(&src, Vec::new());
    let (_, action) = task.step(DescribeEvent::Answer(Ok(result(&["column_name", "column_type"], &[]))));
    assert!(matches!(action, DescribeAction::Finished(Err(e)) if e == "no columns found"));

    let (task, _) = DescribeTask::start(&src, Vec::new());
    let (task, _) = task.step(DescribeEvent::Answer(Ok(result(&["c", "t"], &[&["a", "INT"]]))));
    let (task, _) = task.step(DescribeEvent::Answer(Ok(result(&["n"], &[&["0"]]))));
    let (_, action) = task.step(DescribeEvent::Answer(Err("bad".to_string())));
    assert!(matches!(action, DescribeAction::Finished(Err(e)) if e == "column profile query: bad"));
}

#[test]
fn describe_task_without_grain() {
    let src = DataSource::file("/d/t.parquet");
    let (task, _) = DescribeTask::start(&src, Vec::new());
    let (task, _) = task.step(DescribeEvent::Answer(Ok(result(&["c", "t"], &[&["a", "INT"]]))));
    let (task, _) = task.step(DescribeEvent::Answer(Ok(result(&["n"], &[&["5"]]))));
    let (task, _) = task.step(DescribeEvent::Answer(Ok(result(&["col", "u"], &[&["a", "2"]]))));
    // one column, not unique: no grain at all
    let (task, action) = task.step(DescribeEvent::Choice(None));
    let _ = expect_query(action);
    let (_, action) = task.step(DescribeEvent::Answer(Ok(result(&["metric_type"], &[&["column_profile"]]))));
    match action {
        DescribeAction::Finished(Ok((p, summary))) => {
            assert_eq!(
                summary,
                "describe · 5 rows · 1 cols (+0 derived) · grain: (none detected) · no unique grain found (approx or multi-col needed)"
            );
            assert_eq!(p.rows[0], strs(&["column_profile", "(none detected)", "no unique grain found (approx or multi-col needed)", "none"]));
        }
        _ => panic!("expected the finished profile"),
    }
}
