//! SQL text: quoting, identifiers, relations and the derived expressions,
//! each compared with the text written out by hand.
use parqview::derive::{
    currency_match_sql, currency_value_expr, enhance_relation, plain_numeric_match_sql,
    sanitize_ident, select_star_with_derived, DerivedCol, DerivedKind,
};
use parqview::relation::{
    count_file_sql, default_sql_for, describe_file_sql, path_sql, preview_sql, relation_sql,
    DataSource,
};
use parqview::text::{decimal_string, parse_u64_str, quote_ident, sql_string, trim_str};

fn expected_quote_ident(name: &str) -> String {
    format!("\"{}\"", name.replace('"', "\"\""))
}

fn expected_currency_value_expr(qn: &str) -> String {
    format!(
        "(\
            try_cast(\
                regexp_extract(\
                    regexp_replace(trim(cast({qn} AS VARCHAR)), '[€$£¥₹,\\s]', '', 'g'), \
                    '([-+]?[0-9]*\\.?[0-9]+)', 1\
                ) AS DOUBLE\
            ) * CASE upper(coalesce(\
                nullif(regexp_extract(\
                    regexp_replace(trim(cast({qn} AS VARCHAR)), '[€$£¥₹,\\s]', '', 'g'), \
                    '([KkMmBbTt])\\s*$', 1\
                ), ''), \
                ''\
            )) \
                WHEN 'K' THEN 1e3 \
                WHEN 'M' THEN 1e6 \
                WHEN 'B' THEN 1e9 \
                WHEN 'T' THEN 1e12 \
                ELSE 1.0 \
            END\
        )"
    )
}

fn expected_symbol_expr(q: &str) -> String {
    format!(
        "CASE \
            WHEN regexp_matches(trim(cast({q} AS VARCHAR)), '€') THEN '€' \
            WHEN regexp_matches(trim(cast({q} AS VARCHAR)), '\\$') THEN '$' \
            WHEN regexp_matches(trim(cast({q} AS VARCHAR)), '£') THEN '£' \
            WHEN regexp_matches(trim(cast({q} AS VARCHAR)), '¥') THEN '¥' \
            WHEN regexp_matches(trim(cast({q} AS VARCHAR)), '₹') THEN '₹' \
            WHEN regexp_matches(upper(trim(cast({q} AS VARCHAR))), '\\bEUR\\b') THEN 'EUR' \
            WHEN regexp_matches(upper(trim(cast({q} AS VARCHAR))), '\\bUSD\\b') THEN 'USD' \
            WHEN regexp_matches(upper(trim(cast({q} AS VARCHAR))), '\\bGBP\\b') THEN 'GBP' \
            WHEN regexp_matches(upper(trim(cast({q} AS VARCHAR))), '\\bJPY\\b') THEN 'JPY' \
            ELSE regexp_extract(trim(cast({q} AS VARCHAR)), '([€$£¥₹])', 1) \
         END"
    )
}

fn expected_numeric_expr(q: &str) -> String {
    format!("try_cast(replace(replace(trim(cast({q} AS VARCHAR)), ',', ''), ' ', '') AS DOUBLE)")
}

fn col(name: &str, kind: DerivedKind) -> DerivedCol {
    DerivedCol { name: name.to_string(), kind, note: String::new() }
}

#[test]
fn quote_ident_doubles_quotes() {
    assert_eq!(quote_ident("revenue"), "\"revenue\"");
    assert_eq!(quote_ident("a\"b"), "\"a\"\"b\"");
    assert_eq!(quote_ident(""), "\"\"");
    assert_eq!(quote_ident("\"\""), expected_quote_ident("\"\""));
}

#[test]
fn sql_string_doubles_single_quotes() {
    assert_eq!(sql_string("it's"), "'it''s'");
    assert_eq!(path_sql("/data/o'neil.parquet"), "'/data/o''neil.parquet'");
    assert_eq!(sql_string(""), "''");
}

#[test]
fn quoting_reads_back() {
    // Reading a quoted identifier back (doubled quotes become one) gives the name.
    let name = "we\"ird \"\"name";
    let q = quote_ident(name);
    let inner = &q[1..q.len() - 1];
    assert_eq!(inner.replace("\"\"", "\""), name);
}

#[test]
fn sanitize_ident_cases() {
    assert_eq!(sanitize_ident("revenue ($)"), "revenue____");
    assert_eq!(sanitize_ident(""), "col");
    assert_eq!(sanitize_ident("1st_value"), "c_1st_value");
    assert_eq!(sanitize_ident("é"), "_");
    assert_eq!(sanitize_ident("Total Assets"), "Total_Assets");
}

#[test]
fn sanitized_names_are_identifiers() {
    for name in ["", "9", "a-b", "ÄÖ", "x y z", "_"] {
        let s = sanitize_ident(name);
        assert!(!s.is_empty());
        assert!(!s.chars().next().unwrap().is_ascii_digit());
        assert!(s.chars().all(|c| c.is_ascii_alphanumeric() || c == '_'));
    }
}

#[test]
fn relation_of_files() {
    assert_eq!(relation_sql(&DataSource::file("/d/a.parquet")), "'/d/a.parquet'");
    assert_eq!(
        relation_sql(&DataSource::file("/d/a.jsonl")),
        "read_json_auto('/d/a.jsonl', format := 'newline_delimited')"
    );
    assert_eq!(
        relation_sql(&DataSource::file("/d/a.NDJSON")),
        "read_json_auto('/d/a.NDJSON', format := 'newline_delimited')"
    );
    assert_eq!(relation_sql(&DataSource::file("/d/a.Json")), "read_json_auto('/d/a.Json')");
    assert_eq!(
        relation_sql(&DataSource::file("/d/a.tsv")),
        "read_csv_auto('/d/a.tsv', header := true)"
    );
    assert_eq!(relation_sql(&DataSource::file("/d/noext")), "'/d/noext'");
    assert_eq!(relation_sql(&DataSource::file("/d/.csv")), "'/d/.csv'");
}

#[test]
fn relation_of_directories() {
    assert_eq!(
        relation_sql(&DataSource::directory("/lake/o'x", true)),
        "read_parquet('/lake/o''x/*.parquet', union_by_name := true)"
    );
    assert_eq!(
        relation_sql(&DataSource::directory("/lake", false)),
        "read_parquet('/lake/**/*.parquet', union_by_name := true)"
    );
}

#[test]
fn queries_of_a_data_path() {
    let s = DataSource::file("/d/a.csv");
    let rel = "read_csv_auto('/d/a.csv', header := true)";
    assert_eq!(preview_sql(&s, 25), format!("SELECT * FROM {rel} LIMIT 25"));
    assert_eq!(default_sql_for(&s), format!("SELECT * FROM {rel} LIMIT 100"));
    assert_eq!(
        describe_file_sql(&s),
        format!("SELECT column_name, column_type FROM (DESCRIBE SELECT * FROM {rel})")
    );
    assert_eq!(count_file_sql(&s), format!("SELECT count(*)::BIGINT AS n FROM {rel}"));
}

#[test]
fn derived_expressions_match() {
    let q = "\"revenue\"";
    assert_eq!(currency_value_expr(q), expected_currency_value_expr(q));
    let sym = col("pv_deriv_currency", DerivedKind::CurrencySymbol { source: "revenue".into() });
    assert_eq!(sym.sql_expr(), expected_symbol_expr(q));
    let num = col("pv_deriv_x", DerivedKind::NumericFromString { source: "revenue".into() });
    assert_eq!(num.sql_expr(), expected_numeric_expr(q));
    let val = col("v", DerivedKind::CurrencyValue { source: "revenue".into() });
    assert_eq!(val.sql_expr(), expected_currency_value_expr(q));
    assert_eq!(sym.data_type_label(), "VARCHAR (derived)");
    assert_eq!(num.data_type_label(), "DOUBLE (derived)");
    assert_eq!(val.data_type_label(), "DOUBLE (derived)");
    assert!(!sym.is_numeric() && num.is_numeric() && val.is_numeric());
}

#[test]
fn match_predicates() {
    assert_eq!(
        currency_match_sql("v"),
        "( regexp_matches(trim(cast(v AS VARCHAR)), '[€$£¥₹]') OR regexp_matches(upper(trim(cast(v AS VARCHAR))), '\\b(USD|EUR|GBP|JPY|INR)\\b') ) AND regexp_matches(trim(cast(v AS VARCHAR)), '[0-9]')"
    );
    assert_eq!(
        plain_numeric_match_sql("v"),
        "try_cast(replace(replace(trim(cast(v AS VARCHAR)), ',', ''), ' ', '') AS DOUBLE) IS NOT NULL AND NOT regexp_matches(trim(cast(v AS VARCHAR)), '[€$£¥₹A-Za-z]')"
    );
}

#[test]
fn enhanced_relation_adds_columns() {
    let base = "'/d/a.parquet'";
    assert_eq!(enhance_relation(base, &vec![]), base);
    let d = vec![
        col("pv_deriv_currency", DerivedKind::CurrencySymbol { source: "rev".into() }),
        col("pv_deriv_n", DerivedKind::NumericFromString { source: "n".into() }),
    ];
    let expected = format!(
        "(SELECT *, {} AS \"pv_deriv_currency\", {} AS \"pv_deriv_n\" FROM {base}) t",
        expected_symbol_expr("\"rev\""),
        expected_numeric_expr("\"n\"")
    );
    assert_eq!(enhance_relation(base, &d), expected);
    let s = DataSource::file("/d/a.parquet");
    assert_eq!(
        select_star_with_derived(&s, &d, 3),
        format!("SELECT * FROM {expected} LIMIT 3")
    );
    assert_eq!(select_star_with_derived(&s, &vec![], 7), "SELECT * FROM '/d/a.parquet' LIMIT 7");
}

#[test]
fn decimal_and_parse() {
    assert_eq!(decimal_string(0), "0");
    assert_eq!(decimal_string(1234567890123), "1234567890123");
    assert_eq!(decimal_string(u64::MAX as u128), "18446744073709551615");
    assert_eq!(parse_u64_str("18446744073709551615"), Some(u64::MAX));
    assert_eq!(parse_u64_str("18446744073709551616"), None);
    assert_eq!(parse_u64_str("+42"), Some(42));
    assert_eq!(parse_u64_str("+"), None);
    assert_eq!(parse_u64_str(""), None);
    assert_eq!(parse_u64_str("-1"), None);
    assert_eq!(parse_u64_str("1.5"), None);
    for n in [0u64, 7, 10, 99, 100, 65535, u64::MAX] {
        assert_eq!(parse_u64_str(&decimal_string(n as u128)), Some(n));
        assert_eq!(parse_u64_str(&decimal_string(n as u128)), n.to_string().parse().ok());
    }
}

#[test]
fn trim_matches_std() {
    for s in ["  a b  ", "\u{3000}x\u{a0}", "\n\t", "", "x", " \u{85}y\u{2028}"] {
        assert_eq!(trim_str(s), s.trim());
    }
}
