//! The DuckDB relation that reads a data path, and the SQL built on it.
use vstd::prelude::*;
use crate::duck::{strings_view, QueryResult};
use crate::paths::{lower_ext, lower_extension};
use crate::text::{
    decimal, decimal_string, parse_u64, parse_u64_str, push_replaced, replace_char, sql_string,
    sql_string_spec, str_eq, to_owned_string,
};

verus! {

/// A path to read as data, with what the file system said of it: whether it
/// is a directory and, if so, whether it directly holds a `.parquet` file.
pub struct DataSource {
    pub path: String,
    pub is_dir: bool,
    pub has_direct_parquet: bool,
}

impl DataSource {
    /// A file (not a directory).
    pub fn file(path: &str) -> (r: DataSource)
        ensures
            r.path@ == path@,
            !r.is_dir,
            !r.has_direct_parquet,
    {
        DataSource { path: to_owned_string(path), is_dir: false, has_direct_parquet: false }
    }

    /// A directory, and whether it directly holds a `.parquet` file.
    pub fn directory(path: &str, has_direct_parquet: bool) -> (r: DataSource)
        ensures
            r.path@ == path@,
            r.is_dir,
            r.has_direct_parquet == has_direct_parquet,
    {
        DataSource { path: to_owned_string(path), is_dir: true, has_direct_parquet }
    }
}

/// The relation expression DuckDB reads a path with: every parquet file of a
/// directory (the directory itself, or recursively when none lies directly in
/// it), newline-delimited or plain JSON, CSV/TSV with a header, and anything
/// else as a quoted path DuckDB recognises itself.
pub open spec fn relation_text(path: Seq<char>, is_dir: bool, has_direct_parquet: bool) -> Seq<char> {
    if is_dir {
        let p = replace_char(path, '\'', "''"@);
        if has_direct_parquet {
            "read_parquet('"@ + p + "/*.parquet', union_by_name := true)"@
        } else {
            "read_parquet('"@ + p + "/**/*.parquet', union_by_name := true)"@
        }
    } else {
        let p = sql_string_spec(path);
        let e = lower_ext(path);
        if e == "jsonl"@ || e == "ndjson"@ {
            "read_json_auto("@ + p + ", format := 'newline_delimited')"@
        } else if e == "json"@ {
            "read_json_auto("@ + p + ")"@
        } else if e == "csv"@ || e == "tsv"@ {
            "read_csv_auto("@ + p + ", header := true)"@
        } else {
            p
        }
    }
}

impl DataSource {
    pub open spec fn relation(self) -> Seq<char> {
        relation_text(self.path@, self.is_dir, self.has_direct_parquet)
    }
}

/// A path quoted as a DuckDB string literal.
pub fn path_sql(path: &str) -> (r: String)
    ensures
        r@ == sql_string_spec(path@),
{
    sql_string(path)
}

/// The DuckDB relation expression for a data path.
pub fn relation_sql(source: &DataSource) -> (r: String)
    ensures
        r@ == source.relation(),
{
    let path = source.path.as_str();
    if source.is_dir {
        let mut s = to_owned_string("read_parquet('");
        push_replaced(&mut s, path, '\'', "''");
        if source.has_direct_parquet {
            s.append("/*.parquet', union_by_name := true)");
        } else {
            s.append("/**/*.parquet', union_by_name := true)");
        }
        return s;
    }
    let p = path_sql(path);
    let e = lower_extension(path);
    let es = e.as_str();
    if str_eq(es, "jsonl") || str_eq(es, "ndjson") {
        let mut s = to_owned_string("read_json_auto(");
        s.append(p.as_str());
        s.append(", format := 'newline_delimited')");
        s
    } else if str_eq(es, "json") {
        let mut s = to_owned_string("read_json_auto(");
        s.append(p.as_str());
        s.append(")");
        s
    } else if str_eq(es, "csv") || str_eq(es, "tsv") {
        let mut s = to_owned_string("read_csv_auto(");
        s.append(p.as_str());
        s.append(", header := true)");
        s
    } else {
        p
    }
}

pub open spec fn select_limit_text(rel: Seq<char>, limit: nat) -> Seq<char> {
    "SELECT * FROM "@ + rel + " LIMIT "@ + decimal(limit)
}

/// `SELECT * FROM <rel> LIMIT <limit>`.
pub fn select_limit(rel: &str, limit: u64) -> (r: String)
    ensures
        r@ == select_limit_text(rel@, limit as nat),
{
    let mut s = to_owned_string("SELECT * FROM ");
    s.append(rel);
    s.append(" LIMIT ");
    let d = decimal_string(limit as u128);
    s.append(d.as_str());
    s
}

/// The SQL that previews the first `limit` rows of a data path.
pub fn preview_sql(source: &DataSource, limit: u64) -> (r: String)
    ensures
        r@ == select_limit_text(source.relation(), limit as nat),
{
    let rel = relation_sql(source);
    select_limit(rel.as_str(), limit)
}

/// The SQL an opened data path starts with: its first 100 rows.
pub fn default_sql_for(source: &DataSource) -> (r: String)
    ensures
        r@ == "SELECT * FROM "@ + source.relation() + " LIMIT 100"@,
{
    let rel = relation_sql(source);
    let mut s = to_owned_string("SELECT * FROM ");
    s.append(rel.as_str());
    s.append(" LIMIT 100");
    s
}

pub open spec fn columns_sql_text(source: Seq<char>) -> Seq<char> {
    "SELECT column_name, column_type FROM (DESCRIBE SELECT * FROM "@ + source + ")"@
}

/// The query that lists the columns of a relation with their types.
pub fn columns_sql(source: &str) -> (r: String)
    ensures
        r@ == columns_sql_text(source@),
{
    let mut s = to_owned_string("SELECT column_name, column_type FROM (DESCRIBE SELECT * FROM ");
    s.append(source);
    s.append(")");
    s
}

/// The SQL that lists a data path's columns and types.
pub fn describe_file_sql(source: &DataSource) -> (r: String)
    ensures
        r@ == columns_sql_text(source.relation()),
{
    let rel = relation_sql(source);
    columns_sql(rel.as_str())
}

pub open spec fn count_sql_text(source: Seq<char>) -> Seq<char> {
    "SELECT count(*)::BIGINT AS n FROM "@ + source
}

/// The query that counts the rows of a relation.
pub fn count_sql(source: &str) -> (r: String)
    ensures
        r@ == count_sql_text(source@),
{
    let mut s = to_owned_string("SELECT count(*)::BIGINT AS n FROM ");
    s.append(source);
    s
}

/// The SQL that counts the rows of a data path.
pub fn count_file_sql(source: &DataSource) -> (r: String)
    ensures
        r@ == count_sql_text(source.relation()),
{
    let rel = relation_sql(source);
    count_sql(rel.as_str())
}

/// The first cell of the first row, if there is one.
pub open spec fn first_cell(rows: Seq<Seq<Seq<char>>>) -> Option<Seq<char>> {
    if rows.len() > 0 && rows[0].len() > 0 {
        Some(rows[0][0])
    } else {
        None
    }
}

/// The number in the first cell of a result, or 0 where there is none.
pub open spec fn count_in(rows: Seq<Seq<Seq<char>>>) -> u64 {
    match first_cell(rows) {
        Some(c) => match parse_u64(c) {
            Some(n) => n,
            None => 0,
        },
        None => 0,
    }
}

/// Reads a row count out of the result of a count query: the first cell of
/// the first row as an unsigned number, 0 when it is missing or unreadable.
pub fn count_from_result(r: &QueryResult) -> (n: u64)
    ensures
        n == count_in(r.rows_view()),
{
    if r.rows.len() > 0 && r.rows[0].len() > 0 {
        match parse_u64_str(r.rows[0][0].as_str()) {
            Some(n) => n,
            None => 0,
        }
    } else {
        0
    }
}

} // verus!
