//! Query results of the DuckDB command-line tool run with `-json`: how its
//! output becomes a grid of text cells, and what the grid offers (lookup by
//! column name, TSV for the clipboard).
use vstd::prelude::*;
use crate::json::{
    array_items, cell_text, entry_keys, json_compact, json_compact_text, json_node, json_parse,
    json_parse_result, json_model, keys_of, lookup, lookup_entry, object_entries, pretty_cell,
    pretty_cell_text, json_cell, entry_models, value_models, JsonModel, JsonNode,
};
use crate::text::{
    chars_of, decimal, join, join_strings, parse_u64, parse_u64_str, push_char, str_eq,
    to_owned_string, trim, trim_str,
};

verus! {

/// A grid of text cells with the SQL that produced it.
#[derive(Debug, Clone)]
pub struct QueryResult {
    pub columns: Vec<String>,
    pub rows: Vec<Vec<String>>,
    pub row_count_hint: Option<u64>,
    pub elapsed_ms: u128,
    pub sql: String,
}

pub open spec fn strings_view(v: Seq<String>) -> Seq<Seq<char>> {
    v.map_values(|s: String| s@)
}

pub open spec fn grid_view(rows: Seq<Vec<String>>) -> Seq<Seq<Seq<char>>> {
    rows.map_values(|r: Vec<String>| strings_view(r@))
}

impl QueryResult {
    pub open spec fn columns_view(self) -> Seq<Seq<char>> {
        strings_view(self.columns@)
    }

    pub open spec fn rows_view(self) -> Seq<Seq<Seq<char>>> {
        grid_view(self.rows@)
    }
}

/// The first position of `c` among `cols`.
pub open spec fn position_of(cols: Seq<Seq<char>>, c: Seq<char>) -> Option<int>
    decreases cols.len(),
{
    if cols.len() == 0 {
        None
    } else if cols[0] == c {
        Some(0)
    } else {
        match position_of(cols.drop_first(), c) {
            Some(i) => Some(i + 1),
            None => None,
        }
    }
}

/// The cell of `row` under column `c`, if the column exists and the row is
/// long enough.
pub open spec fn cell_under(cols: Seq<Seq<char>>, row: Seq<Seq<char>>, c: Seq<char>) -> Option<
    Seq<char>,
> {
    match position_of(cols, c) {
        Some(i) => if i < row.len() {
            Some(row[i])
        } else {
            None
        },
        None => None,
    }
}

/// A character that TSV cannot hold inside a cell.
pub open spec fn tsv_breaking(c: char) -> bool {
    c == '\t' || c == '\n' || c == '\r'
}

/// A cell as written to TSV: tabs and line breaks become spaces.
pub open spec fn tsv_clean(s: Seq<char>) -> Seq<char> {
    s.map_values(|c: char| if tsv_breaking(c) { ' ' } else { c })
}

pub open spec fn tsv_line(cells: Seq<Seq<char>>) -> Seq<char> {
    join(cells.map_values(|c: Seq<char>| tsv_clean(c)), seq!['\t']) + seq!['\n']
}

pub open spec fn tsv_body(rows: Seq<Seq<Seq<char>>>) -> Seq<char>
    decreases rows.len(),
{
    if rows.len() == 0 {
        Seq::empty()
    } else {
        tsv_body(rows.drop_last()) + tsv_line(rows.last())
    }
}

/// Header line (the column names, tab-separated) and one line per row.
pub open spec fn tsv_text(cols: Seq<Seq<char>>, rows: Seq<Seq<Seq<char>>>) -> Seq<char> {
    join(cols, seq!['\t']) + seq!['\n'] + tsv_body(rows)
}

fn tsv_clean_string(s: &str) -> (r: String)
    ensures
        r@ == tsv_clean(s@),
{
    let v = chars_of(s);
    let mut out: Vec<char> = Vec::new();
    let mut i: usize = 0;
    while i < v.len()
        invariant
            i <= v.len(),
            out@ == tsv_clean(v@.take(i as int)),
        decreases v.len() - i,
    {
        let c = v[i];
        if c == '\t' || c == '\n' || c == '\r' {
            out.push(' ');
        } else {
            out.push(c);
        }
        i += 1;
        assert(tsv_clean(v@.take(i as int)) =~= tsv_clean(v@.take(i - 1)).push(out@.last()));
    }
    assert(v@.take(v.len() as int) =~= v@);
    crate::text::string_of(&out)
}

fn tab_string() -> (r: String)
    ensures
        r@ == seq!['\t'],
{
    let mut s = String::new();
    push_char(&mut s, '\t');
    s
}

impl QueryResult {
    /// TSV for the clipboard: the header line, then one line per row; tabs
    /// and line breaks inside cells become spaces.
    pub fn to_tsv(&self) -> (r: String)
        ensures
            r@ == tsv_text(self.columns_view(), self.rows_view()),
    {
        let tab = tab_string();
        let mut out = join_strings(&self.columns, tab.as_str());
        push_char(&mut out, '\n');
        let ghost head = out@;
        let mut i: usize = 0;
        while i < self.rows.len()
            invariant
                i <= self.rows@.len(),
                tab@ == seq!['\t'],
                out@ == head + tsv_body(self.rows_view().take(i as int)),
            decreases self.rows.len() - i,
        {
            let row = &self.rows[i];
            let mut cleaned: Vec<String> = Vec::new();
            let mut j: usize = 0;
            while j < row.len()
                invariant
                    j <= row@.len(),
                    cleaned@.len() == j,
                    forall|k: int| 0 <= k < j ==> (#[trigger] cleaned@[k])@ == tsv_clean(row@[k]@),
                decreases row.len() - j,
            {
                cleaned.push(tsv_clean_string(row[j].as_str()));
                j += 1;
            }
            let line = join_strings(&cleaned, tab.as_str());
            out.append(line.as_str());
            push_char(&mut out, '\n');
            proof {
                let rv = self.rows_view();
                assert(strings_view(cleaned@) =~= rv[i as int].map_values(
                    |c: Seq<char>| tsv_clean(c),
                ));
                assert(rv.take(i + 1).drop_last() =~= rv.take(i as int));
                assert(out@ =~= head + tsv_body(rv.take(i + 1)));
            }
            i += 1;
        }
        assert(self.rows_view().take(self.rows@.len() as int) =~= self.rows_view());
        out
    }

    /// The cell of `row` under the column named `col` (its first occurrence),
    /// whatever order DuckDB printed the keys in.
    pub fn get<'a>(&self, row: &'a [String], col: &str) -> (r: Option<&'a str>)
        ensures
            match r {
                Some(s) => cell_under(self.columns_view(), strings_view(row@), col@) == Some(
                    s@,
                ),
                None => cell_under(self.columns_view(), strings_view(row@), col@) is None,
            },
    {
        let ghost cols = self.columns_view();
        let mut i: usize = 0;
        while i < self.columns.len()
            invariant
                i <= self.columns@.len(),
                cols == self.columns_view(),
                forall|k: int| 0 <= k < i ==> cols[k] != col@,
            decreases self.columns.len() - i,
        {
            if str_eq(self.columns[i].as_str(), col) {
                proof {
                    lemma_position_first(cols, col@, i as int);
                }
                if i < row.len() {
                    return Some(row[i].as_str());
                } else {
                    return None;
                }
            }
            i += 1;
        }
        proof {
            lemma_position_absent(cols, col@);
        }
        None
    }

    /// The cell under `col` read as an unsigned integer.
    pub fn get_u64(&self, row: &[String], col: &str) -> (r: Option<u64>)
        ensures
            r == match cell_under(self.columns_view(), strings_view(row@), col@) {
                Some(s) => parse_u64(s),
                None => None,
            },
    {
        match self.get(row, col) {
            Some(s) => parse_u64_str(s),
            None => None,
        }
    }
}

pub proof fn lemma_position_first(cols: Seq<Seq<char>>, c: Seq<char>, i: int)
    requires
        0 <= i < cols.len(),
        cols[i] == c,
        forall|k: int| 0 <= k < i ==> cols[k] != c,
    ensures
        position_of(cols, c) == Some(i),
    decreases i,
{
    if i > 0 {
        lemma_position_first(cols.drop_first(), c, i - 1);
    }
}

pub proof fn lemma_position_absent(cols: Seq<Seq<char>>, c: Seq<char>)
    requires
        forall|k: int| 0 <= k < cols.len() ==> cols[k] != c,
    ensures
        position_of(cols, c) is None,
    decreases cols.len(),
{
    if cols.len() > 0 {
        lemma_position_absent(cols.drop_first(), c);
    }
}

// ---------------------------------------------------------------------------
// Reading the tool's output
// ---------------------------------------------------------------------------

/// What a finished run of the DuckDB tool handed back: whether it exited
/// successfully, its two output streams, and its exit status as text.
pub struct ProcessOutput {
    pub success: bool,
    pub stdout: String,
    pub stderr: String,
    pub status: String,
}

/// What a run's output means.
pub enum QueryStep {
    /// A grid of rows.
    Rows(QueryResult),
    /// The run failed; the message says why.
    Failed(String),
    /// No rows came back; the column names have to be asked for separately.
    NoRows,
}

/// The model of [`QueryStep`]: columns and rows, a message, or no rows.
pub enum Outcome {
    Table(Seq<Seq<char>>, Seq<Seq<Seq<char>>>),
    Failed(Seq<char>),
    NoRows,
}

pub open spec fn failure_message(out: ProcessOutput) -> Seq<char> {
    let e = trim(out.stderr@);
    let o = trim(out.stdout@);
    if e.len() > 0 {
        e
    } else if o.len() > 0 {
        o
    } else {
        "duckdb exited "@ + out.status@
    }
}

/// One row: for each column, the pretty-printed cell of the object's entry
/// under that column name (empty where the object has none).
pub open spec fn row_cells(entries: Seq<(Seq<char>, JsonModel)>, cols: Seq<Seq<char>>) -> Seq<
    Seq<char>,
> {
    cols.map_values(
        |c: Seq<char>|
            pretty_cell_text(
                match lookup(entries, c) {
                    Some(x) => cell_text(x),
                    None => Seq::empty(),
                },
            ),
    )
}

/// The column names: the keys of the first object, in the order in which
/// `serde_json` walks them.
pub open spec fn header_of(items: Seq<JsonModel>) -> Seq<Seq<char>> {
    match object_entries(items[0]) {
        Some(es) => entry_keys(es),
        None => Seq::empty(),
    }
}

pub open spec fn all_objects(items: Seq<JsonModel>) -> bool {
    forall|i: int| 0 <= i < items.len() ==> (#[trigger] object_entries(items[i])) is Some
}

pub open spec fn table_of(items: Seq<JsonModel>) -> Seq<Seq<Seq<char>>> {
    items.map_values(
        |it: JsonModel| row_cells(object_entries(it)->Some_0, header_of(items)),
    )
}

/// What the output of a run means, following `duckdb -json`'s conventions.
pub open spec fn outcome_of(out: ProcessOutput) -> Outcome {
    if !out.success {
        Outcome::Failed(failure_message(out))
    } else {
        let t = trim(out.stdout@);
        if t.len() == 0 {
            Outcome::NoRows
        } else {
            match json_parse_result(t) {
                Err(e) => Outcome::Failed("parse duckdb JSON:\n"@ + t + ": "@ + e),
                Ok(v) => match array_items(v) {
                    None => Outcome::Failed(
                        "expected JSON array from duckdb, got "@ + json_compact_text(v),
                    ),
                    Some(items) => if items.len() == 0 {
                        Outcome::NoRows
                    } else if !all_objects(items) {
                        Outcome::Failed("expected object rows in JSON array"@)
                    } else {
                        Outcome::Table(header_of(items), table_of(items))
                    },
                },
            }
        }
    }
}

pub open spec fn step_matches(step: QueryStep, o: Outcome, sql: Seq<char>, elapsed_ms: u128) -> bool {
    match (step, o) {
        (QueryStep::Rows(r), Outcome::Table(cols, rows)) => {
            &&& r.columns_view() == cols
            &&& r.rows_view() == rows
            &&& r.row_count_hint == Some(rows.len() as u64)
            &&& r.elapsed_ms == elapsed_ms
            &&& r.sql@ == sql
        },
        (QueryStep::Failed(m), Outcome::Failed(msg)) => m@ == msg,
        (QueryStep::NoRows, Outcome::NoRows) => true,
        _ => false,
    }
}

fn failure_text(out: &ProcessOutput) -> (r: String)
    ensures
        r@ == failure_message(*out),
{
    let e = trim_str(out.stderr.as_str());
    let o = trim_str(out.stdout.as_str());
    if chars_of(e.as_str()).len() > 0 {
        e
    } else if chars_of(o.as_str()).len() > 0 {
        o
    } else {
        let mut m = to_owned_string("duckdb exited ");
        m.append(out.status.as_str());
        m
    }
}

/// One row of cells for an object's entries under the given columns.
fn build_row(entries: &Vec<(String, serde_json::Value)>, cols: &Vec<String>) -> (r: Vec<String>)
    ensures
        strings_view(r@) == row_cells(
            entry_models(entries@),
            strings_view(cols@),
        ),
{
    let ghost es = entry_models(entries@);
    let mut row: Vec<String> = Vec::new();
    let mut j: usize = 0;
    while j < cols.len()
        invariant
            j <= cols@.len(),
            es == entry_models(entries@),
            row@.len() == j,
            forall|k: int|
                0 <= k < j ==> (#[trigger] row@[k])@ == row_cells(es, strings_view(cols@))[k],
        decreases cols.len() - j,
    {
        let cell = match lookup_entry(entries, cols[j].as_str()) {
            Some(x) => json_cell(x),
            None => String::new(),
        };
        row.push(pretty_cell(cell.as_str()));
        j += 1;
    }
    assert(strings_view(row@) =~= row_cells(es, strings_view(cols@)));
    row
}

/// Reads the output of `duckdb -json -c <sql>`: a failure message, no rows,
/// or the grid of cells, each object of the JSON array one row.
pub fn interpret_output(sql: &str, out: &ProcessOutput, elapsed_ms: u128) -> (r: QueryStep)
    ensures
        step_matches(r, outcome_of(*out), sql@, elapsed_ms),
{
    if !out.success {
        return QueryStep::Failed(failure_text(out));
    }
    let t = trim_str(out.stdout.as_str());
    if chars_of(t.as_str()).len() == 0 {
        return QueryStep::NoRows;
    }
    let v = match json_parse(t.as_str()) {
        Ok(v) => v,
        Err(e) => {
            let mut m = to_owned_string("parse duckdb JSON:\n");
            m.append(t.as_str());
            m.append(": ");
            m.append(e.as_str());
            return QueryStep::Failed(m);
        },
    };
    let items = match json_node(&v) {
        JsonNode::Array(items) => items,
        _ => {
            let mut m = to_owned_string("expected JSON array from duckdb, got ");
            let c = json_compact(&v);
            m.append(c.as_str());
            return QueryStep::Failed(m);
        },
    };
    if items.len() == 0 {
        return QueryStep::NoRows;
    }
    let columns: Vec<String> = match json_node(&items[0]) {
        JsonNode::Object(entries) => keys_of(&entries),
        _ => Vec::new(),
    };
    let ghost itv = value_models(items@);
    assert(itv[0] == json_model(items@[0]));
    assert(strings_view(columns@) == header_of(itv));
    let mut rows: Vec<Vec<String>> = Vec::new();
    let mut i: usize = 0;
    while i < items.len()
        invariant
            i <= items@.len(),
            itv == value_models(items@),
            itv.len() > 0,
            out.success,
            trim(out.stdout@).len() > 0,
            json_parse_result(trim(out.stdout@)) == Ok::<JsonModel, Seq<char>>(json_model(v)),
            array_items(json_model(v)) == Some(itv),
            strings_view(columns@) == header_of(itv),
            rows@.len() == i,
            forall|k: int| 0 <= k < i ==> (#[trigger] object_entries(itv[k])) is Some,
            forall|k: int|
                0 <= k < i ==> strings_view((#[trigger] rows@[k])@) == table_of(itv)[k],
        decreases items.len() - i,
    {
        assert(itv[i as int] == json_model(items@[i as int]));
        match json_node(&items[i]) {
            JsonNode::Object(entries) => {
                let row = build_row(&entries, &columns);
                rows.push(row);
            },
            _ => {
                assert(object_entries(itv[i as int]) is None);
                assert(!all_objects(itv));
                return QueryStep::Failed(to_owned_string("expected object rows in JSON array"));
            },
        }
        i += 1;
    }
    assert(all_objects(itv));
    assert(grid_view(rows@) =~= table_of(itv));
    let n = rows.len() as u64;
    QueryStep::Rows(
        QueryResult {
            columns,
            rows,
            row_count_hint: Some(n),
            elapsed_ms,
            sql: to_owned_string(sql),
        },
    )
}

/// The SQL that asks DuckDB for the column names a query would produce.
pub fn describe_columns_sql(sql: &str) -> (r: String)
    ensures
        r@ == "SELECT column_name FROM (DESCRIBE ("@ + sql@ + "))"@,
{
    let mut s = to_owned_string("SELECT column_name FROM (DESCRIBE (");
    s.append(sql);
    s.append("))");
    s
}

/// The `column_name` string of each object among `items`.
pub open spec fn column_names(items: Seq<JsonModel>) -> Seq<Seq<char>>
    decreases items.len(),
{
    if items.len() == 0 {
        Seq::empty()
    } else {
        column_names(items.drop_last()) + match object_entries(items.last()) {
            Some(es) => match lookup(es, "column_name"@) {
                Some(x) => match x {
                    JsonModel::Str(s) => seq![s],
                    _ => Seq::empty(),
                },
                None => Seq::empty(),
            },
            None => Seq::empty(),
        }
    }
}

/// The column names that a `DESCRIBE` run printed; none where it printed
/// nothing or something other than a JSON array.
pub open spec fn described_columns(stdout: Seq<char>) -> Seq<Seq<char>> {
    let t = trim(stdout);
    if t.len() == 0 {
        Seq::empty()
    } else {
        match json_parse_result(t) {
            Ok(v) => match array_items(v) {
                Some(items) => column_names(items),
                None => Seq::empty(),
            },
            Err(_) => Seq::empty(),
        }
    }
}

/// Reads the column names out of the output of the `DESCRIBE` query.
pub fn columns_from_describe(stdout: &str) -> (r: Vec<String>)
    ensures
        strings_view(r@) == described_columns(stdout@),
{
    let t = trim_str(stdout);
    if chars_of(t.as_str()).len() == 0 {
        return Vec::new();
    }
    let v = match json_parse(t.as_str()) {
        Ok(v) => v,
        Err(_) => return Vec::new(),
    };
    let items = match json_node(&v) {
        JsonNode::Array(items) => items,
        _ => return Vec::new(),
    };
    let ghost itv = value_models(items@);
    let mut cols: Vec<String> = Vec::new();
    let mut i: usize = 0;
    while i < items.len()
        invariant
            i <= items@.len(),
            itv == value_models(items@),
            strings_view(cols@) == column_names(itv.take(i as int)),
        decreases items.len() - i,
    {
        proof {
            assert(itv.take(i + 1).drop_last() =~= itv.take(i as int));
            assert(itv.take(i + 1).last() == itv[i as int]);
        }
        match json_node(&items[i]) {
            JsonNode::Object(entries) => {
                match lookup_entry(&entries, "column_name") {
                    Some(x) => {
                        match json_node(x) {
                            JsonNode::Str(s) => {
                                cols.push(s);
                                assert(strings_view(cols@) =~= column_names(itv.take(i + 1)));
                            },
                            _ => {
                                assert(strings_view(cols@) =~= column_names(itv.take(i + 1)));
                            },
                        }
                    },
                    None => {
                        assert(strings_view(cols@) =~= column_names(itv.take(i + 1)));
                    },
                }
            },
            _ => {
                assert(strings_view(cols@) =~= column_names(itv.take(i + 1)));
            },
        }
        i += 1;
    }
    assert(itv.take(items@.len() as int) =~= itv);
    cols
}

/// The result of a query that printed no rows: the given column names and
/// no rows.
pub fn empty_result(sql: &str, columns: Vec<String>, elapsed_ms: u128) -> (r: QueryResult)
    ensures
        r.columns@ == columns@,
        r.rows@.len() == 0,
        r.row_count_hint == Some(0u64),
        r.elapsed_ms == elapsed_ms,
        r.sql@ == sql@,
{
    QueryResult { columns, rows: Vec::new(), row_count_hint: Some(0), elapsed_ms, sql: to_owned_string(sql) }
}

/// What `duckdb --version` reported: its trimmed output, or the failure
/// with its exit status.
pub open spec fn version_outcome_of(out: ProcessOutput) -> Result<Seq<char>, Seq<char>> {
    if out.success {
        Ok(trim(out.stdout@))
    } else {
        Err("duckdb --version failed with status "@ + out.status@)
    }
}

/// Reads the output of `duckdb --version`.
pub fn version_from_output(out: &ProcessOutput) -> (r: Result<String, String>)
    ensures
        match r {
            Ok(v) => version_outcome_of(*out) == Ok::<Seq<char>, Seq<char>>(v@),
            Err(e) => version_outcome_of(*out) == Err::<Seq<char>, Seq<char>>(e@),
        },
{
    if out.success {
        Ok(trim_str(out.stdout.as_str()))
    } else {
        let mut m = to_owned_string("duckdb --version failed with status ");
        m.append(out.status.as_str());
        Err(m)
    }
}

// ---------------------------------------------------------------------------
// Laws
// ---------------------------------------------------------------------------

/// No column name occurs twice.
pub open spec fn distinct_names(cols: Seq<Seq<char>>) -> bool {
    forall|i: int, j: int| 0 <= i < j < cols.len() ==> cols[i] != cols[j]
}

/// `perm` reorders `n` places: each place `0..n` taken exactly once.
pub open spec fn is_permutation(perm: Seq<int>, n: nat) -> bool {
    &&& perm.len() == n
    &&& forall|i: int| 0 <= i < n ==> 0 <= #[trigger] perm[i] < n
    &&& forall|i: int, j: int| 0 <= i < j < n ==> perm[i] != perm[j]
    &&& forall|k: int| 0 <= k < n ==> #[trigger] perm.contains(k)
}

/// `s` reordered: place `i` holds the element at `perm[i]`.
pub open spec fn permuted(s: Seq<Seq<char>>, perm: Seq<int>) -> Seq<Seq<char>> {
    perm.map_values(|k: int| s[k])
}

/// A cell is found by its column's name, not its place: reordering the
/// columns and a row's cells together (with no name twice) leaves every
/// lookup the same.
pub proof fn lemma_get_ignores_column_order(
    cols: Seq<Seq<char>>,
    row: Seq<Seq<char>>,
    perm: Seq<int>,
    c: Seq<char>,
)
    requires
        distinct_names(cols),
        row.len() == cols.len(),
        is_permutation(perm, cols.len()),
    ensures
        cell_under(permuted(cols, perm), permuted(row, perm), c) == cell_under(cols, row, c),
{
    let n = cols.len();
    let cols2 = permuted(cols, perm);
    let row2 = permuted(row, perm);
    if exists|k: int| 0 <= k < n && cols[k] == c {
        let k = choose|k: int| 0 <= k < n && cols[k] == c;
        assert forall|m: int| 0 <= m < k implies cols[m] != c by {
            assert(cols[m] != cols[k]);
        }
        lemma_position_first(cols, c, k);
        assert(perm.contains(k));
        let j = choose|i: int| 0 <= i < perm.len() && perm[i] == k;
        assert(cols2[j] == c);
        assert forall|m: int| 0 <= m < j implies cols2[m] != c by {
            assert(perm[m] != perm[j]);
            assert(0 <= perm[m] < n);
            if perm[m] < k {
                assert(cols[perm[m]] != cols[k]);
            } else {
                assert(cols[k] != cols[perm[m]]);
            }
        }
        lemma_position_first(cols2, c, j);
        assert(row2[j] == row[k]);
    } else {
        lemma_position_absent(cols, c);
        assert forall|m: int| 0 <= m < cols2.len() implies cols2[m] != c by {
            assert(0 <= perm[m] < n);
        }
        lemma_position_absent(cols2, c);
    }
}

/// A cell written to TSV holds no tab and no line break, so every row is one
/// line with one tab between cells.
pub proof fn lemma_tsv_cell_clean(s: Seq<char>)
    ensures
        tsv_clean(s).len() == s.len(),
        forall|i: int| 0 <= i < tsv_clean(s).len() ==> !tsv_breaking(#[trigger] tsv_clean(s)[i]),
{
}

/// Every row of a grid read from the tool's output has exactly one cell per
/// column.
pub proof fn lemma_rows_match_columns(out: ProcessOutput)
    ensures
        outcome_of(out) matches Outcome::Table(cols, rows) ==> forall|i: int|
            0 <= i < rows.len() ==> (#[trigger] rows[i]).len() == cols.len(),
{
}

/// In a grid read from the tool's output, the cell of a JSON boolean is
/// `true` or `false`, that of a JSON null is empty, and that of a missing
/// key is empty too.
pub proof fn lemma_boolean_cells(entries: Seq<(Seq<char>, JsonModel)>, cols: Seq<Seq<char>>, i: int)
    requires
        0 <= i < cols.len(),
    ensures
        lookup(entries, cols[i]) matches Some(JsonModel::Bool(b)) ==> row_cells(entries, cols)[i] == (
        if b {
            "true"@
        } else {
            "false"@
        }),
        lookup(entries, cols[i]) matches Some(JsonModel::Null) ==> row_cells(entries, cols)[i].len() == 0,
        lookup(entries, cols[i]) is None ==> row_cells(entries, cols)[i].len() == 0,
{
    match lookup(entries, cols[i]) {
        Some(JsonModel::Bool(b)) => {
            crate::json::lemma_scalar_cells(b, Seq::empty());
        },
        _ => {
            crate::json::lemma_scalar_cells(true, Seq::empty());
        },
    }
}

} // verus!
