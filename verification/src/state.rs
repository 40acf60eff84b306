//! The explorer's state: the open data path, its schema, the SQL editor,
//! the result grid, the status line and the last error, and how each user
//! action changes them.  Running a query is the caller's part; each step
//! below takes the answer and gives the next query, where there is one.
use vstd::prelude::*;
use crate::derive::{enhanced_relation, enhanced_text, models, select_star_with_derived, DerivedCol};
use crate::duck::{tsv_text, QueryResult};
use crate::paths::{extension, extension_of, file_name, file_name_of, is_jsonl, is_jsonl_spec};
use crate::relation::{
    columns_sql, columns_sql_text, count_file_sql, count_from_result, count_in, count_sql_text,
    select_limit_text, DataSource,
};
use crate::text::{chars_of, decimal, decimal_string, push_char, to_owned_string, trim, trim_str};
use crate::tree::{opt_view, FolderTree, TreeAction};

verus! {

/// The state of the explorer window.
pub struct ParqApp {
    pub tree: FolderTree,
    pub open_path: Option<String>,
    pub total_rows: Option<u64>,
    pub schema: Option<QueryResult>,
    pub result: Option<QueryResult>,
    /// Derived columns of the open data path.
    pub derived: Vec<DerivedCol>,
    pub sql: String,
    pub error: Option<String>,
    pub status: String,
    pub preview_limit: u64,
    pub show_schema: bool,
    pub theme_applied: bool,
    pub clipboard_flash: Option<String>,
}

pub open spec fn initial_status() -> Seq<char> {
    "Open a folder · parquet · csv · json · jsonl · sql"@
}

impl ParqApp {
    /// The state before anything is opened.
    pub fn initial() -> (r: ParqApp)
        ensures
            r.tree.root is None,
            r.tree.selected is None,
            r.open_path is None,
            r.total_rows is None,
            r.schema is None,
            r.result is None,
            r.derived@.len() == 0,
            r.sql@.len() == 0,
            r.error is None,
            r.status@ == initial_status(),
            r.preview_limit == 100,
            r.show_schema,
            !r.theme_applied,
            r.clipboard_flash is None,
    {
        ParqApp {
            tree: FolderTree::new(),
            open_path: None,
            total_rows: None,
            schema: None,
            result: None,
            derived: Vec::new(),
            sql: String::new(),
            error: None,
            status: to_owned_string("Open a folder · parquet · csv · json · jsonl · sql"),
            preview_limit: 100,
            show_schema: true,
            theme_applied: false,
            clipboard_flash: None,
        }
    }
}

impl Default for ParqApp {
    fn default() -> (r: ParqApp)
        ensures
            r.open_path is None,
            r.result is None,
            r.error is None,
            r.status@ == initial_status(),
            r.preview_limit == 100,
    {
        ParqApp::initial()
    }
}

/// A file's name for status lines: its final component, or `file`.
pub open spec fn shown_name(path: Seq<char>) -> Seq<char> {
    match file_name_of(path) {
        Some(f) => f,
        None => "file"@,
    }
}

pub fn shown_name_of(path: &str) -> (r: String)
    ensures
        r@ == shown_name(path@),
{
    match file_name(path) {
        Some(f) => f,
        None => to_owned_string("file"),
    }
}

fn prefixed(prefix: &str, s: &str) -> (r: String)
    ensures
        r@ == prefix@ + s@,
{
    let mut out = to_owned_string(prefix);
    out.append(s);
    out
}

/// The kind shown for an opened data path: `jsonl` for newline-delimited
/// JSON, else its extension as written, else `data`.
pub open spec fn kind_label(path: Seq<char>) -> Seq<char> {
    if is_jsonl_spec(path) {
        "jsonl"@
    } else {
        match extension_of(path) {
            Some(e) => e,
            None => "data"@,
        }
    }
}

/// The status line after a data path's preview came in.
pub open spec fn preview_status(
    path: Seq<char>,
    ncols: nat,
    nrows: nat,
    total: Option<u64>,
    nderived: nat,
    ms: u128,
) -> Seq<char> {
    "● "@ + shown_name(path) + " ("@ + kind_label(path) + ")  ·  "@ + decimal(ncols) + " cols  ·  "@
        + decimal(nrows) + " shown"@ + match total {
        Some(n) => " / "@ + decimal(n as nat),
        None => Seq::empty(),
    } + if nderived == 0 {
        Seq::<char>::empty()
    } else {
        "  ·  +"@ + decimal(nderived) + " derived"@
    } + "  ·  "@ + decimal(ms as nat) + " ms"@
}

/// The status line after an SQL query ran.
pub open spec fn query_status(ncols: nat, nrows: nat, ms: u128) -> Seq<char> {
    "✓ query  ·  "@ + decimal(ncols) + " cols  ·  "@ + decimal(nrows) + " rows  ·  "@ + decimal(
        ms as nat,
    ) + " ms"@
}

/// The status line after a describe run.
pub open spec fn describe_status(summary: Seq<char>, ms: u128) -> Seq<char> {
    "✓ "@ + summary + "  ·  "@ + decimal(ms as nat) + " ms"@
}

/// The note shown after the results were copied.
pub open spec fn copied_note(ncols: nat, nrows: nat) -> Seq<char> {
    "copied "@ + decimal(ncols) + "×"@ + decimal(nrows) + " TSV to clipboard"@
}

fn append_decimal(s: &mut String, n: u128)
    ensures
        final(s)@ == old(s)@ + decimal(n as nat),
{
    let d = decimal_string(n);
    s.append(d.as_str());
}

impl ParqApp {
    /// Takes a read SQL file: on success it is selected and its text goes
    /// into the editor; on failure the error says why.
    pub fn on_sql_file(&mut self, path: &str, contents: Result<String, String>)
        ensures
            match contents {
                Ok(text) => {
                    &&& final(self).error is None
                    &&& opt_view(final(self).tree.selected) == Some(path@)
                    &&& final(self).sql@ == text@
                    &&& final(self).status@ == "loaded SQL · "@ + shown_name(path@)
                },
                Err(e) => {
                    &&& opt_view(final(self).error) == Some("read sql: "@ + e@)
                    &&& *final(self) == (ParqApp { error: final(self).error, ..*old(self) })
                },
            },
            *final(self) == (ParqApp {
                error: final(self).error,
                tree: FolderTree { selected: final(self).tree.selected, ..old(self).tree },
                sql: final(self).sql,
                status: final(self).status,
                ..*old(self)
            }),
    {
        self.error = None;
        match contents {
            Ok(text) => {
                self.tree.select(path);
                self.sql = text;
                let name = shown_name_of(path);
                self.status = prefixed("loaded SQL · ", name.as_str());
            },
            Err(e) => {
                self.error = Some(prefixed("read sql: ", e.as_str()));
            },
        }
    }

    /// The start of opening a data path, given whether it exists and whether
    /// it is tabular.  Returns whether to go on: a missing or non-tabular path
    /// leaves an error instead.
    pub fn begin_open(&mut self, path: &str, exists: bool, tabular: bool) -> (go: bool)
        ensures
            go == (exists && tabular),
            !exists ==> opt_view(final(self).error) == Some("not found: "@ + path@),
            exists && !tabular ==> opt_view(final(self).error) == Some(
                "unsupported type (want parquet/csv/json/jsonl): "@ + path@,
            ),
            go ==> {
                &&& final(self).error is None
                &&& opt_view(final(self).open_path) == Some(path@)
                &&& opt_view(final(self).tree.selected) == Some(path@)
            },
            !go ==> *final(self) == (ParqApp { error: final(self).error, ..*old(self) }),
            *final(self) == (ParqApp {
                error: final(self).error,
                open_path: final(self).open_path,
                tree: FolderTree { selected: final(self).tree.selected, ..old(self).tree },
                ..*old(self)
            }),
    {
        self.error = None;
        if !exists {
            self.error = Some(prefixed("not found: ", path));
            return false;
        }
        if !tabular {
            self.error = Some(prefixed("unsupported type (want parquet/csv/json/jsonl): ", path));
            return false;
        }
        self.open_path = Some(to_owned_string(path));
        self.tree.select(path);
        true
    }

    /// Takes the derived columns of the opened path (none where detection
    /// failed): the editor gets the preview query with them, and the rows are
    /// counted next (the returned query).
    pub fn after_derive(&mut self, source: &DataSource, derived: Vec<DerivedCol>) -> (q: String)
        ensures
            final(self).derived == derived,
            final(self).sql@ == select_limit_text(
                enhanced_text(source.relation(), models(derived@)),
                old(self).preview_limit as nat,
            ),
            *final(self) == (ParqApp { derived: final(self).derived, sql: final(self).sql, ..*old(self) }),
            q@ == count_sql_text(source.relation()),
    {
        self.sql = select_star_with_derived(source, &derived, self.preview_limit);
        self.derived = derived;
        count_file_sql(source)
    }

    /// Takes the row count: the total, or the error `count: ...`.  The schema
    /// of the relation with its derived columns is asked for next.
    pub fn after_count(&mut self, source: &DataSource, answer: Result<QueryResult, String>) -> (q: String)
        ensures
            match answer {
                Ok(r) => {
                    &&& final(self).total_rows == Some(count_in(r.rows_view()))
                    &&& final(self).error == old(self).error
                },
                Err(e) => {
                    &&& final(self).total_rows is None
                    &&& opt_view(final(self).error) == Some("count: "@ + e@)
                },
            },
            *final(self) == (ParqApp {
                total_rows: final(self).total_rows,
                error: final(self).error,
                ..*old(self)
            }),
            q@ == columns_sql_text(enhanced_text(source.relation(), models(old(self).derived@))),
    {
        match answer {
            Ok(r) => {
                self.total_rows = Some(count_from_result(&r));
            },
            Err(e) => {
                self.total_rows = None;
                self.error = Some(prefixed("count: ", e.as_str()));
            },
        }
        let rel = enhanced_relation(source, &self.derived);
        columns_sql(rel.as_str())
    }

    /// Takes the schema: kept, or the error `schema: ...`.  The preview (the
    /// editor's query) runs next.
    pub fn after_schema(&mut self, answer: Result<QueryResult, String>) -> (q: String)
        ensures
            match answer {
                Ok(r) => final(self).schema == Some(r) && final(self).error == old(self).error,
                Err(e) => {
                    &&& final(self).schema is None
                    &&& opt_view(final(self).error) == Some("schema: "@ + e@)
                },
            },
            *final(self) == (ParqApp { schema: final(self).schema, error: final(self).error, ..*old(self) }),
            q@ == old(self).sql@,
    {
        match answer {
            Ok(r) => {
                self.schema = Some(r);
            },
            Err(e) => {
                self.schema = None;
                self.error = Some(prefixed("schema: ", e.as_str()));
            },
        }
        to_owned_string(self.sql.as_str())
    }

    /// Takes the preview: it becomes the result, with a status line naming
    /// the file, its kind and the sizes; or the error `preview: ...`.
    pub fn after_preview(&mut self, path: &str, answer: Result<QueryResult, String>)
        ensures
            match answer {
                Ok(r) => {
                    &&& final(self).result == Some(r)
                    &&& final(self).status@ == preview_status(
                        path@,
                        r.columns@.len(),
                        r.rows@.len(),
                        old(self).total_rows,
                        old(self).derived@.len(),
                        r.elapsed_ms,
                    )
                    &&& final(self).error == old(self).error
                },
                Err(e) => {
                    &&& final(self).result is None
                    &&& opt_view(final(self).error) == Some("preview: "@ + e@)
                    &&& final(self).status == old(self).status
                },
            },
            *final(self) == (ParqApp {
                result: final(self).result,
                status: final(self).status,
                error: final(self).error,
                ..*old(self)
            }),
    {
        match answer {
            Ok(r) => {
                let mut s = to_owned_string("● ");
                let name = shown_name_of(path);
                s.append(name.as_str());
                s.append(" (");
                if is_jsonl(path) {
                    s.append("jsonl");
                } else {
                    match extension(path) {
                        Some(e) => s.append(e.as_str()),
                        None => s.append("data"),
                    }
                }
                s.append(")  ·  ");
                append_decimal(&mut s, r.columns.len() as u128);
                s.append(" cols  ·  ");
                append_decimal(&mut s, r.rows.len() as u128);
                s.append(" shown");
                match self.total_rows {
                    Some(n) => {
                        s.append(" / ");
                        append_decimal(&mut s, n as u128);
                    },
                    None => {},
                }
                if self.derived.len() > 0 {
                    s.append("  ·  +");
                    append_decimal(&mut s, self.derived.len() as u128);
                    s.append(" derived");
                }
                s.append("  ·  ");
                append_decimal(&mut s, r.elapsed_ms);
                s.append(" ms");
                proof {
                    let tail1 = match self.total_rows {
                        Some(n) => " / "@ + decimal(n as nat),
                        None => Seq::<char>::empty(),
                    };
                    let tail2 = if self.derived@.len() == 0 {
                        Seq::<char>::empty()
                    } else {
                        "  ·  +"@ + decimal(self.derived@.len() as nat) + " derived"@
                    };
                    assert(s@ =~= preview_status(
                        path@,
                        r.columns@.len(),
                        r.rows@.len(),
                        self.total_rows,
                        self.derived@.len(),
                        r.elapsed_ms,
                    ));
                }
                self.status = s;
                self.result = Some(r);
            },
            Err(e) => {
                self.result = None;
                self.error = Some(prefixed("preview: ", e.as_str()));
            },
        }
    }

    /// Starts running the editor's SQL: the trimmed text, or `None` with the
    /// error `SQL is empty` when there is none.
    pub fn begin_run_sql(&mut self) -> (q: Option<String>)
        ensures
            match q {
                Some(t) => t@ == trim(old(self).sql@) && t@.len() > 0 && final(self).error is None,
                None => trim(old(self).sql@).len() == 0 && opt_view(final(self).error) == Some(
                    "SQL is empty"@,
                ),
            },
            *final(self) == (ParqApp { error: final(self).error, ..*old(self) }),
    {
        self.error = None;
        let t = trim_str(self.sql.as_str());
        if chars_of(t.as_str()).len() == 0 {
            self.error = Some(to_owned_string("SQL is empty"));
            return None;
        }
        Some(t)
    }

    /// Takes the answer to the editor's SQL: the new result with its status
    /// line, or the error.
    pub fn after_run_sql(&mut self, answer: Result<QueryResult, String>)
        ensures
            match answer {
                Ok(r) => {
                    &&& final(self).result == Some(r)
                    &&& final(self).status@ == query_status(r.columns@.len(), r.rows@.len(), r.elapsed_ms)
                    &&& final(self).error == old(self).error
                },
                Err(e) => {
                    &&& opt_view(final(self).error) == Some(e@)
                    &&& final(self).result == old(self).result
                    &&& final(self).status == old(self).status
                },
            },
            *final(self) == (ParqApp {
                result: final(self).result,
                status: final(self).status,
                error: final(self).error,
                ..*old(self)
            }),
    {
        match answer {
            Ok(r) => {
                let mut s = to_owned_string("✓ query  ·  ");
                append_decimal(&mut s, r.columns.len() as u128);
                s.append(" cols  ·  ");
                append_decimal(&mut s, r.rows.len() as u128);
                s.append(" rows  ·  ");
                append_decimal(&mut s, r.elapsed_ms);
                s.append(" ms");
                self.status = s;
                self.result = Some(r);
            },
            Err(e) => {
                self.error = Some(e);
            },
        }
    }

    /// Starts a describe run, given whether the open path is tabular: the path
    /// to describe, or `None` with an error when nothing (tabular) is open.
    pub fn begin_describe(&mut self, tabular: bool) -> (p: Option<String>)
        ensures
            match old(self).open_path {
                None => p is None && opt_view(final(self).error) == Some(
                    "open a data file first (parquet/csv/json/jsonl)"@,
                ),
                Some(path) => if tabular {
                    &&& p matches Some(q) && q@ == path@
                    &&& final(self).error is None
                    &&& final(self).status@ == "running intelligent describe…"@
                } else {
                    &&& p is None
                    &&& opt_view(final(self).error) == Some("Describe table needs a tabular file open"@)
                    &&& final(self).status == old(self).status
                },
            },
            old(self).open_path is None ==> final(self).status == old(self).status,
            *final(self) == (ParqApp { error: final(self).error, status: final(self).status, ..*old(self) }),
    {
        self.error = None;
        let path = match &self.open_path {
            Some(p) => to_owned_string(p.as_str()),
            None => {
                self.error = Some(to_owned_string("open a data file first (parquet/csv/json/jsonl)"));
                return None;
            },
        };
        if !tabular {
            self.error = Some(to_owned_string("Describe table needs a tabular file open"));
            return None;
        }
        self.status = to_owned_string("running intelligent describe…");
        Some(path)
    }

    /// Takes the outcome of a describe run: the profile becomes the result
    /// with the run's summary in the status line, or the error
    /// `describe: ...`.
    pub fn after_describe(&mut self, outcome: Result<(QueryResult, String), String>)
        ensures
            match outcome {
                Ok((r, summary)) => {
                    &&& final(self).result == Some(r)
                    &&& final(self).status@ == describe_status(summary@, r.elapsed_ms)
                    &&& final(self).error == old(self).error
                },
                Err(e) => {
                    &&& opt_view(final(self).error) == Some("describe: "@ + e@)
                    &&& final(self).result == old(self).result
                    &&& final(self).status == old(self).status
                },
            },
            *final(self) == (ParqApp {
                result: final(self).result,
                status: final(self).status,
                error: final(self).error,
                ..*old(self)
            }),
    {
        match outcome {
            Ok((r, summary)) => {
                let mut s = to_owned_string("✓ ");
                s.append(summary.as_str());
                s.append("  ·  ");
                append_decimal(&mut s, r.elapsed_ms);
                s.append(" ms");
                self.status = s;
                self.result = Some(r);
            },
            Err(e) => {
                self.error = Some(prefixed("describe: ", e.as_str()));
            },
        }
    }

    /// The results as TSV for the clipboard, with a note in the status line;
    /// `None` and an error when there are no results.
    pub fn copy_results(&mut self) -> (t: Option<String>)
        ensures
            match old(self).result {
                None => {
                    &&& t is None
                    &&& *final(self) == (ParqApp { error: final(self).error, ..*old(self) })
                    &&& opt_view(final(self).error) == Some("no results to copy"@)
                },
                Some(r) => {
                    &&& t matches Some(text) && text@ == tsv_text(r.columns_view(), r.rows_view())
                    &&& opt_view(final(self).clipboard_flash) == Some(
                        copied_note(r.columns@.len(), r.rows@.len()),
                    )
                    &&& final(self).status@ == copied_note(r.columns@.len(), r.rows@.len())
                    &&& *final(self) == (ParqApp {
                        status: final(self).status,
                        clipboard_flash: final(self).clipboard_flash,
                        ..*old(self)
                    })
                },
            },
    {
        let (tsv, note) = match &self.result {
            None => {
                self.error = Some(to_owned_string("no results to copy"));
                return None;
            },
            Some(r) => {
                let tsv = r.to_tsv();
                let mut note = to_owned_string("copied ");
                append_decimal(&mut note, r.columns.len() as u128);
                note.append("×");
                append_decimal(&mut note, r.rows.len() as u128);
                note.append(" TSV to clipboard");
                (tsv, note)
            },
        };
        self.status = to_owned_string(note.as_str());
        self.clipboard_flash = Some(note);
        Some(tsv)
    }

    /// Puts the preview query of the open data path back into the editor.
    pub fn reset_sql(&mut self, source: &DataSource)
        ensures
            final(self).sql@ == select_limit_text(
                enhanced_text(source.relation(), models(old(self).derived@)),
                old(self).preview_limit as nat,
            ),
            *final(self) == (ParqApp { sql: final(self).sql, ..*old(self) }),
    {
        self.sql = select_star_with_derived(source, &self.derived, self.preview_limit);
    }

    /// Empties the editor.
    pub fn clear_sql(&mut self)
        ensures
            final(self).sql@.len() == 0,
            *final(self) == (ParqApp { sql: final(self).sql, ..*old(self) }),
    {
        self.sql = String::new();
    }

    /// Starts the explorer on a directory: it becomes the tree's root.
    pub fn start_with_dir(&mut self, dir: &str)
        ensures
            opt_view(final(self).tree.root) == Some(dir@),
            forall|p: Seq<char>| #[trigger] final(self).tree.is_open(p) <==> p == dir@,
            forall|p: Seq<char>| (#[trigger] final(self).tree.listing(p)) is None,
            final(self).tree.selected is None,
            final(self).tree.error is None,
            *final(self) == (ParqApp { tree: final(self).tree, ..*old(self) }),
    {
        self.tree.set_root(to_owned_string(dir));
    }

    /// Starts the explorer on a file: its directory (when it has one) becomes
    /// the root and the file is selected.  The action says what to do with
    /// the file: load an SQL file into the editor, open a tabular one, or
    /// nothing.
    pub fn start_with_file(&mut self, path: &str, parent: Option<String>, is_sql: bool, tabular: bool) -> (a:
        Option<TreeAction>)
        ensures
            parent is Some ==> {
                &&& opt_view(final(self).tree.root) == opt_view(parent)
                &&& forall|p: Seq<char>| #[trigger] final(self).tree.is_open(p) <==> Some(p) == opt_view(parent)
                &&& forall|p: Seq<char>| (#[trigger] final(self).tree.listing(p)) is None
                &&& final(self).tree.error is None
                &&& opt_view(final(self).tree.selected) == Some(path@)
            },
            *final(self) == (ParqApp { tree: final(self).tree, ..*old(self) }),
            parent is None ==> final(self).tree == old(self).tree,
            is_sql ==> (a matches Some(TreeAction::LoadSql(p)) && p@ == path@),
            !is_sql && tabular ==> (a matches Some(TreeAction::OpenData(p)) && p@ == path@),
            !is_sql && !tabular ==> a is None,
    {
        match parent {
            Some(dir) => {
                let ghost dv = dir@;
                self.tree.set_root(dir);
                let ghost rooted = self.tree;
                self.tree.select(path);
                assert forall|p: Seq<char>| #[trigger] self.tree.is_open(p) <==> p == dv by {
                    assert(self.tree.is_open(p) == rooted.is_open(p));
                }
                assert forall|p: Seq<char>| (#[trigger] self.tree.listing(p)) is None by {
                    assert(self.tree.listing(p) == rooted.listing(p));
                }
            },
            None => {},
        }
        if is_sql {
            Some(TreeAction::LoadSql(to_owned_string(path)))
        } else if tabular {
            Some(TreeAction::OpenData(to_owned_string(path)))
        } else {
            None
        }
    }
}

// ---------------------------------------------------------------------------
// The result grid
// ---------------------------------------------------------------------------

/// The position of the first line break.
pub open spec fn first_newline(s: Seq<char>) -> Option<int>
    decreases s.len(),
{
    if s.len() == 0 {
        None
    } else if s[0] == '\n' {
        Some(0)
    } else {
        match first_newline(s.drop_first()) {
            Some(i) => Some(i + 1),
            None => None,
        }
    }
}

/// The first line of a text, as `str::lines` gives it (without a trailing
/// carriage return).
pub open spec fn first_line(s: Seq<char>, k: int) -> Seq<char> {
    let l = s.take(k);
    if l.len() > 0 && l.last() == '\r' {
        l.drop_last()
    } else {
        l
    }
}

/// Cells longer than this many characters are cut in the grid.
pub open spec fn max_cell_chars() -> nat {
    120
}

/// How a cell is drawn in the grid: a multi-line cell as its first line
/// (with ` …` when more lines follow), a long cell cut to 120 characters and
/// `…`, an empty cell as `∅`.
pub open spec fn cell_display(s: Seq<char>) -> Seq<char> {
    match first_newline(s) {
        Some(k) => if k + 1 < s.len() {
            first_line(s, k) + " …"@
        } else {
            first_line(s, k)
        },
        None => if s.len() > max_cell_chars() {
            s.take(120) + "…"@
        } else if s.len() == 0 {
            "∅"@
        } else {
            s
        },
    }
}

/// What the grid shows for a cell.
pub fn display_cell(cell: &str) -> (r: String)
    ensures
        r@ == cell_display(cell@),
{
    let v = chars_of(cell);
    let mut k: usize = 0;
    assert(v@.skip(0) =~= v@);
    while k < v.len() && v[k] != '\n'
        invariant
            k <= v@.len(),
            forall|m: int| 0 <= m < k ==> v@[m] != '\n',
            first_newline(v@) == match first_newline(v@.skip(k as int)) {
                Some(i) => Some(i + k),
                None => None,
            },
        decreases v.len() - k,
    {
        assert(v@.skip(k as int).drop_first() =~= v@.skip(k + 1));
        k += 1;
    }
    if k < v.len() {
        assert(v@.skip(k as int)[0] == '\n');
        let mut end = k;
        if end > 0 && v[end - 1] == '\r' {
            end = end - 1;
        }
        let mut out = String::new();
        let mut m: usize = 0;
        while m < end
            invariant
                m <= end <= k < v@.len(),
                out@ == v@.take(m as int),
            decreases end - m,
        {
            push_char(&mut out, v[m]);
            m += 1;
            assert(out@ =~= v@.take(m as int));
        }
        proof {
            let l = v@.take(k as int);
            if k > 0 && v@[k - 1] == '\r' {
                assert(l.last() == v@[k - 1]);
                assert(l.drop_last() =~= v@.take(end as int));
            } else {
                if k > 0 {
                    assert(l.last() == v@[k - 1]);
                }
                assert(l =~= v@.take(end as int));
            }
        }
        if k + 1 < v.len() {
            out.append(" …");
        }
        return out;
    }
    assert(v@.skip(k as int).len() == 0);
    if v.len() > 120 {
        let mut out = String::new();
        let mut m: usize = 0;
        while m < 120
            invariant
                m <= 120 < v@.len(),
                out@ == v@.take(m as int),
            decreases 120 - m,
        {
            push_char(&mut out, v[m]);
            m += 1;
            assert(out@ =~= v@.take(m as int));
        }
        out.append("…");
        out
    } else if v.len() == 0 {
        to_owned_string("∅")
    } else {
        to_owned_string(cell)
    }
}

} // verus!
