//! Derived columns: varchar columns that hold money strings or numbers in
//! text are detected from a sample, and read through extra SQL expressions
//! (`pv_deriv_*`) that the preview and the profile add to the relation.
use vstd::prelude::*;
use crate::duck::{grid_view, strings_view};
use crate::relation::{columns_sql, columns_sql_text, relation_sql, select_limit, select_limit_text, DataSource};
use crate::text::{
    chars_of, contains, contains_str, starts_with, decimal, is_alnum_ascii, is_alnum_ascii_char, is_digit,
    is_digit_char, join, join_strings, lower_ascii, lower_ascii_str, parse_u64, parse_u64_str,
    push_char, quote_ident, quote_ident_spec, str_eq, string_of, to_owned_string,
};

verus! {

pub open spec fn classification_sql_text(qn: Seq<char>, base: Seq<char>, cur_pred: Seq<char>, num_pred: Seq<char>) -> Seq<char> {
    "WITH s AS (SELECT cast("@ + qn + " AS VARCHAR) AS v FROM "@ + base + " WHERE "@ + qn + " IS NOT NULL AND trim(cast("@ + qn + " AS VARCHAR)) <> '' LIMIT 500) SELECT count(*)::BIGINT AS n, count(*) FILTER (WHERE "@ + cur_pred + ")::BIGINT AS n_cur, count(*) FILTER (WHERE "@ + num_pred + ")::BIGINT AS n_num FROM s"@
}

/// The query that samples up to 500 filled values of a column and counts
/// them, the currency-looking ones and the plain numbers.
pub fn classification_sql(qn: &str, base: &str, cur_pred: &str, num_pred: &str) -> (r: String)
    ensures
        r@ == classification_sql_text(qn@, base@, cur_pred@, num_pred@),
{
    let mut s = to_owned_string("WITH s AS (SELECT cast(");
    s.append(qn);
    s.append(" AS VARCHAR) AS v FROM ");
    s.append(base);
    s.append(" WHERE ");
    s.append(qn);
    s.append(" IS NOT NULL AND trim(cast(");
    s.append(qn);
    s.append(" AS VARCHAR)) <> '' LIMIT 500) SELECT count(*)::BIGINT AS n, count(*) FILTER (WHERE ");
    s.append(cur_pred);
    s.append(")::BIGINT AS n_cur, count(*) FILTER (WHERE ");
    s.append(num_pred);
    s.append(")::BIGINT AS n_num FROM s");
    s
}

pub open spec fn currency_symbol_expr_text(q: Seq<char>) -> Seq<char> {
    "CASE WHEN regexp_matches(trim(cast("@ + q + " AS VARCHAR)), '€') THEN '€' WHEN regexp_matches(trim(cast("@ + q + " AS VARCHAR)), '\\$') THEN '$' WHEN regexp_matches(trim(cast("@ + q + " AS VARCHAR)), '£') THEN '£' WHEN regexp_matches(trim(cast("@ + q + " AS VARCHAR)), '¥') THEN '¥' WHEN regexp_matches(trim(cast("@ + q + " AS VARCHAR)), '₹') THEN '₹' WHEN regexp_matches(upper(trim(cast("@ + q + " AS VARCHAR))), '\\bEUR\\b') THEN 'EUR' WHEN regexp_matches(upper(trim(cast("@ + q + " AS VARCHAR))), '\\bUSD\\b') THEN 'USD' WHEN regexp_matches(upper(trim(cast("@ + q + " AS VARCHAR))), '\\bGBP\\b') THEN 'GBP' WHEN regexp_matches(upper(trim(cast("@ + q + " AS VARCHAR))), '\\bJPY\\b') THEN 'JPY' ELSE regexp_extract(trim(cast("@ + q + " AS VARCHAR)), '([€$£¥₹])', 1) END"@
}

/// The SQL expression that extracts the currency symbol or code of a quoted
/// column: an explicit symbol first, then an ISO code.
pub fn currency_symbol_expr(q: &str) -> (r: String)
    ensures
        r@ == currency_symbol_expr_text(q@),
{
    let mut s = to_owned_string("CASE WHEN regexp_matches(trim(cast(");
    s.append(q);
    s.append(" AS VARCHAR)), '€') THEN '€' WHEN regexp_matches(trim(cast(");
    s.append(q);
    s.append(" AS VARCHAR)), '\\$') THEN '$' WHEN regexp_matches(trim(cast(");
    s.append(q);
    s.append(" AS VARCHAR)), '£') THEN '£' WHEN regexp_matches(trim(cast(");
    s.append(q);
    s.append(" AS VARCHAR)), '¥') THEN '¥' WHEN regexp_matches(trim(cast(");
    s.append(q);
    s.append(" AS VARCHAR)), '₹') THEN '₹' WHEN regexp_matches(upper(trim(cast(");
    s.append(q);
    s.append(" AS VARCHAR))), '\\bEUR\\b') THEN 'EUR' WHEN regexp_matches(upper(trim(cast(");
    s.append(q);
    s.append(" AS VARCHAR))), '\\bUSD\\b') THEN 'USD' WHEN regexp_matches(upper(trim(cast(");
    s.append(q);
    s.append(" AS VARCHAR))), '\\bGBP\\b') THEN 'GBP' WHEN regexp_matches(upper(trim(cast(");
    s.append(q);
    s.append(" AS VARCHAR))), '\\bJPY\\b') THEN 'JPY' ELSE regexp_extract(trim(cast(");
    s.append(q);
    s.append(" AS VARCHAR)), '([€$£¥₹])', 1) END");
    s
}

pub open spec fn numeric_cast_expr_text(q: Seq<char>) -> Seq<char> {
    "try_cast(replace(replace(trim(cast("@ + q + " AS VARCHAR)), ',', ''), ' ', '') AS DOUBLE)"@
}

/// The SQL expression that reads a quoted varchar column as a number,
/// ignoring commas and spaces.
pub fn numeric_cast_expr(q: &str) -> (r: String)
    ensures
        r@ == numeric_cast_expr_text(q@),
{
    let mut s = to_owned_string("try_cast(replace(replace(trim(cast(");
    s.append(q);
    s.append(" AS VARCHAR)), ',', ''), ' ', '') AS DOUBLE)");
    s
}

pub open spec fn currency_value_expr_text(qn: Seq<char>) -> Seq<char> {
    "(try_cast(regexp_extract(regexp_replace(trim(cast("@ + qn + " AS VARCHAR)), '[€$£¥₹,\\s]', '', 'g'), '([-+]?[0-9]*\\.?[0-9]+)', 1) AS DOUBLE) * CASE upper(coalesce(nullif(regexp_extract(regexp_replace(trim(cast("@ + qn + " AS VARCHAR)), '[€$£¥₹,\\s]', '', 'g'), '([KkMmBbTt])\\s*$', 1), ''), '')) WHEN 'K' THEN 1e3 WHEN 'M' THEN 1e6 WHEN 'B' THEN 1e9 WHEN 'T' THEN 1e12 ELSE 1.0 END)"@
}

/// The SQL expression that reads money strings like `€716.9B`, `$1,234.5M`
/// or `12.5k` as DOUBLE.
pub fn currency_value_expr(qn: &str) -> (r: String)
    ensures
        r@ == currency_value_expr_text(qn@),
{
    let mut s = to_owned_string("(try_cast(regexp_extract(regexp_replace(trim(cast(");
    s.append(qn);
    s.append(" AS VARCHAR)), '[€$£¥₹,\\s]', '', 'g'), '([-+]?[0-9]*\\.?[0-9]+)', 1) AS DOUBLE) * CASE upper(coalesce(nullif(regexp_extract(regexp_replace(trim(cast(");
    s.append(qn);
    s.append(" AS VARCHAR)), '[€$£¥₹,\\s]', '', 'g'), '([KkMmBbTt])\\s*$', 1), ''), '')) WHEN 'K' THEN 1e3 WHEN 'M' THEN 1e6 WHEN 'B' THEN 1e9 WHEN 'T' THEN 1e12 ELSE 1.0 END)");
    s
}

pub open spec fn currency_match_sql_text(col: Seq<char>) -> Seq<char> {
    "( regexp_matches(trim(cast("@ + col + " AS VARCHAR)), '[€$£¥₹]') OR regexp_matches(upper(trim(cast("@ + col + " AS VARCHAR))), '\\b(USD|EUR|GBP|JPY|INR)\\b') ) AND regexp_matches(trim(cast("@ + col + " AS VARCHAR)), '[0-9]')"@
}

/// SQL condition: the value looks like currency (a symbol or code and a digit).
pub fn currency_match_sql(col: &str) -> (r: String)
    ensures
        r@ == currency_match_sql_text(col@),
{
    let mut s = to_owned_string("( regexp_matches(trim(cast(");
    s.append(col);
    s.append(" AS VARCHAR)), '[€$£¥₹]') OR regexp_matches(upper(trim(cast(");
    s.append(col);
    s.append(" AS VARCHAR))), '\\b(USD|EUR|GBP|JPY|INR)\\b') ) AND regexp_matches(trim(cast(");
    s.append(col);
    s.append(" AS VARCHAR)), '[0-9]')");
    s
}

pub open spec fn plain_numeric_match_sql_text(col: Seq<char>) -> Seq<char> {
    "try_cast(replace(replace(trim(cast("@ + col + " AS VARCHAR)), ',', ''), ' ', '') AS DOUBLE) IS NOT NULL AND NOT regexp_matches(trim(cast("@ + col + " AS VARCHAR)), '[€$£¥₹A-Za-z]')"@
}

/// SQL condition: the value is a plain number and carries no letters or
/// currency symbols.
pub fn plain_numeric_match_sql(col: &str) -> (r: String)
    ensures
        r@ == plain_numeric_match_sql_text(col@),
{
    let mut s = to_owned_string("try_cast(replace(replace(trim(cast(");
    s.append(col);
    s.append(" AS VARCHAR)), ',', ''), ' ', '') AS DOUBLE) IS NOT NULL AND NOT regexp_matches(trim(cast(");
    s.append(col);
    s.append(" AS VARCHAR)), '[€$£¥₹A-Za-z]')");
    s
}


// ---------------------------------------------------------------------------
// Derived columns
// ---------------------------------------------------------------------------

/// Kind of derived column materialized in a SELECT wrapper.
#[derive(Debug, Clone)]
pub enum DerivedKind {
    /// ISO/symbol currency code extracted from a money string column.
    CurrencySymbol { source: String },
    /// Numeric amount parsed from a money string (handles K/M/B/T suffixes).
    CurrencyValue { source: String },
    /// Plain numeric value parsed from a varchar that is not currency.
    NumericFromString { source: String },
}

/// A derived column: its output name, what it computes, and a short note for
/// people.
#[derive(Debug, Clone)]
pub struct DerivedCol {
    pub name: String,
    pub kind: DerivedKind,
    pub note: String,
}

pub enum KindModel {
    CurrencySymbol(Seq<char>),
    CurrencyValue(Seq<char>),
    NumericFromString(Seq<char>),
}

pub struct DerivedModel {
    pub name: Seq<char>,
    pub kind: KindModel,
    pub note: Seq<char>,
}

impl DerivedKind {
    pub open spec fn model(self) -> KindModel {
        match self {
            DerivedKind::CurrencySymbol { source } => KindModel::CurrencySymbol(source@),
            DerivedKind::CurrencyValue { source } => KindModel::CurrencyValue(source@),
            DerivedKind::NumericFromString { source } => KindModel::NumericFromString(source@),
        }
    }
}

impl DerivedCol {
    pub open spec fn model(self) -> DerivedModel {
        DerivedModel { name: self.name@, kind: self.kind.model(), note: self.note@ }
    }
}

pub open spec fn models(ds: Seq<DerivedCol>) -> Seq<DerivedModel> {
    ds.map_values(|d: DerivedCol| d.model())
}

/// The SQL expression a derived column computes.
pub open spec fn expr_text(k: KindModel) -> Seq<char> {
    match k {
        KindModel::CurrencySymbol(s) => currency_symbol_expr_text(quote_ident_spec(s)),
        KindModel::CurrencyValue(s) => currency_value_expr_text(quote_ident_spec(s)),
        KindModel::NumericFromString(s) => numeric_cast_expr_text(quote_ident_spec(s)),
    }
}

pub open spec fn kind_is_numeric(k: KindModel) -> bool {
    !(k is CurrencySymbol)
}

impl DerivedCol {
    /// The SQL expression of this column, over the quoted source column.
    pub fn sql_expr(&self) -> (r: String)
        ensures
            r@ == expr_text(self.kind.model()),
    {
        match &self.kind {
            DerivedKind::CurrencySymbol { source } => {
                let q = quote_ident(source.as_str());
                currency_symbol_expr(q.as_str())
            },
            DerivedKind::CurrencyValue { source } => {
                let q = quote_ident(source.as_str());
                currency_value_expr(q.as_str())
            },
            DerivedKind::NumericFromString { source } => {
                let q = quote_ident(source.as_str());
                numeric_cast_expr(q.as_str())
            },
        }
    }

    /// The type shown for this column: a symbol is text, the others numbers.
    pub fn data_type_label(&self) -> (r: &'static str)
        ensures
            r@ == (if kind_is_numeric(self.kind.model()) {
                "DOUBLE (derived)"@
            } else {
                "VARCHAR (derived)"@
            }),
    {
        match self.kind {
            DerivedKind::CurrencySymbol { .. } => "VARCHAR (derived)",
            DerivedKind::CurrencyValue { .. } => "DOUBLE (derived)",
            DerivedKind::NumericFromString { .. } => "DOUBLE (derived)",
        }
    }

    /// Whether this column holds numbers.
    pub fn is_numeric(&self) -> (b: bool)
        ensures
            b == kind_is_numeric(self.kind.model()),
    {
        match self.kind {
            DerivedKind::CurrencySymbol { .. } => false,
            DerivedKind::CurrencyValue { .. } => true,
            DerivedKind::NumericFromString { .. } => true,
        }
    }
}

/// The label and the numeric flag of a derived column agree: "DOUBLE" exactly
/// for the numeric ones.
pub proof fn lemma_label_matches_numeric(k: KindModel)
    ensures
        kind_is_numeric(k) <==> !(k is CurrencySymbol),
{
}

// ---------------------------------------------------------------------------
// Identifiers
// ---------------------------------------------------------------------------

pub open spec fn sanitize_char(c: char) -> char {
    if is_alnum_ascii(c) {
        c
    } else {
        '_'
    }
}

/// A name usable inside an identifier: ASCII letters and digits kept, every
/// other character `_`; `col` for an empty name; `c_` in front of a leading
/// digit.
pub open spec fn sanitize_text(name: Seq<char>) -> Seq<char> {
    let m = name.map_values(|c: char| sanitize_char(c));
    let s = if m.len() == 0 {
        "col"@
    } else {
        m
    };
    if s.len() > 0 && is_digit(s[0]) {
        "c_"@ + s
    } else {
        s
    }
}

/// Makes a column name safe to use inside a derived column's name.
pub fn sanitize_ident(name: &str) -> (r: String)
    ensures
        r@ == sanitize_text(name@),
{
    let v = chars_of(name);
    let mut m: Vec<char> = Vec::new();
    let mut i: usize = 0;
    while i < v.len()
        invariant
            i <= v.len(),
            m@ == v@.take(i as int).map_values(|c: char| sanitize_char(c)),
        decreases v.len() - i,
    {
        if is_alnum_ascii_char(v[i]) {
            m.push(v[i]);
        } else {
            m.push('_');
        }
        i += 1;
        assert(m@ =~= v@.take(i as int).map_values(|c: char| sanitize_char(c)));
    }
    assert(v@.take(v.len() as int) =~= v@);
    let s = if m.len() == 0 {
        to_owned_string("col")
    } else {
        string_of(&m)
    };
    let sc = chars_of(s.as_str());
    if sc.len() > 0 && is_digit_char(sc[0]) {
        let mut out = to_owned_string("c_");
        out.append(s.as_str());
        out
    } else {
        s
    }
}

/// A sanitized name is made of ASCII letters, digits and `_`, is never empty,
/// and never starts with a digit.
pub proof fn lemma_sanitize_shape(name: Seq<char>)
    ensures
        sanitize_text(name).len() > 0,
        !is_digit(sanitize_text(name)[0]),
        forall|i: int|
            0 <= i < sanitize_text(name).len() ==> is_alnum_ascii(#[trigger] sanitize_text(name)[i])
                || sanitize_text(name)[i] == '_',
{
    reveal_strlit("col");
    reveal_strlit("c_");
    let m = name.map_values(|c: char| sanitize_char(c));
    assert forall|i: int| 0 <= i < m.len() implies is_alnum_ascii(#[trigger] m[i]) || m[i] == '_' by {
    }
    let s = if m.len() == 0 {
        "col"@
    } else {
        m
    };
    assert forall|i: int| 0 <= i < s.len() implies is_alnum_ascii(#[trigger] s[i]) || s[i] == '_' by {
        if m.len() != 0 {
            assert(s[i] == m[i]);
        }
    }
    if s.len() > 0 && is_digit(s[0]) {
        let r = "c_"@ + s;
        assert forall|i: int| 0 <= i < r.len() implies is_alnum_ascii(#[trigger] r[i]) || r[i] == '_' by {
            if i >= 2 {
                assert(r[i] == s[i - 2]);
            }
        }
    }
}

// ---------------------------------------------------------------------------
// Which columns get derived columns
// ---------------------------------------------------------------------------

pub open spec fn nested_type(dt: Seq<char>) -> bool {
    ||| contains(dt, "["@)
    ||| contains(dt, "list"@)
    ||| contains(dt, "array"@)
    ||| contains(dt, "struct"@)
    ||| contains(dt, "map"@)
}

pub open spec fn text_type(dt: Seq<char>) -> bool {
    ||| contains(dt, "varchar"@)
    ||| contains(dt, "string"@)
    ||| contains(dt, "text"@)
    ||| contains(dt, "json"@)
}

/// A row `(name, type)` of a column listing names a text column (not a
/// nested one).
pub open spec fn is_varchar_row(row: Seq<Seq<char>>) -> bool {
    row.len() >= 2 && !nested_type(lower_ascii(row[1])) && text_type(lower_ascii(row[1]))
}

/// The names of the text columns in a column listing, in order.
pub open spec fn varchar_columns_of(rows: Seq<Seq<Seq<char>>>) -> Seq<Seq<char>>
    decreases rows.len(),
{
    if rows.len() == 0 {
        Seq::empty()
    } else {
        varchar_columns_of(rows.drop_last()) + if is_varchar_row(rows.last()) {
            seq![rows.last()[0]]
        } else {
            Seq::empty()
        }
    }
}

fn is_nested_type(dt: &str) -> (b: bool)
    ensures
        b == nested_type(dt@),
{
    contains_str(dt, "[") || contains_str(dt, "list") || contains_str(dt, "array")
        || contains_str(dt, "struct") || contains_str(dt, "map")
}

fn is_text_type(dt: &str) -> (b: bool)
    ensures
        b == text_type(dt@),
{
    contains_str(dt, "varchar") || contains_str(dt, "string") || contains_str(dt, "text")
        || contains_str(dt, "json")
}

/// The names of the varchar-like columns among the rows of a column listing
/// (`column_name`, `column_type`); list, array, struct and map types are
/// passed over.
pub fn varchar_columns_from(rows: &Vec<Vec<String>>) -> (r: Vec<String>)
    ensures
        strings_view(r@) == varchar_columns_of(grid_view(rows@)),
{
    let ghost g = grid_view(rows@);
    let mut out: Vec<String> = Vec::new();
    let mut i: usize = 0;
    while i < rows.len()
        invariant
            i <= rows@.len(),
            g == grid_view(rows@),
            strings_view(out@) == varchar_columns_of(g.take(i as int)),
        decreases rows.len() - i,
    {
        let row = &rows[i];
        proof {
            assert(g.take(i + 1).drop_last() =~= g.take(i as int));
            assert(g.take(i + 1).last() == g[i as int]);
        }
        if row.len() >= 2 {
            let dt = lower_ascii_str(row[1].as_str());
            if !is_nested_type(dt.as_str()) && is_text_type(dt.as_str()) {
                out.push(row[0].clone());
            }
        }
        assert(strings_view(out@) =~= varchar_columns_of(g.take(i + 1)));
        i += 1;
    }
    assert(g.take(rows@.len() as int) =~= g);
    out
}

/// What a sampled column holds.
#[derive(PartialEq, Eq, Structural, Copy, Clone, Debug)]
pub enum ColumnClass {
    Currency,
    Numeric,
    Plain,
}

/// A count read from a result cell; 0 where it is not a number.
pub open spec fn count_value(c: Seq<char>) -> nat {
    match parse_u64(c) {
        Some(n) => n as nat,
        None => 0,
    }
}

/// Column names that make a money reading more likely.
pub open spec fn money_name(name: Seq<char>) -> bool {
    let l = lower_ascii(name);
    ||| contains(l, "revenue"@)
    ||| contains(l, "price"@)
    ||| contains(l, "cost"@)
    ||| contains(l, "amount"@)
    ||| contains(l, "sales"@)
    ||| contains(l, "assets"@)
    ||| contains(l, "income"@)
    ||| contains(l, "profit"@)
    ||| contains(l, "fee"@)
    ||| contains(l, "value"@)
}

/// How a column is read from its sample counts `n` (filled values), `nc`
/// (currency-looking) and `nn` (plain numbers): no reading under 5 values;
/// currency from a rate of 0.75 (money-like name) or 0.90; else a number
/// from a rate of 0.85 or 0.92, when under half looks like currency.  The
/// rates are compared as exact fractions.
pub open spec fn classify_counts(money: bool, n: nat, nc: nat, nn: nat) -> ColumnClass {
    if n < 5 {
        ColumnClass::Plain
    } else {
        let cur_ok = if money {
            4 * nc >= 3 * n
        } else {
            10 * nc >= 9 * n
        };
        let num_ok = if money {
            20 * nn >= 17 * n
        } else {
            25 * nn >= 23 * n
        };
        if cur_ok {
            ColumnClass::Currency
        } else if num_ok && 2 * nc < n {
            ColumnClass::Numeric
        } else {
            ColumnClass::Plain
        }
    }
}

/// How a column is read from the rows of its sample query (`n`, `n_cur`,
/// `n_num` in its first row); no reading when the row is missing.
pub open spec fn classify(name: Seq<char>, rows: Seq<Seq<Seq<char>>>) -> ColumnClass {
    if rows.len() > 0 && rows[0].len() >= 3 {
        classify_counts(
            money_name(name),
            count_value(rows[0][0]),
            count_value(rows[0][1]),
            count_value(rows[0][2]),
        )
    } else {
        ColumnClass::Plain
    }
}

fn count_cell(c: &str) -> (n: u64)
    ensures
        n as nat == count_value(c@),
{
    match parse_u64_str(c) {
        Some(n) => n,
        None => 0,
    }
}

fn is_money_name(name: &str) -> (b: bool)
    ensures
        b == money_name(name@),
{
    let l = lower_ascii_str(name);
    let s = l.as_str();
    contains_str(s, "revenue") || contains_str(s, "price") || contains_str(s, "cost")
        || contains_str(s, "amount") || contains_str(s, "sales") || contains_str(s, "assets")
        || contains_str(s, "income") || contains_str(s, "profit") || contains_str(s, "fee")
        || contains_str(s, "value")
}

/// Reads a sampled column: currency, a number in text, or neither.
pub fn classify_column(name: &str, rows: &Vec<Vec<String>>) -> (r: ColumnClass)
    ensures
        r == classify(name@, grid_view(rows@)),
{
    if rows.len() == 0 || rows[0].len() < 3 {
        return ColumnClass::Plain;
    }
    let n = count_cell(rows[0][0].as_str()) as u128;
    let nc = count_cell(rows[0][1].as_str()) as u128;
    let nn = count_cell(rows[0][2].as_str()) as u128;
    if n < 5 {
        return ColumnClass::Plain;
    }
    let money = is_money_name(name);
    let cur_ok = if money {
        4 * nc >= 3 * n
    } else {
        10 * nc >= 9 * n
    };
    let num_ok = if money {
        20 * nn >= 17 * n
    } else {
        25 * nn >= 23 * n
    };
    if cur_ok {
        ColumnClass::Currency
    } else if num_ok && 2 * nc < n {
        ColumnClass::Numeric
    } else {
        ColumnClass::Plain
    }
}

// ---------------------------------------------------------------------------
// The derived columns of a set of sources
// ---------------------------------------------------------------------------

pub open spec fn symbol_col(name: Seq<char>, src: Seq<char>) -> DerivedModel {
    DerivedModel {
        name,
        kind: KindModel::CurrencySymbol(src),
        note: "currency symbol from `"@ + src + "`"@,
    }
}

pub open spec fn value_col(name: Seq<char>, src: Seq<char>) -> DerivedModel {
    DerivedModel {
        name,
        kind: KindModel::CurrencyValue(src),
        note: "numeric amount from `"@ + src + "` (K/M/B/T aware)"@,
    }
}

pub open spec fn numeric_col(src: Seq<char>) -> DerivedModel {
    DerivedModel {
        name: "pv_deriv_"@ + sanitize_text(src),
        kind: KindModel::NumericFromString(src),
        note: "numeric cast from varchar `"@ + src + "`"@,
    }
}

/// With several currency sources, a symbol and a value column per source,
/// named after it.
pub open spec fn many_currency_cols(cur: Seq<Seq<char>>) -> Seq<DerivedModel>
    decreases cur.len(),
{
    if cur.len() == 0 {
        Seq::empty()
    } else {
        let s = cur.last();
        many_currency_cols(cur.drop_last()) + seq![
            symbol_col("pv_deriv_"@ + sanitize_text(s) + "_currency"@, s),
            value_col("pv_deriv_"@ + sanitize_text(s) + "_currency_value"@, s),
        ]
    }
}

/// The currency columns: none, the two plain names for a single source, or
/// a named pair per source.
pub open spec fn currency_cols(cur: Seq<Seq<char>>) -> Seq<DerivedModel> {
    if cur.len() == 0 {
        Seq::empty()
    } else if cur.len() == 1 {
        seq![
            symbol_col("pv_deriv_currency"@, cur[0]),
            value_col("pv_deriv_currency_value"@, cur[0]),
        ]
    } else {
        many_currency_cols(cur)
    }
}

/// One numeric column per numeric source that is not also a currency source.
pub open spec fn numeric_cols(num: Seq<Seq<char>>, cur: Seq<Seq<char>>) -> Seq<DerivedModel>
    decreases num.len(),
{
    if num.len() == 0 {
        Seq::empty()
    } else {
        numeric_cols(num.drop_last(), cur) + if cur.contains(num.last()) {
            Seq::empty()
        } else {
            seq![numeric_col(num.last())]
        }
    }
}

/// The derived columns for the given currency and numeric sources.
pub open spec fn derived_of(cur: Seq<Seq<char>>, num: Seq<Seq<char>>) -> Seq<DerivedModel> {
    currency_cols(cur) + numeric_cols(num, cur)
}

fn note_with(prefix: &str, src: &str, suffix: &str) -> (r: String)
    ensures
        r@ == prefix@ + src@ + suffix@,
{
    let mut s = to_owned_string(prefix);
    s.append(src);
    s.append(suffix);
    s
}

fn make_symbol_col(name: String, src: &String) -> (r: DerivedCol)
    ensures
        r.model() == symbol_col(name@, src@),
{
    DerivedCol {
        name,
        kind: DerivedKind::CurrencySymbol { source: src.clone() },
        note: note_with("currency symbol from `", src.as_str(), "`"),
    }
}

fn make_value_col(name: String, src: &String) -> (r: DerivedCol)
    ensures
        r.model() == value_col(name@, src@),
{
    DerivedCol {
        name,
        kind: DerivedKind::CurrencyValue { source: src.clone() },
        note: note_with("numeric amount from `", src.as_str(), "` (K/M/B/T aware)"),
    }
}

fn make_numeric_col(src: &String) -> (r: DerivedCol)
    ensures
        r.model() == numeric_col(src@),
{
    let safe = sanitize_ident(src.as_str());
    let mut name = to_owned_string("pv_deriv_");
    name.append(safe.as_str());
    DerivedCol {
        name,
        kind: DerivedKind::NumericFromString { source: src.clone() },
        note: note_with("numeric cast from varchar `", src.as_str(), "`"),
    }
}

fn contains_string(v: &Vec<String>, s: &String) -> (b: bool)
    ensures
        b == strings_view(v@).contains(s@),
{
    let mut i: usize = 0;
    while i < v.len()
        invariant
            i <= v@.len(),
            forall|k: int| 0 <= k < i ==> v@[k]@ != s@,
        decreases v.len() - i,
    {
        if str_eq(v[i].as_str(), s.as_str()) {
            assert(strings_view(v@)[i as int] == s@);
            return true;
        }
        i += 1;
    }
    assert forall|k: int| 0 <= k < strings_view(v@).len() implies strings_view(v@)[k] != s@ by {
        assert(strings_view(v@)[k] == v@[k]@);
    }
    false
}

/// The derived columns for the detected currency and numeric sources.
pub fn build_derived(currency: &Vec<String>, numeric: &Vec<String>) -> (r: Vec<DerivedCol>)
    ensures
        models(r@) == derived_of(strings_view(currency@), strings_view(numeric@)),
{
    let ghost cur = strings_view(currency@);
    let ghost num = strings_view(numeric@);
    let mut out: Vec<DerivedCol> = Vec::new();
    if currency.len() == 1 {
        let only = &currency[0];
        out.push(make_symbol_col(to_owned_string("pv_deriv_currency"), only));
        out.push(make_value_col(to_owned_string("pv_deriv_currency_value"), only));
        assert(models(out@) =~= currency_cols(cur));
    } else if currency.len() > 1 {
        let mut i: usize = 0;
        while i < currency.len()
            invariant
                i <= currency@.len(),
                cur == strings_view(currency@),
                models(out@) == many_currency_cols(cur.take(i as int)),
            decreases currency.len() - i,
        {
            let src = &currency[i];
            let safe = sanitize_ident(src.as_str());
            let mut n1 = to_owned_string("pv_deriv_");
            n1.append(safe.as_str());
            n1.append("_currency");
            let mut n2 = to_owned_string("pv_deriv_");
            n2.append(safe.as_str());
            n2.append("_currency_value");
            out.push(make_symbol_col(n1, src));
            out.push(make_value_col(n2, src));
            proof {
                assert(cur.take(i + 1).drop_last() =~= cur.take(i as int));
                assert(cur.take(i + 1).last() == src@);
                assert(models(out@) =~= many_currency_cols(cur.take(i + 1)));
            }
            i += 1;
        }
        assert(cur.take(currency@.len() as int) =~= cur);
        assert(models(out@) =~= currency_cols(cur));
    } else {
        assert(models(out@) =~= currency_cols(cur));
    }
    let ghost head = models(out@);
    let mut j: usize = 0;
    while j < numeric.len()
        invariant
            j <= numeric@.len(),
            cur == strings_view(currency@),
            num == strings_view(numeric@),
            head == currency_cols(cur),
            models(out@) == head + numeric_cols(num.take(j as int), cur),
        decreases numeric.len() - j,
    {
        let src = &numeric[j];
        proof {
            assert(num.take(j + 1).drop_last() =~= num.take(j as int));
            assert(num.take(j + 1).last() == src@);
        }
        let ghost prev = models(out@);
        let ghost t = num.take(j + 1);
        assert(numeric_cols(t, cur) == numeric_cols(t.drop_last(), cur) + if cur.contains(t.last()) {
            Seq::<DerivedModel>::empty()
        } else {
            seq![numeric_col(t.last())]
        });
        if !contains_string(currency, src) {
            let c = make_numeric_col(src);
            out.push(c);
            assert(models(out@) =~= prev.push(numeric_col(src@)));
            assert(models(out@) =~= head + numeric_cols(num.take(j + 1), cur));
        } else {
            assert(models(out@) =~= head + numeric_cols(num.take(j + 1), cur));
        }
        j += 1;
    }
    assert(num.take(numeric@.len() as int) =~= num);
    out
}

// ---------------------------------------------------------------------------
// Relations with derived columns
// ---------------------------------------------------------------------------

pub open spec fn select_item(d: DerivedModel) -> Seq<char> {
    expr_text(d.kind) + " AS "@ + quote_ident_spec(d.name)
}

/// The relation with the derived columns added after all of its own:
/// `(SELECT *, <expr> AS "<name>", ... FROM <base>) t`; the base itself
/// when there are none.
pub open spec fn enhanced_text(base: Seq<char>, ds: Seq<DerivedModel>) -> Seq<char> {
    if ds.len() == 0 {
        base
    } else {
        "(SELECT "@ + join(seq!["*"@] + ds.map_values(|d: DerivedModel| select_item(d)), ", "@)
            + " FROM "@ + base + ") t"@
    }
}

/// [`enhanced_text`] over a relation expression.
pub fn enhance_relation(base: &str, derived: &Vec<DerivedCol>) -> (r: String)
    ensures
        r@ == enhanced_text(base@, models(derived@)),
{
    if derived.len() == 0 {
        return to_owned_string(base);
    }
    let ghost ds = models(derived@);
    let mut selects: Vec<String> = Vec::new();
    selects.push(to_owned_string("*"));
    let mut i: usize = 0;
    while i < derived.len()
        invariant
            i <= derived@.len(),
            ds == models(derived@),
            selects@.len() == i + 1,
            selects@[0]@ == "*"@,
            forall|k: int| 0 <= k < i ==> (#[trigger] selects@[k + 1])@ == select_item(ds[k]),
        decreases derived.len() - i,
    {
        let d = &derived[i];
        let mut item = d.sql_expr();
        item.append(" AS ");
        let q = quote_ident(d.name.as_str());
        item.append(q.as_str());
        selects.push(item);
        proof {
            assert(selects@[i + 1]@ == select_item(ds[i as int]));
        }
        i += 1;
    }
    let joined = join_strings(&selects, ", ");
    proof {
        let items = seq!["*"@] + ds.map_values(|d: DerivedModel| select_item(d));
        assert forall|k: int| 0 <= k < items.len() implies strings_view(selects@)[k] == items[k] by {
            if k > 0 {
                assert(selects@[(k - 1) + 1] == selects@[k]);
            }
        }
        assert(strings_view(selects@) =~= items);
    }
    let mut s = to_owned_string("(SELECT ");
    s.append(joined.as_str());
    s.append(" FROM ");
    s.append(base);
    s.append(") t");
    s
}

/// Wraps a data path's relation with its derived columns.
pub fn enhanced_relation(source: &DataSource, derived: &Vec<DerivedCol>) -> (r: String)
    ensures
        r@ == enhanced_text(source.relation(), models(derived@)),
{
    let base = relation_sql(source);
    enhance_relation(base.as_str(), derived)
}

/// The preview query of a data path with its derived columns.
pub fn select_star_with_derived(source: &DataSource, derived: &Vec<DerivedCol>, limit: u64) -> (r:
    String)
    ensures
        r@ == select_limit_text(enhanced_text(source.relation(), models(derived@)), limit as nat),
{
    let rel = enhanced_relation(source, derived);
    select_limit(rel.as_str(), limit)
}

// ---------------------------------------------------------------------------
// Detection, one query at a time
// ---------------------------------------------------------------------------

/// The next thing a multi-query task needs: a query to run, or its result.
pub enum ScanStep<T> {
    Query(String),
    Done(T),
}

/// The sample query of a column of a relation.
pub open spec fn sample_query_text(base: Seq<char>, col: Seq<char>) -> Seq<char> {
    classification_sql_text(
        quote_ident_spec(col),
        base,
        currency_match_sql_text("v"@),
        plain_numeric_match_sql_text("v"@),
    )
}

/// Builds the sample query of a column.
pub fn sample_query(base: &str, col: &str) -> (r: String)
    ensures
        r@ == sample_query_text(base@, col@),
{
    let qn = quote_ident(col);
    let cur = currency_match_sql("v");
    let num = plain_numeric_match_sql("v");
    classification_sql(qn.as_str(), base, cur.as_str(), num.as_str())
}

/// The detection of derived columns for one data path: first the listing of
/// its columns, then one sample query per varchar column, in order.
pub struct DeriveScan {
    base: String,
    cols: Vec<String>,
    next: usize,
    currency: Vec<String>,
    numeric: Vec<String>,
    listed: bool,
}

impl DeriveScan {
    pub closed spec fn base_view(self) -> Seq<char> {
        self.base@
    }

    /// The varchar columns, once listed.
    pub closed spec fn columns(self) -> Seq<Seq<char>> {
        strings_view(self.cols@)
    }

    /// How many of them have been sampled.
    pub closed spec fn sampled(self) -> nat {
        self.next as nat
    }

    pub closed spec fn currency_sources(self) -> Seq<Seq<char>> {
        strings_view(self.currency@)
    }

    pub closed spec fn numeric_sources(self) -> Seq<Seq<char>> {
        strings_view(self.numeric@)
    }

    /// Whether the listing of the columns has come in.
    pub closed spec fn is_listed(self) -> bool {
        self.listed
    }

    /// The task still waits for the answer to a query.
    pub open spec fn waiting(self) -> bool {
        !self.is_listed() || self.sampled() < self.columns().len()
    }

    /// Whether the scan waits for the answer to a query (whether `step` may
    /// be called).
    pub fn is_waiting(&self) -> (b: bool)
        ensures
            b == self.waiting(),
    {
        !self.listed || self.next < self.cols.len()
    }

    /// Starts detection on a data path; the first query lists its columns.
    pub fn start(source: &DataSource) -> (r: (DeriveScan, String))
        ensures
            r.0.base_view() == source.relation(),
            !r.0.is_listed(),
            r.0.columns().len() == 0,
            r.0.sampled() == 0,
            r.0.currency_sources().len() == 0,
            r.0.numeric_sources().len() == 0,
            r.1@ == columns_sql_text(source.relation()),
    {
        let base = relation_sql(source);
        let q = columns_sql(base.as_str());
        (
            DeriveScan {
                base,
                cols: Vec::new(),
                next: 0,
                currency: Vec::new(),
                numeric: Vec::new(),
                listed: false,
            },
            q,
        )
    }

    /// Takes the rows that answer the last query.  The column listing keeps
    /// the varchar columns; a sample reading adds its column to the currency
    /// or the numeric sources.  Then the next column is sampled, or the
    /// derived columns of all sources are the result.
    pub fn step(&mut self, rows: &Vec<Vec<String>>) -> (r: ScanStep<Vec<DerivedCol>>)
        requires
            old(self).waiting(),
        ensures
            final(self).base_view() == old(self).base_view(),
            final(self).is_listed(),
            !old(self).is_listed() ==> {
                &&& final(self).columns() == varchar_columns_of(grid_view(rows@))
                &&& final(self).sampled() == 0
                &&& final(self).currency_sources() == old(self).currency_sources()
                &&& final(self).numeric_sources() == old(self).numeric_sources()
            },
            old(self).is_listed() ==> {
                let col = old(self).columns()[old(self).sampled() as int];
                let class = classify(col, grid_view(rows@));
                &&& final(self).columns() == old(self).columns()
                &&& final(self).sampled() == old(self).sampled() + 1
                &&& final(self).currency_sources() == if class == ColumnClass::Currency {
                    old(self).currency_sources().push(col)
                } else {
                    old(self).currency_sources()
                }
                &&& final(self).numeric_sources() == if class == ColumnClass::Numeric {
                    old(self).numeric_sources().push(col)
                } else {
                    old(self).numeric_sources()
                }
            },
            match r {
                ScanStep::Query(q) => {
                    &&& final(self).waiting()
                    &&& q@ == sample_query_text(
                        final(self).base_view(),
                        final(self).columns()[final(self).sampled() as int],
                    )
                },
                ScanStep::Done(ds) => {
                    &&& !final(self).waiting()
                    &&& models(ds@) == derived_of(
                        final(self).currency_sources(),
                        final(self).numeric_sources(),
                    )
                },
            },
    {
        if !self.listed {
            self.cols = varchar_columns_from(rows);
            self.listed = true;
            self.next = 0;
        } else {
            let idx = self.next;
            let count = self.cols.len();
            let col = self.cols[idx].clone();
            let class = classify_column(col.as_str(), rows);
            match class {
                ColumnClass::Currency => {
                    self.currency.push(col);
                },
                ColumnClass::Numeric => {
                    self.numeric.push(col);
                },
                ColumnClass::Plain => {},
            }
            assert(idx < count);
            self.next = idx + 1;
            proof {
                assert(strings_view(self.currency@) =~= if class == ColumnClass::Currency {
                    strings_view(old(self).currency@).push(col@)
                } else {
                    strings_view(old(self).currency@)
                });
                assert(strings_view(self.numeric@) =~= if class == ColumnClass::Numeric {
                    strings_view(old(self).numeric@).push(col@)
                } else {
                    strings_view(old(self).numeric@)
                });
            }
        }
        if self.next < self.cols.len() {
            let q = sample_query(self.base.as_str(), self.cols[self.next].as_str());
            ScanStep::Query(q)
        } else {
            ScanStep::Done(build_derived(&self.currency, &self.numeric))
        }
    }
}

/// Every derived column is named `pv_deriv_...`.
pub proof fn lemma_derived_names_prefixed(cur: Seq<Seq<char>>, num: Seq<Seq<char>>)
    ensures
        forall|i: int|
            0 <= i < derived_of(cur, num).len() ==> starts_with(
                #[trigger] derived_of(cur, num)[i].name,
                "pv_deriv_"@,
            ),
{
    reveal_strlit("pv_deriv_");
    reveal_strlit("pv_deriv_currency");
    reveal_strlit("pv_deriv_currency_value");
    lemma_many_prefixed(cur);
    lemma_numeric_prefixed(num, cur);
    let c = currency_cols(cur);
    let n = numeric_cols(num, cur);
    assert forall|i: int| 0 <= i < c.len() implies starts_with(#[trigger] c[i].name, "pv_deriv_"@) by {
        if cur.len() == 1 {
            assert(c[i].name.subrange(0, 9) =~= "pv_deriv_"@);
        }
    }
    assert forall|i: int| 0 <= i < derived_of(cur, num).len() implies starts_with(
        #[trigger] derived_of(cur, num)[i].name,
        "pv_deriv_"@,
    ) by {
        if i < c.len() {
            assert(derived_of(cur, num)[i] == c[i]);
        } else {
            assert(derived_of(cur, num)[i] == n[i - c.len()]);
        }
    }
}

proof fn lemma_prefixed_concat(rest: Seq<char>)
    ensures
        starts_with("pv_deriv_"@ + rest, "pv_deriv_"@),
{
    assert(("pv_deriv_"@ + rest).subrange(0, "pv_deriv_"@.len() as int) =~= "pv_deriv_"@);
}

proof fn lemma_many_prefixed(cur: Seq<Seq<char>>)
    ensures
        forall|i: int|
            0 <= i < many_currency_cols(cur).len() ==> starts_with(
                #[trigger] many_currency_cols(cur)[i].name,
                "pv_deriv_"@,
            ),
    decreases cur.len(),
{
    if cur.len() > 0 {
        lemma_many_prefixed(cur.drop_last());
        let s = cur.last();
        lemma_prefixed_concat(sanitize_text(s) + "_currency"@);
        lemma_prefixed_concat(sanitize_text(s) + "_currency_value"@);
        assert("pv_deriv_"@ + sanitize_text(s) + "_currency"@ =~= "pv_deriv_"@ + (sanitize_text(s)
            + "_currency"@));
        assert("pv_deriv_"@ + sanitize_text(s) + "_currency_value"@ =~= "pv_deriv_"@ + (
        sanitize_text(s) + "_currency_value"@));
        let prev = many_currency_cols(cur.drop_last());
        assert forall|i: int| 0 <= i < many_currency_cols(cur).len() implies starts_with(
            #[trigger] many_currency_cols(cur)[i].name,
            "pv_deriv_"@,
        ) by {
            if i < prev.len() {
                assert(many_currency_cols(cur)[i] == prev[i]);
            }
        }
    }
}

proof fn lemma_numeric_prefixed(num: Seq<Seq<char>>, cur: Seq<Seq<char>>)
    ensures
        forall|i: int|
            0 <= i < numeric_cols(num, cur).len() ==> starts_with(
                #[trigger] numeric_cols(num, cur)[i].name,
                "pv_deriv_"@,
            ),
    decreases num.len(),
{
    if num.len() > 0 {
        lemma_numeric_prefixed(num.drop_last(), cur);
        lemma_prefixed_concat(sanitize_text(num.last()));
        let prev = numeric_cols(num.drop_last(), cur);
        assert forall|i: int| 0 <= i < numeric_cols(num, cur).len() implies starts_with(
            #[trigger] numeric_cols(num, cur)[i].name,
            "pv_deriv_"@,
        ) by {
            if i < prev.len() {
                assert(numeric_cols(num, cur)[i] == prev[i]);
            }
        }
    }
}

/// Every currency source gets two derived columns (its symbol and its
/// value), and every numeric source that is not also a currency source one.
pub proof fn lemma_derived_count(cur: Seq<Seq<char>>, num: Seq<Seq<char>>)
    ensures
        currency_cols(cur).len() == 2 * cur.len(),
        numeric_cols(num, cur).len() <= num.len(),
        derived_of(cur, num).len() == 2 * cur.len() + numeric_cols(num, cur).len(),
{
    lemma_many_count(cur);
    lemma_numeric_count(num, cur);
}

proof fn lemma_many_count(cur: Seq<Seq<char>>)
    ensures
        many_currency_cols(cur).len() == 2 * cur.len(),
    decreases cur.len(),
{
    if cur.len() > 0 {
        lemma_many_count(cur.drop_last());
    }
}

proof fn lemma_numeric_count(num: Seq<Seq<char>>, cur: Seq<Seq<char>>)
    ensures
        numeric_cols(num, cur).len() <= num.len(),
    decreases num.len(),
{
    if num.len() > 0 {
        lemma_numeric_count(num.drop_last(), cur);
    }
}

/// Without derived columns the relation is left as it is.
pub proof fn lemma_enhanced_without_derived(base: Seq<char>)
    ensures
        enhanced_text(base, Seq::empty()) == base,
{
}

// ---------------------------------------------------------------------------
// Laws of the classification
// ---------------------------------------------------------------------------

/// How a sample reads, whatever the column's name: fewer than 5 filled
/// values give no reading; from 5 values, a sample that looks like currency
/// throughout (or in at least 90% of its values) is currency, and one made
/// only of plain numbers with no currency value is numeric.  A money-like
/// name lowers the currency bar to 75%.
pub proof fn lemma_classify_counts_readings(money: bool, n: nat, nc: nat, nn: nat)
    ensures
        n < 5 ==> classify_counts(money, n, nc, nn) == ColumnClass::Plain,
        n >= 5 && nc == n ==> classify_counts(money, n, nc, nn) == ColumnClass::Currency,
        n >= 5 && 10 * nc >= 9 * n ==> classify_counts(money, n, nc, nn) == ColumnClass::Currency,
        n >= 5 && money && 4 * nc >= 3 * n ==> classify_counts(money, n, nc, nn)
            == ColumnClass::Currency,
        n >= 5 && nc == 0 && nn == n ==> classify_counts(money, n, nc, nn) == ColumnClass::Numeric,
        2 * nc >= n && 4 * nc < 3 * n ==> classify_counts(money, n, nc, nn) == ColumnClass::Plain,
        n >= 5 && !money && 10 * nc < 9 * n && 2 * nc < n && 25 * nn >= 23 * n
            ==> classify_counts(money, n, nc, nn) == ColumnClass::Numeric,
        n >= 5 && money && 2 * nc < n && 20 * nn >= 17 * n ==> classify_counts(money, n, nc, nn)
            == ColumnClass::Numeric,
        !money && 10 * nc < 9 * n && 25 * nn < 23 * n ==> classify_counts(money, n, nc, nn)
            == ColumnClass::Plain,
        money && 4 * nc < 3 * n && 20 * nn < 17 * n ==> classify_counts(money, n, nc, nn)
            == ColumnClass::Plain,
{
}

/// The reading of a sample query's first row (`n`, `n_cur`, `n_num` written
/// as numbers), for any column name: as [`lemma_classify_counts_readings`]
/// says of the three counts.
pub proof fn lemma_classify_rows(name: Seq<char>, rows: Seq<Seq<Seq<char>>>, n: u64, nc: u64, nn: u64)
    requires
        rows.len() > 0,
        rows[0].len() >= 3,
        parse_u64(rows[0][0]) == Some(n),
        parse_u64(rows[0][1]) == Some(nc),
        parse_u64(rows[0][2]) == Some(nn),
    ensures
        n < 5 ==> classify(name, rows) == ColumnClass::Plain,
        n >= 5 && nc == n ==> classify(name, rows) == ColumnClass::Currency,
        n >= 5 && 10 * nc >= 9 * n ==> classify(name, rows) == ColumnClass::Currency,
        n >= 5 && nc == 0 && nn == n ==> classify(name, rows) == ColumnClass::Numeric,
{
    lemma_classify_counts_readings(money_name(name), n as nat, nc as nat, nn as nat);
}

/// A sample query's answer with no first row, or a first row of fewer than
/// three cells, gives no reading.
pub proof fn lemma_classify_without_counts(name: Seq<char>, rows: Seq<Seq<Seq<char>>>)
    requires
        rows.len() == 0 || rows[0].len() < 3,
    ensures
        classify(name, rows) == ColumnClass::Plain,
{
}

} // verus!
