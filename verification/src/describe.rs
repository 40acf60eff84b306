//! Table describe: a profile row per column (coverage, uniqueness and, for
//! numbers, quantiles), the detection of the table's grain (the columns that
//! identify a row), and the derived columns alongside.
use vstd::prelude::*;
use crate::derive::{models, DerivedCol, DerivedModel};
use crate::duck::{cell_under, grid_view, position_of, strings_view, QueryResult};
use crate::text::{
    chars_of, contains, contains_str, decimal, decimal_string, ends_with, ends_with_str, join,
    join_strings, lower_ascii, lower_ascii_str, parse_u64, parse_u64_str, quote_ident,
    quote_ident_spec, sql_string, sql_string_spec, starts_with, starts_with_str, str_eq,
    to_owned_string,
};

verus! {

pub open spec fn numeric_profile_extra_text(qn: Seq<char>) -> Seq<char> {
    "round(avg(try_cast("@ + qn + " AS DOUBLE)), 6) AS avg, min(try_cast("@ + qn + " AS DOUBLE)) AS min, round(quantile_cont(try_cast("@ + qn + " AS DOUBLE), 0.25), 6) AS q25, round(quantile_cont(try_cast("@ + qn + " AS DOUBLE), 0.50), 6) AS q50, round(quantile_cont(try_cast("@ + qn + " AS DOUBLE), 0.75), 6) AS q75, max(try_cast("@ + qn + " AS DOUBLE)) AS max"@
}

/// The numeric statistics of a quoted column: mean, extremes, quartiles.
pub fn numeric_profile_extra(qn: &str) -> (r: String)
    ensures
        r@ == numeric_profile_extra_text(qn@),
{
    let mut s = to_owned_string("round(avg(try_cast(");
    s.append(qn);
    s.append(" AS DOUBLE)), 6) AS avg, min(try_cast(");
    s.append(qn);
    s.append(" AS DOUBLE)) AS min, round(quantile_cont(try_cast(");
    s.append(qn);
    s.append(" AS DOUBLE), 0.25), 6) AS q25, round(quantile_cont(try_cast(");
    s.append(qn);
    s.append(" AS DOUBLE), 0.50), 6) AS q50, round(quantile_cont(try_cast(");
    s.append(qn);
    s.append(" AS DOUBLE), 0.75), 6) AS q75, max(try_cast(");
    s.append(qn);
    s.append(" AS DOUBLE)) AS max");
    s
}

pub open spec fn profile_select_text(metric: Seq<char>, name_lit: Seq<char>, dtype_lit: Seq<char>, qn: Seq<char>, filled: Seq<char>, extra: Seq<char>, source: Seq<char>) -> Seq<char> {
    "SELECT '"@ + metric + "' AS metric_type, "@ + name_lit + " AS column_name, "@ + dtype_lit + " AS data_type, count(*)::BIGINT AS row_count, count(DISTINCT "@ + qn + ")::BIGINT AS unique_count, round(count(*) FILTER (WHERE "@ + filled + ")::DOUBLE / nullif(count(*), 0), 4) AS coverage_rate, "@ + extra + " FROM "@ + source
}

/// One row of the column profile.
pub fn profile_select(metric: &str, name_lit: &str, dtype_lit: &str, qn: &str, filled: &str, extra: &str, source: &str) -> (r: String)
    ensures
        r@ == profile_select_text(metric@, name_lit@, dtype_lit@, qn@, filled@, extra@, source@),
{
    let mut s = to_owned_string("SELECT '");
    s.append(metric);
    s.append("' AS metric_type, ");
    s.append(name_lit);
    s.append(" AS column_name, ");
    s.append(dtype_lit);
    s.append(" AS data_type, count(*)::BIGINT AS row_count, count(DISTINCT ");
    s.append(qn);
    s.append(")::BIGINT AS unique_count, round(count(*) FILTER (WHERE ");
    s.append(filled);
    s.append(")::DOUBLE / nullif(count(*), 0), 4) AS coverage_rate, ");
    s.append(extra);
    s.append(" FROM ");
    s.append(source);
    s
}

pub open spec fn list_filled_text(qn: Seq<char>) -> Seq<char> {
    qn + " IS NOT NULL AND len("@ + qn + ") > 0"@
}

/// A list value counts as filled when it has an element.
pub fn list_filled(qn: &str) -> (r: String)
    ensures
        r@ == list_filled_text(qn@),
{
    let mut s = to_owned_string(qn);
    s.append(" IS NOT NULL AND len(");
    s.append(qn);
    s.append(") > 0");
    s
}

pub open spec fn text_filled_text(qn: Seq<char>) -> Seq<char> {
    qn + " IS NOT NULL AND trim(cast("@ + qn + " AS VARCHAR)) <> ''"@
}

/// A text value counts as filled when it is not blank.
pub fn text_filled(qn: &str) -> (r: String)
    ensures
        r@ == text_filled_text(qn@),
{
    let mut s = to_owned_string(qn);
    s.append(" IS NOT NULL AND trim(cast(");
    s.append(qn);
    s.append(" AS VARCHAR)) <> ''");
    s
}

pub open spec fn value_filled_text(qn: Seq<char>) -> Seq<char> {
    qn + " IS NOT NULL"@
}

/// Any other value counts as filled when it is not NULL.
pub fn value_filled(qn: &str) -> (r: String)
    ensures
        r@ == value_filled_text(qn@),
{
    let mut s = to_owned_string(qn);
    s.append(" IS NOT NULL");
    s
}

pub open spec fn validate_grain_sql_text(n: Seq<char>, source: Seq<char>, ge: Seq<char>) -> Seq<char> {
    "SELECT "@ + n + "::BIGINT AS row_count, (SELECT count(*) FROM (SELECT 1 FROM "@ + source + " GROUP BY "@ + ge + "))::BIGINT AS grain_groups, (SELECT max(c) FROM (SELECT count(*)::BIGINT AS c FROM "@ + source + " GROUP BY "@ + ge + "))::BIGINT AS max_per_group"@
}

/// The query that counts the groups of a grain and the largest group.
pub fn validate_grain_sql(n: &str, source: &str, ge: &str) -> (r: String)
    ensures
        r@ == validate_grain_sql_text(n@, source@, ge@),
{
    let mut s = to_owned_string("SELECT ");
    s.append(n);
    s.append("::BIGINT AS row_count, (SELECT count(*) FROM (SELECT 1 FROM ");
    s.append(source);
    s.append(" GROUP BY ");
    s.append(ge);
    s.append("))::BIGINT AS grain_groups, (SELECT max(c) FROM (SELECT count(*)::BIGINT AS c FROM ");
    s.append(source);
    s.append(" GROUP BY ");
    s.append(ge);
    s.append("))::BIGINT AS max_per_group");
    s
}

pub open spec fn grain_groupby_sql_text(n: Seq<char>, source: Seq<char>, ge: Seq<char>) -> Seq<char> {
    "SELECT "@ + n + "::BIGINT AS row_count, (SELECT count(*) FROM (SELECT 1 FROM "@ + source + " GROUP BY "@ + ge + "))::BIGINT AS unique_count, (SELECT max(c) FROM (SELECT count(*)::BIGINT AS c FROM "@ + source + " GROUP BY "@ + ge + "))::BIGINT AS max_rows_per_grain"@
}

/// The query behind the grain summary row.
pub fn grain_groupby_sql(n: &str, source: &str, ge: &str) -> (r: String)
    ensures
        r@ == grain_groupby_sql_text(n@, source@, ge@),
{
    let mut s = to_owned_string("SELECT ");
    s.append(n);
    s.append("::BIGINT AS row_count, (SELECT count(*) FROM (SELECT 1 FROM ");
    s.append(source);
    s.append(" GROUP BY ");
    s.append(ge);
    s.append("))::BIGINT AS unique_count, (SELECT max(c) FROM (SELECT count(*)::BIGINT AS c FROM ");
    s.append(source);
    s.append(" GROUP BY ");
    s.append(ge);
    s.append("))::BIGINT AS max_rows_per_grain");
    s
}

pub open spec fn unique_count_select_text(name_lit: Seq<char>, qn: Seq<char>, source: Seq<char>) -> Seq<char> {
    "SELECT "@ + name_lit + " AS col, count(DISTINCT "@ + qn + ")::BIGINT AS u FROM "@ + source
}

/// The distinct count of one column, labelled with its name.
pub fn unique_count_select(name_lit: &str, qn: &str, source: &str) -> (r: String)
    ensures
        r@ == unique_count_select_text(name_lit@, qn@, source@),
{
    let mut s = to_owned_string("SELECT ");
    s.append(name_lit);
    s.append(" AS col, count(DISTINCT ");
    s.append(qn);
    s.append(")::BIGINT AS u FROM ");
    s.append(source);
    s
}

pub open spec fn approx_grain_status_text(groups: Seq<char>, max_per: Seq<char>) -> Seq<char> {
    "approx grain · "@ + groups + " groups · max "@ + max_per + " rows/group"@
}

/// The note for a grain that does not identify rows uniquely.
pub fn approx_grain_status(groups: &str, max_per: &str) -> (r: String)
    ensures
        r@ == approx_grain_status_text(groups@, max_per@),
{
    let mut s = to_owned_string("approx grain · ");
    s.append(groups);
    s.append(" groups · max ");
    s.append(max_per);
    s.append(" rows/group");
    s
}

pub open spec fn describe_summary_text(n: Seq<char>, cols: Seq<char>, n_derived: Seq<char>, grain_label: Seq<char>, grain_status: Seq<char>) -> Seq<char> {
    "describe · "@ + n + " rows · "@ + cols + " cols (+"@ + n_derived + " derived) · grain: "@ + grain_label + " · "@ + grain_status
}

/// The status line of a describe run.
pub fn describe_summary(n: &str, cols: &str, n_derived: &str, grain_label: &str, grain_status: &str) -> (r: String)
    ensures
        r@ == describe_summary_text(n@, cols@, n_derived@, grain_label@, grain_status@),
{
    let mut s = to_owned_string("describe · ");
    s.append(n);
    s.append(" rows · ");
    s.append(cols);
    s.append(" cols (+");
    s.append(n_derived);
    s.append(" derived) · grain: ");
    s.append(grain_label);
    s.append(" · ");
    s.append(grain_status);
    s
}

pub open spec fn empty_describe_summary_text(physical_cols: Seq<char>) -> Seq<char> {
    "describe · 0 rows · "@ + physical_cols + " cols · (empty table)"@
}

/// The status line of a describe run over an empty table.
pub fn empty_describe_summary(physical_cols: &str) -> (r: String)
    ensures
        r@ == empty_describe_summary_text(physical_cols@),
{
    let mut s = to_owned_string("describe · 0 rows · ");
    s.append(physical_cols);
    s.append(" cols · (empty table)");
    s
}


// ---------------------------------------------------------------------------
// Columns
// ---------------------------------------------------------------------------

/// A column of the described relation: name, type, and whether it is one of
/// the derived `pv_deriv_*` columns (not on disk).
#[derive(Debug, Clone)]
pub struct ColMeta {
    pub name: String,
    pub dtype: String,
    pub derived: bool,
}

pub struct ColModel {
    pub name: Seq<char>,
    pub dtype: Seq<char>,
    pub derived: bool,
}

impl ColMeta {
    pub open spec fn model(self) -> ColModel {
        ColModel { name: self.name@, dtype: self.dtype@, derived: self.derived }
    }
}

pub open spec fn col_models(cs: Seq<ColMeta>) -> Seq<ColModel> {
    cs.map_values(|c: ColMeta| c.model())
}

/// The columns a listing `(column_name, column_type)` names, each tagged as
/// derived when its name starts with `pv_deriv_`.
pub open spec fn metas_of(rows: Seq<Seq<Seq<char>>>) -> Seq<ColModel>
    decreases rows.len(),
{
    if rows.len() == 0 {
        Seq::empty()
    } else {
        let r = rows.last();
        metas_of(rows.drop_last()) + if r.len() >= 2 {
            seq![ColModel { name: r[0], dtype: r[1], derived: starts_with(r[0], "pv_deriv_"@) }]
        } else {
            Seq::empty()
        }
    }
}

/// The columns of a listing's rows.
pub fn column_metas_from(rows: &Vec<Vec<String>>) -> (r: Vec<ColMeta>)
    ensures
        col_models(r@) == metas_of(grid_view(rows@)),
{
    let ghost g = grid_view(rows@);
    let mut out: Vec<ColMeta> = Vec::new();
    let mut i: usize = 0;
    while i < rows.len()
        invariant
            i <= rows@.len(),
            g == grid_view(rows@),
            col_models(out@) == metas_of(g.take(i as int)),
        decreases rows.len() - i,
    {
        let row = &rows[i];
        proof {
            assert(g.take(i + 1).drop_last() =~= g.take(i as int));
            assert(g.take(i + 1).last() == g[i as int]);
        }
        if row.len() >= 2 {
            let derived = starts_with_str(row[0].as_str(), "pv_deriv_");
            out.push(ColMeta { name: row[0].clone(), dtype: row[1].clone(), derived });
        }
        assert(col_models(out@) =~= metas_of(g.take(i + 1)));
        i += 1;
    }
    assert(g.take(rows@.len() as int) =~= g);
    out
}

/// The columns that are not derived, in order.
pub open spec fn physical_of(cs: Seq<ColModel>) -> Seq<ColModel>
    decreases cs.len(),
{
    if cs.len() == 0 {
        Seq::empty()
    } else {
        physical_of(cs.drop_last()) + if cs.last().derived {
            Seq::empty()
        } else {
            seq![cs.last()]
        }
    }
}

/// The columns that are stored in the file (not derived).
pub fn physical_columns(cols: &Vec<ColMeta>) -> (r: Vec<ColMeta>)
    ensures
        col_models(r@) == physical_of(col_models(cols@)),
{
    let ghost m = col_models(cols@);
    let mut out: Vec<ColMeta> = Vec::new();
    let mut i: usize = 0;
    while i < cols.len()
        invariant
            i <= cols@.len(),
            m == col_models(cols@),
            col_models(out@) == physical_of(m.take(i as int)),
        decreases cols.len() - i,
    {
        proof {
            assert(m.take(i + 1).drop_last() =~= m.take(i as int));
            assert(m.take(i + 1).last() == m[i as int]);
        }
        if !cols[i].derived {
            out.push(ColMeta { name: cols[i].name.clone(), dtype: cols[i].dtype.clone(), derived: false });
        }
        assert(col_models(out@) =~= physical_of(m.take(i + 1)));
        i += 1;
    }
    assert(m.take(cols@.len() as int) =~= m);
    out
}

/// Numeric DuckDB types (any letter case).
pub open spec fn numeric_type(dtype: Seq<char>) -> bool {
    let d = lower_ascii(dtype);
    ||| contains(d, "int"@)
    ||| contains(d, "float"@)
    ||| contains(d, "double"@)
    ||| contains(d, "decimal"@)
    ||| contains(d, "numeric"@)
    ||| contains(d, "hugeint"@)
    ||| d == "real"@
}

/// Whether a DuckDB type is numeric.
pub fn is_numeric_type(dtype: &str) -> (b: bool)
    ensures
        b == numeric_type(dtype@),
{
    let d = lower_ascii_str(dtype);
    let s = d.as_str();
    contains_str(s, "int") || contains_str(s, "float") || contains_str(s, "double")
        || contains_str(s, "decimal") || contains_str(s, "numeric") || contains_str(s, "hugeint")
        || str_eq(s, "real")
}

/// When a value of a type counts as filled.
pub open spec fn filled_text(qn: Seq<char>, dtype: Seq<char>) -> Seq<char> {
    let d = lower_ascii(dtype);
    if contains(d, "list"@) || contains(d, "array"@) {
        list_filled_text(qn)
    } else if contains(d, "varchar"@) || contains(d, "string"@) || contains(d, "text"@) || contains(
        d,
        "json"@,
    ) || contains(d, "uuid"@) {
        text_filled_text(qn)
    } else {
        value_filled_text(qn)
    }
}

/// The SQL condition under which a value of a column counts as filled.
pub fn filled_predicate(qn: &str, dtype: &str) -> (r: String)
    ensures
        r@ == filled_text(qn@, dtype@),
{
    let d = lower_ascii_str(dtype);
    let s = d.as_str();
    if contains_str(s, "list") || contains_str(s, "array") {
        list_filled(qn)
    } else if contains_str(s, "varchar") || contains_str(s, "string") || contains_str(s, "text")
        || contains_str(s, "json") || contains_str(s, "uuid") {
        text_filled(qn)
    } else {
        value_filled(qn)
    }
}

pub open spec fn null_extra_text() -> Seq<char> {
    "NULL AS avg, NULL AS min, NULL AS q25, NULL AS q50, NULL AS q75, NULL AS max"@
}

/// A derived currency symbol column: categorical even though derived.
pub open spec fn currency_symbol_name(name: Seq<char>) -> bool {
    name == "pv_deriv_currency"@ || (ends_with(name, "_currency"@) && !ends_with(
        name,
        "_currency_value"@,
    ))
}

/// Columns profiled with numeric statistics.
pub open spec fn profiled_numeric(c: ColModel) -> bool {
    if currency_symbol_name(c.name) {
        false
    } else {
        numeric_type(c.dtype) || contains(c.name, "currency_value"@) || (c.derived && starts_with(
            c.name,
            "pv_deriv_"@,
        ))
    }
}

/// The profile row of one column.
pub open spec fn profile_select_of(source: Seq<char>, c: ColModel) -> Seq<char> {
    let qn = quote_ident_spec(c.name);
    profile_select_text(
        if c.derived {
            "derived_profile"@
        } else {
            "column_profile"@
        },
        sql_string_spec(c.name),
        sql_string_spec(
            if c.derived {
                c.dtype + " (derived)"@
            } else {
                c.dtype
            },
        ),
        qn,
        filled_text(qn, c.dtype),
        if profiled_numeric(c) {
            numeric_profile_extra_text(qn)
        } else {
            null_extra_text()
        },
        source,
    )
}

/// The profile query part for one column: row count, distinct count,
/// coverage and, for numeric columns, mean, extremes and quartiles.
pub fn column_profile_select(source: &str, c: &ColMeta) -> (r: String)
    ensures
        r@ == profile_select_of(source@, c.model()),
{
    let qn = quote_ident(c.name.as_str());
    let filled = filled_predicate(qn.as_str(), c.dtype.as_str());
    let name = c.name.as_str();
    let is_currency_symbol = str_eq(name, "pv_deriv_currency") || (ends_with_str(name, "_currency")
        && !ends_with_str(name, "_currency_value"));
    let is_num = if is_currency_symbol {
        false
    } else {
        is_numeric_type(c.dtype.as_str()) || contains_str(name, "currency_value") || (c.derived
            && starts_with_str(name, "pv_deriv_"))
    };
    let metric = if c.derived {
        "derived_profile"
    } else {
        "column_profile"
    };
    let extra = if is_num {
        numeric_profile_extra(qn.as_str())
    } else {
        to_owned_string("NULL AS avg, NULL AS min, NULL AS q25, NULL AS q50, NULL AS q75, NULL AS max")
    };
    let dtype_label = if c.derived {
        let mut l = to_owned_string(c.dtype.as_str());
        l.append(" (derived)");
        l
    } else {
        to_owned_string(c.dtype.as_str())
    };
    let name_lit = sql_string(name);
    let dtype_lit = sql_string(dtype_label.as_str());
    profile_select(
        metric,
        name_lit.as_str(),
        dtype_lit.as_str(),
        qn.as_str(),
        filled.as_str(),
        extra.as_str(),
        source,
    )
}

/// The whole profile query: the rows of all columns, one after another.
pub open spec fn profile_sql_text(source: Seq<char>, cs: Seq<ColModel>) -> Seq<char> {
    join(cs.map_values(|c: ColModel| profile_select_of(source, c)), "\nUNION ALL\n"@)
}

/// Builds the profile query over all columns.
pub fn profile_sql(source: &str, cols: &Vec<ColMeta>) -> (r: String)
    ensures
        r@ == profile_sql_text(source@, col_models(cols@)),
{
    let mut parts: Vec<String> = Vec::new();
    let mut i: usize = 0;
    while i < cols.len()
        invariant
            i <= cols@.len(),
            parts@.len() == i,
            forall|k: int|
                0 <= k < i ==> (#[trigger] parts@[k])@ == profile_select_of(source@, cols@[k].model()),
        decreases cols.len() - i,
    {
        parts.push(column_profile_select(source, &cols[i]));
        i += 1;
    }
    assert(strings_view(parts@) =~= col_models(cols@).map_values(
        |c: ColModel| profile_select_of(source@, c),
    ));
    join_strings(&parts, "\nUNION ALL\n")
}

/// The distinct counts of all stored columns, one row per column.
pub open spec fn unique_sql_text(source: Seq<char>, cs: Seq<ColModel>) -> Seq<char> {
    join(
        cs.map_values(
            |c: ColModel|
                unique_count_select_text(sql_string_spec(c.name), quote_ident_spec(c.name), source),
        ),
        " UNION ALL "@,
    )
}

/// Builds the distinct-count query over the given columns.
pub fn unique_sql(source: &str, cols: &Vec<ColMeta>) -> (r: String)
    ensures
        r@ == unique_sql_text(source@, col_models(cols@)),
{
    let mut parts: Vec<String> = Vec::new();
    let mut i: usize = 0;
    while i < cols.len()
        invariant
            i <= cols@.len(),
            parts@.len() == i,
            forall|k: int|
                0 <= k < i ==> (#[trigger] parts@[k])@ == unique_count_select_text(
                    sql_string_spec(cols@[k].name@),
                    quote_ident_spec(cols@[k].name@),
                    source@,
                ),
        decreases cols.len() - i,
    {
        let lit = sql_string(cols[i].name.as_str());
        let qn = quote_ident(cols[i].name.as_str());
        parts.push(unique_count_select(lit.as_str(), qn.as_str(), source));
        i += 1;
    }
    assert(strings_view(parts@) =~= col_models(cols@).map_values(
        |c: ColModel|
            unique_count_select_text(sql_string_spec(c.name), quote_ident_spec(c.name), source@),
    ));
    join_strings(&parts, " UNION ALL ")
}

// ---------------------------------------------------------------------------
// Grain
// ---------------------------------------------------------------------------

/// A number read from a cell; 0 where it is not one.
pub open spec fn number_or_zero(c: Seq<char>) -> u64 {
    match parse_u64(c) {
        Some(n) => n,
        None => 0,
    }
}

/// `(column, distinct count)` for each row of the distinct-count query.
pub open spec fn unique_pairs_of(rows: Seq<Seq<Seq<char>>>) -> Seq<(Seq<char>, u64)>
    decreases rows.len(),
{
    if rows.len() == 0 {
        Seq::empty()
    } else {
        let r = rows.last();
        unique_pairs_of(rows.drop_last()) + if r.len() >= 2 {
            seq![(r[0], number_or_zero(r[1]))]
        } else {
            Seq::empty()
        }
    }
}

pub open spec fn pairs_view(ps: Seq<(String, u64)>) -> Seq<(Seq<char>, u64)> {
    ps.map_values(|p: (String, u64)| (p.0@, p.1))
}

/// Reads the distinct counts out of the distinct-count query's rows.
pub fn unique_pairs_from(rows: &Vec<Vec<String>>) -> (r: Vec<(String, u64)>)
    ensures
        pairs_view(r@) == unique_pairs_of(grid_view(rows@)),
{
    let ghost g = grid_view(rows@);
    let mut out: Vec<(String, u64)> = Vec::new();
    let mut i: usize = 0;
    while i < rows.len()
        invariant
            i <= rows@.len(),
            g == grid_view(rows@),
            pairs_view(out@) == unique_pairs_of(g.take(i as int)),
        decreases rows.len() - i,
    {
        let row = &rows[i];
        proof {
            assert(g.take(i + 1).drop_last() =~= g.take(i as int));
            assert(g.take(i + 1).last() == g[i as int]);
        }
        if row.len() >= 2 {
            let u = match parse_u64_str(row[1].as_str()) {
                Some(u) => u,
                None => 0,
            };
            out.push((row[0].clone(), u));
        }
        assert(pairs_view(out@) =~= unique_pairs_of(g.take(i + 1)));
        i += 1;
    }
    assert(g.take(rows@.len() as int) =~= g);
    out
}

/// The distinct count recorded for a column (its first entry), 0 if none.
pub open spec fn unique_for(ps: Seq<(Seq<char>, u64)>, name: Seq<char>) -> u64
    decreases ps.len(),
{
    if ps.len() == 0 {
        0
    } else if ps[0].0 == name {
        ps[0].1
    } else {
        unique_for(ps.drop_first(), name)
    }
}

fn unique_for_exec(ps: &Vec<(String, u64)>, name: &str) -> (u: u64)
    ensures
        u == unique_for(pairs_view(ps@), name@),
{
    let ghost pv = pairs_view(ps@);
    let mut i: usize = 0;
    assert(pv.skip(0) =~= pv);
    while i < ps.len()
        invariant
            i <= ps@.len(),
            pv == pairs_view(ps@),
            unique_for(pv, name@) == unique_for(pv.skip(i as int), name@),
        decreases ps.len() - i,
    {
        let ghost rest = pv.skip(i as int);
        assert(rest[0] == (ps@[i as int].0@, ps@[i as int].1));
        if str_eq(ps[i].0.as_str(), name) {
            return ps[i].1;
        }
        assert(rest.drop_first() =~= pv.skip(i + 1));
        i += 1;
    }
    0
}

/// Each stored column with its distinct count: what the grain ranking reads.
pub open spec fn grain_inputs_of(cs: Seq<ColModel>, ps: Seq<(Seq<char>, u64)>) -> Seq<
    (Seq<char>, u64),
> {
    cs.map_values(|c: ColModel| (c.name, unique_for(ps, c.name)))
}

/// Pairs each column with its distinct count.
pub fn grain_inputs(cols: &Vec<ColMeta>, ps: &Vec<(String, u64)>) -> (r: Vec<(String, u64)>)
    ensures
        pairs_view(r@) == grain_inputs_of(col_models(cols@), pairs_view(ps@)),
{
    let mut out: Vec<(String, u64)> = Vec::new();
    let mut i: usize = 0;
    while i < cols.len()
        invariant
            i <= cols@.len(),
            out@.len() == i,
            forall|k: int|
                0 <= k < i ==> (#[trigger] out@[k]).0@ == cols@[k].name@ && out@[k].1 == unique_for(
                    pairs_view(ps@),
                    cols@[k].name@,
                ),
        decreases cols.len() - i,
    {
        let u = unique_for_exec(ps, cols[i].name.as_str());
        out.push((cols[i].name.clone(), u));
        i += 1;
    }
    assert(pairs_view(out@) =~= grain_inputs_of(col_models(cols@), pairs_view(ps@)));
    out
}

/// The points a column name adds to its grain score: 5 for an id-like name,
/// 4 for a uuid/guid, 3 for a key.
pub open spec fn grain_name_bonus_of(name: Seq<char>) -> nat {
    let l = lower_ascii(name);
    (if l == "id"@ || ends_with(l, "_id"@) || ends_with(l, "id"@) {
        5nat
    } else {
        0nat
    }) + (if contains(l, "uuid"@) || contains(l, "guid"@) {
        4nat
    } else {
        0nat
    }) + (if contains(l, "key"@) || contains(l, "pk"@) {
        3nat
    } else {
        0nat
    })
}

/// The name points of a grain candidate.
pub fn grain_name_bonus(name: &str) -> (b: u64)
    ensures
        b == grain_name_bonus_of(name@),
{
    let l = lower_ascii_str(name);
    let s = l.as_str();
    let mut b: u64 = 0;
    if str_eq(s, "id") || ends_with_str(s, "_id") || ends_with_str(s, "id") {
        b = b + 5;
    }
    if contains_str(s, "uuid") || contains_str(s, "guid") {
        b = b + 4;
    }
    if contains_str(s, "key") || contains_str(s, "pk") {
        b = b + 3;
    }
    b
}

/// The position at which a later entry goes among entries ordered by
/// decreasing count: after every entry whose count is at least its own.
pub open spec fn insert_pos(sorted: Seq<(Seq<char>, u64)>, u: u64) -> int
    decreases sorted.len(),
{
    if sorted.len() == 0 {
        0
    } else if sorted[0].1 < u {
        0
    } else {
        1 + insert_pos(sorted.drop_first(), u)
    }
}

/// The entries ordered by decreasing count; entries with equal counts keep
/// their order (a stable sort).
pub open spec fn sort_desc(ps: Seq<(Seq<char>, u64)>) -> Seq<(Seq<char>, u64)>
    decreases ps.len(),
{
    if ps.len() == 0 {
        Seq::empty()
    } else {
        let s = sort_desc(ps.drop_last());
        s.insert(insert_pos(s, ps.last().1), ps.last())
    }
}

pub proof fn lemma_insert_pos_bounds(sorted: Seq<(Seq<char>, u64)>, u: u64)
    ensures
        0 <= insert_pos(sorted, u) <= sorted.len(),
        forall|k: int| 0 <= k < insert_pos(sorted, u) ==> sorted[k].1 >= u,
        insert_pos(sorted, u) < sorted.len() ==> sorted[insert_pos(sorted, u)].1 < u,
    decreases sorted.len(),
{
    if sorted.len() > 0 && sorted[0].1 >= u {
        lemma_insert_pos_bounds(sorted.drop_first(), u);
        assert forall|k: int| 0 <= k < insert_pos(sorted, u) implies sorted[k].1 >= u by {
            if k > 0 {
                assert(sorted[k] == sorted.drop_first()[k - 1]);
            }
        }
    }
}

pub proof fn lemma_sort_len(ps: Seq<(Seq<char>, u64)>)
    ensures
        sort_desc(ps).len() == ps.len(),
    decreases ps.len(),
{
    if ps.len() > 0 {
        lemma_sort_len(ps.drop_last());
        lemma_insert_pos_bounds(sort_desc(ps.drop_last()), ps.last().1);
    }
}

/// The sorted entries are ordered by decreasing count.
pub proof fn lemma_sort_ordered(ps: Seq<(Seq<char>, u64)>)
    ensures
        forall|i: int, j: int|
            0 <= i < j < sort_desc(ps).len() ==> sort_desc(ps)[i].1 >= sort_desc(ps)[j].1,
    decreases ps.len(),
{
    if ps.len() > 0 {
        lemma_sort_ordered(ps.drop_last());
        let s = sort_desc(ps.drop_last());
        let e = ps.last();
        let p = insert_pos(s, e.1);
        lemma_insert_pos_bounds(s, e.1);
        let r = s.insert(p, e);
        assert forall|i: int, j: int| 0 <= i < j < r.len() implies r[i].1 >= r[j].1 by {
            if j < p {
            } else if j == p {
                assert(s[i].1 >= e.1);
            } else if i < p {
                assert(r[j] == s[j - 1]);
                assert(s[i].1 >= s[j - 1].1);
            } else if i == p {
                assert(r[j] == s[j - 1]);
                if p < s.len() {
                    assert(s[p].1 < e.1);
                    assert(s[p].1 >= s[j - 1].1 || p == j - 1);
                }
            } else {
                assert(r[i] == s[i - 1]);
                assert(r[j] == s[j - 1]);
            }
        }
    }
}

/// The ranking only reorders: the sorted entries are the given ones, each
/// as often as it was given.
pub proof fn lemma_sort_permutes(ps: Seq<(Seq<char>, u64)>)
    ensures
        sort_desc(ps).to_multiset() == ps.to_multiset(),
    decreases ps.len(),
{
    broadcast use vstd::seq_lib::to_multiset_insert, vstd::seq_lib::to_multiset_build;

    if ps.len() == 0 {
        assert(sort_desc(ps) =~= ps);
    } else {
        lemma_sort_permutes(ps.drop_last());
        lemma_insert_pos_bounds(sort_desc(ps.drop_last()), ps.last().1);
        assert(ps =~= ps.drop_last().push(ps.last()));
    }
}

fn insert_sorted(sorted: &mut Vec<(String, u64)>, e: (String, u64))
    ensures
        pairs_view(final(sorted)@) == pairs_view(old(sorted)@).insert(
            insert_pos(pairs_view(old(sorted)@), e.1),
            (e.0@, e.1),
        ),
{
    let ghost sv = pairs_view(sorted@);
    let mut p: usize = 0;
    assert(sv.skip(0) =~= sv);
    while p < sorted.len() && sorted[p].1 >= e.1
        invariant
            p <= sorted@.len(),
            sv == pairs_view(sorted@),
            insert_pos(sv, e.1) == p + insert_pos(sv.skip(p as int), e.1),
        decreases sorted.len() - p,
    {
        assert(sv.skip(p as int).drop_first() =~= sv.skip(p + 1));
        p += 1;
    }
    proof {
        if p < sorted.len() {
            assert(sv.skip(p as int)[0].1 < e.1);
        } else {
            assert(sv.skip(p as int).len() == 0);
        }
    }
    let ghost ev = (e.0@, e.1);
    sorted.insert(p, e);
    assert(pairs_view(sorted@) =~= sv.insert(p as int, ev));
}

/// Sorts entries by decreasing count, keeping the order of equal counts.
pub fn sort_by_unique_desc(ps: &Vec<(String, u64)>) -> (r: Vec<(String, u64)>)
    ensures
        pairs_view(r@) == sort_desc(pairs_view(ps@)),
{
    let ghost pv = pairs_view(ps@);
    let mut out: Vec<(String, u64)> = Vec::new();
    let mut i: usize = 0;
    while i < ps.len()
        invariant
            i <= ps@.len(),
            pv == pairs_view(ps@),
            pairs_view(out@) == sort_desc(pv.take(i as int)),
        decreases ps.len() - i,
    {
        let e = (ps[i].0.clone(), ps[i].1);
        proof {
            assert(pv.take(i + 1).drop_last() =~= pv.take(i as int));
            assert(pv.take(i + 1).last() == pv[i as int]);
        }
        insert_sorted(&mut out, e);
        i += 1;
    }
    assert(pv.take(ps@.len() as int) =~= pv);
    out
}

/// A name that hints at an identifying column.
pub open spec fn key_like(name: Seq<char>) -> bool {
    let l = lower_ascii(name);
    ||| contains(l, "id"@)
    ||| contains(l, "key"@)
    ||| contains(l, "code"@)
    ||| contains(l, "date"@)
    ||| contains(l, "uuid"@)
}

/// The key-like names among `names`, in order, stopping at two.
pub open spec fn key_like_pair(names: Seq<Seq<char>>) -> Seq<Seq<char>>
    decreases names.len(),
{
    if names.len() == 0 {
        Seq::empty()
    } else {
        let p = key_like_pair(names.drop_last());
        if p.len() >= 2 {
            p
        } else if key_like(names.last()) {
            p.push(names.last())
        } else {
            p
        }
    }
}

/// The six columns with the most distinct values (by a stable sort).
pub open spec fn top_names(ps: Seq<(Seq<char>, u64)>) -> Seq<Seq<char>> {
    let s = sort_desc(ps);
    let t = if s.len() > 6 {
        s.take(6)
    } else {
        s
    };
    t.map_values(|p: (Seq<char>, u64)| p.0)
}

/// A two-column grain when no single column identifies rows: the first two
/// key-like names among the six most distinct columns, or else the two most
/// distinct columns (whatever was found, where fewer than two columns exist).
pub open spec fn fallback_grain_of(ps: Seq<(Seq<char>, u64)>) -> Seq<Seq<char>> {
    let top = top_names(ps);
    let pair = key_like_pair(top);
    if pair.len() < 2 && top.len() >= 2 {
        top.take(2)
    } else {
        pair
    }
}

fn is_key_like(name: &str) -> (b: bool)
    ensures
        b == key_like(name@),
{
    let l = lower_ascii_str(name);
    let s = l.as_str();
    contains_str(s, "id") || contains_str(s, "key") || contains_str(s, "code") || contains_str(
        s,
        "date",
    ) || contains_str(s, "uuid")
}

/// The grain chosen when no single column is unique enough.
pub fn fallback_grain(ps: &Vec<(String, u64)>) -> (r: Vec<String>)
    ensures
        strings_view(r@) == fallback_grain_of(pairs_view(ps@)),
{
    let sorted = sort_by_unique_desc(ps);
    let ghost sv = pairs_view(sorted@);
    let k: usize = if sorted.len() > 6 {
        6
    } else {
        sorted.len()
    };
    let ghost top = top_names(pairs_view(ps@));
    assert(top =~= sv.take(k as int).map_values(|p: (Seq<char>, u64)| p.0));
    let mut pair: Vec<String> = Vec::new();
    let mut i: usize = 0;
    while i < k && pair.len() < 2
        invariant
            i <= k <= sorted@.len(),
            sv == pairs_view(sorted@),
            top == sv.take(k as int).map_values(|p: (Seq<char>, u64)| p.0),
            strings_view(pair@) == key_like_pair(top.take(i as int)),
            pair@.len() <= 2,
        decreases k - i,
    {
        proof {
            assert(top.take(i + 1).drop_last() =~= top.take(i as int));
            assert(top.take(i + 1).last() == sorted@[i as int].0@);
        }
        if is_key_like(sorted[i].0.as_str()) {
            pair.push(sorted[i].0.clone());
        }
        assert(strings_view(pair@) =~= key_like_pair(top.take(i + 1)));
        i += 1;
    }
    proof {
        assert(top.len() == k);
        if pair.len() >= 2 {
            lemma_key_like_pair_full(top, i as int);
        } else {
            assert(top.take(i as int) =~= top);
        }
        assert(strings_view(pair@) == key_like_pair(top));
        lemma_sort_len(pairs_view(ps@));
    }
    if pair.len() < 2 && k >= 2 {
        let mut two: Vec<String> = Vec::new();
        two.push(sorted[0].0.clone());
        two.push(sorted[1].0.clone());
        assert(strings_view(two@) =~= top.take(2));
        return two;
    }
    pair
}

proof fn lemma_key_like_pair_full(names: Seq<Seq<char>>, i: int)
    requires
        0 <= i <= names.len(),
        key_like_pair(names.take(i)).len() >= 2,
    ensures
        key_like_pair(names) == key_like_pair(names.take(i)),
    decreases names.len() - i,
{
    if i < names.len() {
        assert(names.take(i + 1).drop_last() =~= names.take(i));
        lemma_key_like_pair_full(names, i + 1);
    } else {
        assert(names.take(i) =~= names);
    }
}

proof fn lemma_key_like_pair_from(names: Seq<Seq<char>>)
    ensures
        key_like_pair(names).len() <= 2,
        forall|i: int| 0 <= i < key_like_pair(names).len() ==> names.contains(#[trigger] key_like_pair(names)[i]),
    decreases names.len(),
{
    if names.len() > 0 {
        lemma_key_like_pair_from(names.drop_last());
        let p = key_like_pair(names.drop_last());
        assert forall|i: int| 0 <= i < key_like_pair(names).len() implies names.contains(#[trigger] key_like_pair(names)[i]) by {
            if i < p.len() {
                assert(key_like_pair(names)[i] == p[i]);
                assert(names.drop_last().contains(p[i]));
                let k = choose|k: int| 0 <= k < names.drop_last().len() && names.drop_last()[k] == p[i];
                assert(names[k] == p[i]);
            } else {
                assert(names[names.len() - 1] == names.last());
            }
        }
    }
}

/// `name` is the name of one of the candidates.
pub open spec fn among_candidates(ps: Seq<(Seq<char>, u64)>, name: Seq<char>) -> bool {
    exists|k: int| 0 <= k < ps.len() && (#[trigger] ps[k]).0 == name
}

/// The fallback grain has at most two columns, each one of the candidates.
pub proof fn lemma_fallback_grain_shape(ps: Seq<(Seq<char>, u64)>)
    ensures
        fallback_grain_of(ps).len() <= 2,
        forall|i: int|
            0 <= i < fallback_grain_of(ps).len() ==> among_candidates(ps, #[trigger] fallback_grain_of(ps)[i]),
{
    broadcast use vstd::seq_lib::to_multiset_contains;

    let s = sort_desc(ps);
    let top = top_names(ps);
    lemma_sort_len(ps);
    lemma_sort_permutes(ps);
    lemma_key_like_pair_from(top);
    let g = fallback_grain_of(ps);
    assert forall|j: int| 0 <= j < top.len() implies among_candidates(ps, #[trigger] top[j]) by {
        assert(top[j] == s[j].0);
        assert(s.contains(s[j]));
        assert(s.to_multiset().count(s[j]) > 0);
        assert(ps.to_multiset().count(s[j]) > 0);
        assert(ps.contains(s[j]));
        let k = choose|k: int| 0 <= k < ps.len() && ps[k] == s[j];
        assert(ps[k].0 == top[j]);
    }
    assert forall|i: int| 0 <= i < g.len() implies among_candidates(ps, #[trigger] g[i]) by {
        let pair = key_like_pair(top);
        if pair.len() < 2 && top.len() >= 2 {
            assert(g[i] == top[i]);
        } else {
            assert(top.contains(pair[i]));
            let j = choose|j: int| 0 <= j < top.len() && top[j] == pair[i];
            assert(g[i] == top[j]);
        }
    }
}

pub open spec fn quoted_list_text(grain: Seq<Seq<char>>) -> Seq<char> {
    join(grain.map_values(|g: Seq<char>| quote_ident_spec(g)), ", "@)
}

/// The grain's columns quoted and separated by commas.
pub fn quoted_list(grain: &Vec<String>) -> (r: String)
    ensures
        r@ == quoted_list_text(strings_view(grain@)),
{
    let mut parts: Vec<String> = Vec::new();
    let mut i: usize = 0;
    while i < grain.len()
        invariant
            i <= grain@.len(),
            parts@.len() == i,
            forall|k: int| 0 <= k < i ==> (#[trigger] parts@[k])@ == quote_ident_spec(grain@[k]@),
        decreases grain.len() - i,
    {
        parts.push(quote_ident(grain[i].as_str()));
        i += 1;
    }
    assert(strings_view(parts@) =~= strings_view(grain@).map_values(
        |g: Seq<char>| quote_ident_spec(g),
    ));
    join_strings(&parts, ", ")
}

pub open spec fn no_grain_status() -> Seq<char> {
    "no unique grain found (approx or multi-col needed)"@
}

/// The note on how well the grain identifies rows, from the validation
/// query: unique when there are as many groups as rows and no group has two
/// rows; else the counts.
pub open spec fn grain_status_of(cols: Seq<Seq<char>>, rows: Seq<Seq<Seq<char>>>, n: u64) -> Seq<
    char,
> {
    if rows.len() == 0 {
        "grain validated"@
    } else {
        let groups = match cell_under(cols, rows[0], "grain_groups"@) {
            Some(c) => number_or_zero(c),
            None => 0,
        };
        let max_per = match cell_under(cols, rows[0], "max_per_group"@) {
            Some(c) => number_or_zero(c),
            None => 0,
        };
        if groups == n && max_per <= 1 {
            "unique grain (1 row per key)"@
        } else {
            approx_grain_status_text(decimal(groups as nat), decimal(max_per as nat))
        }
    }
}

/// Reads the grain validation query's answer.
pub fn grain_status_from(r: &QueryResult, n: u64) -> (s: String)
    ensures
        s@ == grain_status_of(r.columns_view(), r.rows_view(), n),
{
    if r.rows.len() == 0 {
        return to_owned_string("grain validated");
    }
    let row = r.rows[0].as_slice();
    let groups = match r.get_u64(row, "grain_groups") {
        Some(g) => g,
        None => 0,
    };
    let max_per = match r.get_u64(row, "max_per_group") {
        Some(m) => m,
        None => 0,
    };
    assert(strings_view(r.rows@[0]@) == r.rows_view()[0]);
    if groups == n && max_per <= 1 {
        to_owned_string("unique grain (1 row per key)")
    } else {
        let g = decimal_string(groups as u128);
        let m = decimal_string(max_per as u128);
        approx_grain_status(g.as_str(), m.as_str())
    }
}

/// How the grain is shown: its columns, or `(none detected)`.
pub open spec fn grain_label_of(grain: Seq<Seq<char>>) -> Seq<char> {
    if grain.len() == 0 {
        "(none detected)"@
    } else {
        join(grain, ", "@)
    }
}

pub fn grain_label(grain: &Vec<String>) -> (r: String)
    ensures
        r@ == grain_label_of(strings_view(grain@)),
{
    if grain.len() == 0 {
        to_owned_string("(none detected)")
    } else {
        join_strings(grain, ", ")
    }
}

/// How the derived columns are listed: their names, or `none`.
pub open spec fn derive_note_of(ds: Seq<DerivedModel>) -> Seq<char> {
    if ds.len() == 0 {
        "none"@
    } else {
        join(ds.map_values(|d: DerivedModel| d.name), ", "@)
    }
}

pub fn derive_note(derived: &Vec<DerivedCol>) -> (r: String)
    ensures
        r@ == derive_note_of(models(derived@)),
{
    if derived.len() == 0 {
        return to_owned_string("none");
    }
    let mut names: Vec<String> = Vec::new();
    let mut i: usize = 0;
    while i < derived.len()
        invariant
            i <= derived@.len(),
            names@.len() == i,
            forall|k: int| 0 <= k < i ==> (#[trigger] names@[k])@ == derived@[k].name@,
        decreases derived.len() - i,
    {
        names.push(derived[i].name.clone());
        i += 1;
    }
    assert(strings_view(names@) =~= models(derived@).map_values(|d: DerivedModel| d.name));
    join_strings(&names, ", ")
}

/// Every profile row gets three more cells: the grain, its note, and the
/// derived columns.
pub open spec fn extended_rows(rows: Seq<Seq<Seq<char>>>, a: Seq<char>, b: Seq<char>, c: Seq<char>) -> Seq<
    Seq<Seq<char>>,
> {
    rows.map_values(|r: Seq<Seq<char>>| r.push(a).push(b).push(c))
}

/// Appends the columns `detected_grain`, `grain_note` and `derived_cols` to a
/// profile.
pub fn add_grain_columns(profile: &mut QueryResult, label: &str, status: &str, note: &str)
    ensures
        final(profile).columns_view() == old(profile).columns_view().push(
            "detected_grain"@,
        ).push("grain_note"@).push("derived_cols"@),
        final(profile).rows_view() == extended_rows(
            old(profile).rows_view(),
            label@,
            status@,
            note@,
        ),
        final(profile).elapsed_ms == old(profile).elapsed_ms,
        final(profile).row_count_hint == old(profile).row_count_hint,
        final(profile).sql@ == old(profile).sql@,
{
    profile.columns.push(to_owned_string("detected_grain"));
    profile.columns.push(to_owned_string("grain_note"));
    profile.columns.push(to_owned_string("derived_cols"));
    let ghost start = profile.rows_view();
    let n = profile.rows.len();
    let mut rows: Vec<Vec<String>> = Vec::new();
    let mut i: usize = 0;
    while i < n
        invariant
            i <= n,
            n == profile.rows@.len(),
            start == profile.rows_view(),
            rows@.len() == i,
            forall|k: int|
                0 <= k < i ==> strings_view((#[trigger] rows@[k])@) == start[k].push(label@).push(
                    status@,
                ).push(note@),
        decreases n - i,
    {
        let mut r: Vec<String> = Vec::new();
        let mut j: usize = 0;
        while j < profile.rows[i].len()
            invariant
                i < n,
                n == profile.rows@.len(),
                j <= profile.rows@[i as int]@.len(),
                strings_view(r@) == strings_view(profile.rows@[i as int]@).take(j as int),
            decreases profile.rows@[i as int]@.len() - j,
        {
            let ghost prev = r@;
            let x = profile.rows[i][j].clone();
            r.push(x);
            proof {
                let src = strings_view(profile.rows@[i as int]@);
                assert(strings_view(r@) =~= strings_view(prev).push(x@));
                assert(src.take(j + 1) =~= src.take(j as int).push(src[j as int]));
            }
            j += 1;
        }
        assert(strings_view(profile.rows@[i as int]@).take(j as int) =~= start[i as int]);
        r.push(to_owned_string(label));
        r.push(to_owned_string(status));
        r.push(to_owned_string(note));
        assert(strings_view(r@) =~= start[i as int].push(label@).push(status@).push(note@));
        rows.push(r);
        i += 1;
    }
    profile.rows = rows;
    proof {
        assert(strings_view(profile.columns@) =~= strings_view(old(profile).columns@).push(
            "detected_grain"@,
        ).push("grain_note"@).push("derived_cols"@));
        assert(profile.rows_view() =~= extended_rows(start, label@, status@, note@));
    }
}

/// `row` with the cell under column `name` (its first occurrence) set to
/// `val`; unchanged where there is no such column or cell.
pub open spec fn set_col_spec(cols: Seq<Seq<char>>, row: Seq<Seq<char>>, name: Seq<char>, val: Seq<char>) -> Seq<
    Seq<char>,
> {
    match position_of(cols, name) {
        Some(i) => if i < row.len() {
            row.update(i, val)
        } else {
            row
        },
        None => row,
    }
}

/// Sets the cell of `row` under the column `name`.
pub fn set_col(cols: &Vec<String>, row: &mut Vec<String>, name: &str, val: &str)
    ensures
        strings_view(final(row)@) == set_col_spec(strings_view(cols@), strings_view(old(row)@), name@, val@),
{
    let ghost cv = strings_view(cols@);
    let mut i: usize = 0;
    while i < cols.len()
        invariant
            i <= cols@.len(),
            cv == strings_view(cols@),
            *row == *old(row),
            forall|k: int| 0 <= k < i ==> cv[k] != name@,
        decreases cols.len() - i,
    {
        if str_eq(cols[i].as_str(), name) {
            proof {
                crate::duck::lemma_position_first(cv, name@, i as int);
            }
            if i < row.len() {
                row.set(i, to_owned_string(val));
                assert(strings_view(row@) =~= strings_view(old(row)@).update(i as int, val@));
            }
            return;
        }
        i += 1;
    }
    proof {
        crate::duck::lemma_position_absent(cv, name@);
    }
}

/// A cell under a column of a row, or the empty text.
pub open spec fn cell_or_empty(cols: Seq<Seq<char>>, row: Seq<Seq<char>>, name: Seq<char>) -> Seq<char> {
    match cell_under(cols, row, name) {
        Some(c) => c,
        None => Seq::empty(),
    }
}

/// The grain summary row put above the profile: metric `grain_summary`,
/// the grain's columns joined with ` + `, type `GRAIN`, the summary query's
/// row and distinct counts with the coverage where it was computed, and the
/// grain and its note; every other cell empty.
pub open spec fn grain_header_row(
    cols: Seq<Seq<char>>,
    grain: Seq<Seq<char>>,
    gq_cols: Seq<Seq<char>>,
    gq_rows: Seq<Seq<Seq<char>>>,
    note: Seq<char>,
    coverage: Option<Seq<char>>,
) -> Seq<Seq<char>> {
    let r0 = Seq::new(cols.len(), |i: int| Seq::<char>::empty());
    let r1 = set_col_spec(cols, r0, "metric_type"@, "grain_summary"@);
    let r2 = set_col_spec(cols, r1, "column_name"@, join(grain, " + "@));
    let r3 = set_col_spec(cols, r2, "data_type"@, "GRAIN"@);
    let r6 = if gq_rows.len() > 0 {
        let r4 = set_col_spec(cols, r3, "row_count"@, cell_or_empty(gq_cols, gq_rows[0], "row_count"@));
        let r5 = set_col_spec(
            cols,
            r4,
            "unique_count"@,
            cell_or_empty(gq_cols, gq_rows[0], "unique_count"@),
        );
        match coverage {
            Some(c) => set_col_spec(cols, r5, "coverage_rate"@, c),
            None => r5,
        }
    } else {
        r3
    };
    let r7 = set_col_spec(cols, r6, "detected_grain"@, join(grain, ", "@));
    set_col_spec(cols, r7, "grain_note"@, note)
}

fn cell_text_or_empty(r: &QueryResult, name: &str) -> (s: String)
    requires
        r.rows@.len() > 0,
    ensures
        s@ == cell_or_empty(r.columns_view(), r.rows_view()[0], name@),
{
    assert(strings_view(r.rows@[0]@) == r.rows_view()[0]);
    match r.get(r.rows[0].as_slice(), name) {
        Some(c) => to_owned_string(c),
        None => String::new(),
    }
}

/// Puts the grain summary row above the profile rows.  `coverage` is the
/// summary's distinct count over its row count, written with four decimals,
/// where both read as numbers and the row count is positive.
pub fn merge_grain_header(
    profile: QueryResult,
    grain: &Vec<String>,
    grain_q: &QueryResult,
    note: &str,
    coverage: Option<String>,
) -> (r: QueryResult)
    ensures
        r.columns == profile.columns,
        r.rows_view() == seq![
            grain_header_row(
                profile.columns_view(),
                strings_view(grain@),
                grain_q.columns_view(),
                grain_q.rows_view(),
                note@,
                match coverage {
                    Some(c) => Some(c@),
                    None => None,
                },
            ),
        ] + profile.rows_view(),
        r.row_count_hint == profile.row_count_hint,
        r.elapsed_ms == profile.elapsed_ms,
        r.sql == profile.sql,
{
    let mut profile = profile;
    let cols = &profile.columns;
    let mut row: Vec<String> = Vec::new();
    let mut i: usize = 0;
    while i < cols.len()
        invariant
            i <= cols@.len(),
            row@.len() == i,
            forall|k: int| 0 <= k < i ==> (#[trigger] row@[k])@ == Seq::<char>::empty(),
        decreases cols.len() - i,
    {
        row.push(String::new());
        i += 1;
    }
    assert(strings_view(row@) =~= Seq::new(cols@.len(), |i: int| Seq::<char>::empty()));
    set_col(cols, &mut row, "metric_type", "grain_summary");
    let plus = join_strings(grain, " + ");
    set_col(cols, &mut row, "column_name", plus.as_str());
    set_col(cols, &mut row, "data_type", "GRAIN");
    if grain_q.rows.len() > 0 {
        let total = cell_text_or_empty(grain_q, "row_count");
        let uniq = cell_text_or_empty(grain_q, "unique_count");
        set_col(cols, &mut row, "row_count", total.as_str());
        set_col(cols, &mut row, "unique_count", uniq.as_str());
        match &coverage {
            Some(c) => set_col(cols, &mut row, "coverage_rate", c.as_str()),
            None => {},
        }
    }
    let comma = join_strings(grain, ", ");
    set_col(cols, &mut row, "detected_grain", comma.as_str());
    set_col(cols, &mut row, "grain_note", note);
    let ghost before = profile.rows@;
    let ghost hr = strings_view(row@);
    profile.rows.insert(0, row);
    assert(profile.rows_view() =~= seq![hr] + grid_view(before));
    profile
}

// ---------------------------------------------------------------------------
// Laws of the profile and the grain score
// ---------------------------------------------------------------------------

/// A name ending in `id` (in any letter case: `id`, `user_id`, `OrderID`)
/// earns the 5 id points; a name holding `uuid` or `guid` earns at least 4;
/// one holding `key` or `pk` at least 3; a name holding none of these earns
/// nothing.
pub proof fn lemma_grain_name_points(name: Seq<char>)
    ensures
        ends_with(lower_ascii(name), "id"@) ==> grain_name_bonus_of(name) >= 5,
        contains(lower_ascii(name), "uuid"@) || contains(lower_ascii(name), "guid"@)
            ==> grain_name_bonus_of(name) >= 4,
        contains(lower_ascii(name), "key"@) || contains(lower_ascii(name), "pk"@)
            ==> grain_name_bonus_of(name) >= 3,
        !ends_with(lower_ascii(name), "id"@) && !contains(lower_ascii(name), "uuid"@)
            && !contains(lower_ascii(name), "guid"@) && !contains(lower_ascii(name), "key"@)
            && !contains(lower_ascii(name), "pk"@) ==> grain_name_bonus_of(name) == 0,
        grain_name_bonus_of(name) <= 12,
        ends_with(lower_ascii(name), "id"@) && !contains(lower_ascii(name), "uuid"@) && !contains(
            lower_ascii(name),
            "guid"@,
        ) && !contains(lower_ascii(name), "key"@) && !contains(lower_ascii(name), "pk"@)
            ==> grain_name_bonus_of(name) == 5,
        !ends_with(lower_ascii(name), "id"@) && (contains(lower_ascii(name), "uuid"@) || contains(
            lower_ascii(name),
            "guid"@,
        )) && !contains(lower_ascii(name), "key"@) && !contains(lower_ascii(name), "pk"@)
            ==> grain_name_bonus_of(name) == 4,
        !ends_with(lower_ascii(name), "id"@) && !contains(lower_ascii(name), "uuid"@) && !contains(
            lower_ascii(name),
            "guid"@,
        ) && (contains(lower_ascii(name), "key"@) || contains(lower_ascii(name), "pk"@))
            ==> grain_name_bonus_of(name) == 3,
{
    let l = lower_ascii(name);
    reveal_strlit("id");
    reveal_strlit("_id");
    if l == "id"@ {
        assert(l.subrange(l.len() - 2, l.len() as int) =~= "id"@);
    }
    if ends_with(l, "_id"@) {
        assert(l.subrange(l.len() - 2, l.len() as int) =~= l.subrange(l.len() - 3, l.len() as int).subrange(1, 3));
        assert(l.subrange(l.len() - 2, l.len() as int) =~= "id"@);
    }
}

/// Every integer, floating-point, decimal or `REAL` column type, in any
/// letter case, is numeric.
pub proof fn lemma_numeric_types(dtype: Seq<char>)
    ensures
        contains(lower_ascii(dtype), "int"@) ==> numeric_type(dtype),
        contains(lower_ascii(dtype), "float"@) ==> numeric_type(dtype),
        contains(lower_ascii(dtype), "double"@) ==> numeric_type(dtype),
        contains(lower_ascii(dtype), "decimal"@) ==> numeric_type(dtype),
        contains(lower_ascii(dtype), "numeric"@) ==> numeric_type(dtype),
        lower_ascii(dtype) == "real"@ ==> numeric_type(dtype),
        !contains(lower_ascii(dtype), "int"@) && !contains(lower_ascii(dtype), "float"@) && !contains(
            lower_ascii(dtype),
            "double"@,
        ) && !contains(lower_ascii(dtype), "decimal"@) && !contains(lower_ascii(dtype), "numeric"@)
            && lower_ascii(dtype) != "real"@ ==> !numeric_type(dtype),
{
    let d = lower_ascii(dtype);
    if contains(d, "hugeint"@) {
        reveal_strlit("hugeint");
        reveal_strlit("int");
        let i = choose|i: int| crate::text::occurs_at(d, "hugeint"@, i);
        assert(d.subrange(i + 4, i + 7) =~= d.subrange(i, i + 7).subrange(4, 7));
        assert(d.subrange(i + 4, i + 7) =~= "int"@);
        assert(crate::text::occurs_at(d, "int"@, i + 4));
    }
}

/// A column of a numeric type (a `DOUBLE`, `FLOAT`, integer or decimal
/// column, in any letter case) is profiled with numeric statistics (mean,
/// extremes, quartiles), unless its name marks a currency symbol column
/// (ending in `_currency`).
pub proof fn lemma_numeric_columns_profiled(c: ColModel)
    requires
        !ends_with(c.name, "_currency"@),
        contains(lower_ascii(c.dtype), "int"@) || contains(lower_ascii(c.dtype), "float"@)
            || contains(lower_ascii(c.dtype), "double"@) || contains(lower_ascii(c.dtype), "decimal"@)
            || contains(lower_ascii(c.dtype), "numeric"@),
    ensures
        profiled_numeric(c),
        forall|source: Seq<char>|
            #![trigger profile_select_of(source, c)]
            profile_select_of(source, c) == profile_select_text(
                if c.derived {
                    "derived_profile"@
                } else {
                    "column_profile"@
                },
                sql_string_spec(c.name),
                sql_string_spec(
                    if c.derived {
                        c.dtype + " (derived)"@
                    } else {
                        c.dtype
                    },
                ),
                quote_ident_spec(c.name),
                filled_text(quote_ident_spec(c.name), c.dtype),
                numeric_profile_extra_text(quote_ident_spec(c.name)),
                source,
            ),
{
    reveal_strlit("pv_deriv_currency");
    reveal_strlit("_currency");
    if c.name == "pv_deriv_currency"@ {
        assert(c.name.subrange(c.name.len() - 9, c.name.len() as int) =~= "_currency"@);
    }
}

} // verus!
