//! The describe run as a sequence of queries: each step takes the answer to
//! the last query (or a choice made by the caller) and gives the next query,
//! a request, or the finished profile with its status line.
use vstd::prelude::*;
use crate::derive::{enhance_relation, enhanced_text, models, DerivedCol};
use crate::describe::{
    add_grain_columns, col_models, column_metas_from, derive_note, derive_note_of,
    describe_summary, describe_summary_text, empty_describe_summary, empty_describe_summary_text,
    extended_rows, fallback_grain, fallback_grain_of, grain_groupby_sql, grain_groupby_sql_text,
    grain_header_row, grain_inputs, grain_inputs_of, grain_label, grain_label_of,
    grain_status_from, grain_status_of, merge_grain_header, metas_of, no_grain_status,
    pairs_view, physical_columns, physical_of, profile_sql, profile_sql_text, quoted_list,
    quoted_list_text, unique_pairs_from, unique_pairs_of, unique_sql, unique_sql_text,
    validate_grain_sql, validate_grain_sql_text, ColMeta,
};
use crate::duck::{strings_view, QueryResult};
use crate::relation::{
    columns_sql, columns_sql_text, count_from_result, count_in, count_sql, count_sql_text,
    relation_sql, DataSource,
};
use crate::text::{decimal, decimal_string, to_owned_string};

verus! {

/// What the caller hands back: the answer to a query (its result, or the
/// text of its error), or the choice it was asked to make.
pub enum DescribeEvent {
    Answer(Result<QueryResult, String>),
    Choice(Option<String>),
}

/// What the describe run needs next.
pub enum DescribeAction {
    /// Run this query and answer with its result.
    Query(String),
    /// Rank the grain candidates: each stored column with its distinct count,
    /// and the row count.  Answer with the best column, if any qualifies.
    ScoreGrain(Vec<(String, u64)>, u64),
    /// Format the coverage of the grain (distinct count over row count, both
    /// as printed).  Answer with the text, if it can be computed.
    FormatCoverage(String, String),
    /// The run is over: the profile and its status line, or the error.
    Finished(Result<(QueryResult, String), String>),
}

/// Where a describe run stands, with what it has learnt so far.
pub enum DescribeTask {
    Columns { source: String, derived: Vec<DerivedCol> },
    Counting { source: String, derived: Vec<DerivedCol>, cols: Vec<ColMeta> },
    ProfilingEmpty { cols: Vec<ColMeta> },
    Uniques { source: String, derived: Vec<DerivedCol>, cols: Vec<ColMeta>, n: u64 },
    Ranking {
        source: String,
        derived: Vec<DerivedCol>,
        cols: Vec<ColMeta>,
        n: u64,
        pairs: Vec<(String, u64)>,
    },
    Validating {
        source: String,
        derived: Vec<DerivedCol>,
        cols: Vec<ColMeta>,
        n: u64,
        grain: Vec<String>,
    },
    Profiling {
        source: String,
        derived: Vec<DerivedCol>,
        cols: Vec<ColMeta>,
        n: u64,
        grain: Vec<String>,
        status: String,
    },
    Summarizing {
        profile: QueryResult,
        grain: Vec<String>,
        status: String,
        summary: String,
    },
    Covering {
        profile: QueryResult,
        grain: Vec<String>,
        gq: QueryResult,
        status: String,
        summary: String,
    },
    Done,
}

/// The status line of a run over a non-empty table.
pub open spec fn summary_of(
    n: u64,
    cols: Seq<crate::describe::ColModel>,
    ds: Seq<crate::derive::DerivedModel>,
    grain: Seq<Seq<char>>,
    status: Seq<char>,
) -> Seq<char> {
    describe_summary_text(
        decimal(n as nat),
        decimal(physical_of(cols).len()),
        decimal(ds.len()),
        grain_label_of(grain),
        status,
    )
}

pub open spec fn context_error(ctx: Seq<char>, e: Seq<char>) -> Seq<char> {
    ctx + ": "@ + e
}

impl DescribeTask {
    /// Whether the run waits for this kind of event.
    pub open spec fn accepts(self, ev: DescribeEvent) -> bool {
        match self {
            DescribeTask::Ranking { .. } => ev is Choice,
            DescribeTask::Covering { .. } => ev is Choice,
            DescribeTask::Done => false,
            _ => ev is Answer,
        }
    }

    /// Whether the run waits for this kind of event (whether `step` may be
    /// called with it).
    pub fn accepts_event(&self, ev: &DescribeEvent) -> (b: bool)
        ensures
            b == self.accepts(*ev),
    {
        match self {
            DescribeTask::Ranking { .. } => matches!(ev, DescribeEvent::Choice(_)),
            DescribeTask::Covering { .. } => matches!(ev, DescribeEvent::Choice(_)),
            DescribeTask::Done => false,
            _ => matches!(ev, DescribeEvent::Answer(_)),
        }
    }

    /// Starts describing a data path, given its derived columns: the first
    /// query lists the columns of the path's relation with them added.
    pub fn start(data: &DataSource, derived: Vec<DerivedCol>) -> (r: (DescribeTask, DescribeAction))
        ensures
            ({
                &&& r.0 matches DescribeTask::Columns { source, derived: d } && source@
                    == enhanced_text(data.relation(), models(derived@)) && d == derived
                    && (r.1 matches DescribeAction::Query(q) && q@ == columns_sql_text(source@))
            }),
    {
        let base = relation_sql(data);
        let source = enhance_relation(base.as_str(), &derived);
        let q = columns_sql(source.as_str());
        (DescribeTask::Columns { source, derived }, DescribeAction::Query(q))
    }
}

/// One step of the run: the new state and what it needs next.
pub open spec fn describe_step_spec(
    old: DescribeTask,
    ev: DescribeEvent,
    new: DescribeTask,
    act: DescribeAction,
) -> bool {
    match old {
        DescribeTask::Columns { source, derived } => match ev {
            DescribeEvent::Answer(Err(e)) => new is Done && act == DescribeAction::Finished(Err(e)),
            DescribeEvent::Answer(Ok(r)) => if metas_of(r.rows_view()).len() == 0 {
                &&& new is Done
                &&& act matches DescribeAction::Finished(Err(m)) && m@ == "no columns found"@
            } else {
                &&& new matches DescribeTask::Counting { source: s2, derived: d2, cols }
                    && s2 == source && d2 == derived && col_models(cols@) == metas_of(r.rows_view())
                &&& act matches DescribeAction::Query(q) && q@ == count_sql_text(source@)
            },
            _ => false,
        },
        DescribeTask::Counting { source, derived, cols } => match ev {
            DescribeEvent::Answer(Err(e)) => new is Done && act == DescribeAction::Finished(Err(e)),
            DescribeEvent::Answer(Ok(r)) => {
                let n = count_in(r.rows_view());
                if n == 0 {
                    &&& new matches DescribeTask::ProfilingEmpty { cols: c2 } && c2 == cols
                    &&& act matches DescribeAction::Query(q) && q@ == profile_sql_text(
                        source@,
                        col_models(cols@),
                    )
                } else {
                    &&& new matches DescribeTask::Uniques { source: s2, derived: d2, cols: c2, n: n2 }
                        && s2 == source && d2 == derived && c2 == cols && n2 == n
                    &&& act matches DescribeAction::Query(q) && q@ == unique_sql_text(
                        source@,
                        physical_of(col_models(cols@)),
                    )
                }
            },
            _ => false,
        },
        DescribeTask::ProfilingEmpty { cols } => match ev {
            DescribeEvent::Answer(Err(e)) => {
                &&& new is Done
                &&& act matches DescribeAction::Finished(Err(m)) && m@ == context_error(
                    "column profile query"@,
                    e@,
                )
            },
            DescribeEvent::Answer(Ok(p)) => {
                &&& new is Done
                &&& act matches DescribeAction::Finished(Ok((p2, s))) && p2 == p && s@
                    == empty_describe_summary_text(decimal(physical_of(col_models(cols@)).len()))
            },
            _ => false,
        },
        DescribeTask::Uniques { source, derived, cols, n } => match ev {
            DescribeEvent::Answer(Err(e)) => new is Done && act == DescribeAction::Finished(Err(e)),
            DescribeEvent::Answer(Ok(r)) => {
                &&& new matches DescribeTask::Ranking {
                    source: s2,
                    derived: d2,
                    cols: c2,
                    n: n2,
                    pairs,
                } && s2 == source && d2 == derived && c2 == cols && n2 == n && pairs_view(pairs@)
                    == unique_pairs_of(r.rows_view())
                &&& act matches DescribeAction::ScoreGrain(cands, n3) && n3 == n && pairs_view(
                    cands@,
                ) == grain_inputs_of(
                    physical_of(col_models(cols@)),
                    unique_pairs_of(r.rows_view()),
                )
            },
            _ => false,
        },
        DescribeTask::Ranking { source, derived, cols, n, pairs } => match ev {
            DescribeEvent::Choice(c) => {
                let grain = match c {
                    Some(name) => seq![name@],
                    None => fallback_grain_of(pairs_view(pairs@)),
                };
                if grain.len() == 0 {
                    &&& new matches DescribeTask::Profiling {
                        source: s2,
                        derived: d2,
                        cols: c2,
                        n: n2,
                        grain: g2,
                        status,
                    } && s2 == source && d2 == derived && c2 == cols && n2 == n && g2@.len() == 0
                        && status@ == no_grain_status()
                    &&& act matches DescribeAction::Query(q) && q@ == profile_sql_text(
                        source@,
                        col_models(cols@),
                    )
                } else {
                    &&& new matches DescribeTask::Validating {
                        source: s2,
                        derived: d2,
                        cols: c2,
                        n: n2,
                        grain: g2,
                    } && s2 == source && d2 == derived && c2 == cols && n2 == n && strings_view(
                        g2@,
                    ) == grain
                    &&& act matches DescribeAction::Query(q) && q@ == validate_grain_sql_text(
                        decimal(n as nat),
                        source@,
                        quoted_list_text(grain),
                    )
                }
            },
            _ => false,
        },
        DescribeTask::Validating { source, derived, cols, n, grain } => match ev {
            DescribeEvent::Answer(Err(e)) => new is Done && act == DescribeAction::Finished(Err(e)),
            DescribeEvent::Answer(Ok(r)) => {
                &&& new matches DescribeTask::Profiling {
                    source: s2,
                    derived: d2,
                    cols: c2,
                    n: n2,
                    grain: g2,
                    status,
                } && s2 == source && d2 == derived && c2 == cols && n2 == n && g2 == grain
                    && status@ == grain_status_of(r.columns_view(), r.rows_view(), n)
                &&& act matches DescribeAction::Query(q) && q@ == profile_sql_text(
                    source@,
                    col_models(cols@),
                )
            },
            _ => false,
        },
        DescribeTask::Profiling { source, derived, cols, n, grain, status } => match ev {
            DescribeEvent::Answer(Err(e)) => {
                &&& new is Done
                &&& act matches DescribeAction::Finished(Err(m)) && m@ == context_error(
                    "column profile query"@,
                    e@,
                )
            },
            DescribeEvent::Answer(Ok(p)) => {
                let summary = summary_of(
                    n,
                    col_models(cols@),
                    models(derived@),
                    strings_view(grain@),
                    status@,
                );
                let ok_profile = |p2: QueryResult|
                    {
                        &&& p2.columns_view() == p.columns_view().push("detected_grain"@).push(
                            "grain_note"@,
                        ).push("derived_cols"@)
                        &&& p2.rows_view() == extended_rows(
                            p.rows_view(),
                            grain_label_of(strings_view(grain@)),
                            status@,
                            derive_note_of(models(derived@)),
                        )
                        &&& p2.elapsed_ms == p.elapsed_ms
                        &&& p2.row_count_hint == p.row_count_hint
                        &&& p2.sql@ == p.sql@
                    };
                if grain@.len() == 0 {
                    &&& new is Done
                    &&& act matches DescribeAction::Finished(Ok((p2, s))) && ok_profile(p2) && s@
                        == summary
                } else {
                    &&& new matches DescribeTask::Summarizing {
                        profile: p2,
                        grain: g2,
                        status: st2,
                        summary: s2,
                    } && ok_profile(p2) && g2 == grain && st2 == status && s2@ == summary
                    &&& act matches DescribeAction::Query(q) && q@ == grain_groupby_sql_text(
                        decimal(n as nat),
                        source@,
                        quoted_list_text(strings_view(grain@)),
                    )
                }
            },
            _ => false,
        },
        DescribeTask::Summarizing { profile, grain, status, summary } => match ev {
            DescribeEvent::Answer(Err(_)) => new is Done && act == DescribeAction::Finished(
                Ok((profile, summary)),
            ),
            DescribeEvent::Answer(Ok(g)) => if g.rows@.len() == 0 {
                &&& new is Done
                &&& act matches DescribeAction::Finished(Ok((p2, s2))) && s2 == summary
                    && p2.columns == profile.columns && p2.rows_view() == seq![
                    grain_header_row(
                        profile.columns_view(),
                        strings_view(grain@),
                        g.columns_view(),
                        g.rows_view(),
                        status@,
                        None,
                    ),
                ] + profile.rows_view() && p2.elapsed_ms == profile.elapsed_ms
                    && p2.row_count_hint == profile.row_count_hint && p2.sql == profile.sql
            } else {
                &&& new matches DescribeTask::Covering {
                    profile: p2,
                    grain: g2,
                    gq,
                    status: st2,
                    summary: s2,
                } && p2 == profile && g2 == grain && gq == g && st2 == status && s2 == summary
                &&& act matches DescribeAction::FormatCoverage(total, uniq) && total@ == crate::describe::cell_or_empty(
                    g.columns_view(),
                    g.rows_view()[0],
                    "row_count"@,
                ) && uniq@ == crate::describe::cell_or_empty(
                    g.columns_view(),
                    g.rows_view()[0],
                    "unique_count"@,
                )
            },
            _ => false,
        },
        DescribeTask::Covering { profile, grain, gq, status, summary } => match ev {
            DescribeEvent::Choice(c) => {
                &&& new is Done
                &&& act matches DescribeAction::Finished(Ok((p2, s2))) && s2 == summary && p2.columns == profile.columns && p2.rows_view() == seq![
                grain_header_row(
                    profile.columns_view(),
                    strings_view(grain@),
                    gq.columns_view(),
                    gq.rows_view(),
                    status@,
                    match c {
                        Some(t) => Some(t@),
                        None => None,
                    },
                ),
            ] + profile.rows_view() && p2.elapsed_ms == profile.elapsed_ms
                    && p2.row_count_hint == profile.row_count_hint && p2.sql == profile.sql
            },
            _ => false,
        },
        DescribeTask::Done => false,
    }
}

/// The most events a run in this state still takes before it is over.
pub open spec fn steps_left(t: DescribeTask) -> nat {
    match t {
        DescribeTask::Columns { .. } => 8,
        DescribeTask::Counting { .. } => 7,
        DescribeTask::Uniques { .. } => 6,
        DescribeTask::Ranking { .. } => 5,
        DescribeTask::Validating { .. } => 4,
        DescribeTask::Profiling { .. } => 3,
        DescribeTask::Summarizing { .. } => 2,
        DescribeTask::ProfilingEmpty { .. } => 1,
        DescribeTask::Covering { .. } => 1,
        DescribeTask::Done => 0,
    }
}

/// Every step brings a describe run closer to its end, so a run started by
/// `start` is over after at most eight events; a step ends the run exactly
/// when it hands back the result (the profile or the error).
pub proof fn lemma_step_progress(old: DescribeTask, ev: DescribeEvent, new: DescribeTask, act: DescribeAction)
    requires
        describe_step_spec(old, ev, new, act),
    ensures
        steps_left(new) < steps_left(old),
        (new is Done) == (act is Finished),
{
}

fn with_context(ctx: &str, e: &str) -> (r: String)
    ensures
        r@ == context_error(ctx@, e@),
{
    let mut s = to_owned_string(ctx);
    s.append(": ");
    s.append(e);
    s
}

impl DescribeTask {
    /// Advances the run by one event.
    pub fn step(self, ev: DescribeEvent) -> (r: (DescribeTask, DescribeAction))
        requires
            self.accepts(ev),
        ensures
            describe_step_spec(self, ev, r.0, r.1),
    {
        match self {
            DescribeTask::Columns { source, derived } => match ev {
                DescribeEvent::Answer(Err(e)) => (DescribeTask::Done, DescribeAction::Finished(Err(e))),
                DescribeEvent::Answer(Ok(ans)) => {
                    let cols = column_metas_from(&ans.rows);
                    if cols.len() == 0 {
                        let m = to_owned_string("no columns found");
                        (DescribeTask::Done, DescribeAction::Finished(Err(m)))
                    } else {
                        let q = count_sql(source.as_str());
                        (DescribeTask::Counting { source, derived, cols }, DescribeAction::Query(q))
                    }
                },
                DescribeEvent::Choice(_) => (DescribeTask::Done, DescribeAction::Query(String::new())),
            },
            DescribeTask::Counting { source, derived, cols } => match ev {
                DescribeEvent::Answer(Err(e)) => (DescribeTask::Done, DescribeAction::Finished(Err(e))),
                DescribeEvent::Answer(Ok(ans)) => {
                    let n = count_from_result(&ans);
                    if n == 0 {
                        let q = profile_sql(source.as_str(), &cols);
                        (DescribeTask::ProfilingEmpty { cols }, DescribeAction::Query(q))
                    } else {
                        let physical = physical_columns(&cols);
                        let q = unique_sql(source.as_str(), &physical);
                        (DescribeTask::Uniques { source, derived, cols, n }, DescribeAction::Query(q))
                    }
                },
                DescribeEvent::Choice(_) => (DescribeTask::Done, DescribeAction::Query(String::new())),
            },
            DescribeTask::ProfilingEmpty { cols } => match ev {
                DescribeEvent::Answer(Err(e)) => (
                    DescribeTask::Done,
                    DescribeAction::Finished(Err(with_context("column profile query", e.as_str()))),
                ),
                DescribeEvent::Answer(Ok(p)) => {
                    let physical = physical_columns(&cols);
                    let k = decimal_string(physical.len() as u128);
                    let s = empty_describe_summary(k.as_str());
                    (DescribeTask::Done, DescribeAction::Finished(Ok((p, s))))
                },
                DescribeEvent::Choice(_) => (DescribeTask::Done, DescribeAction::Query(String::new())),
            },
            DescribeTask::Uniques { source, derived, cols, n } => match ev {
                DescribeEvent::Answer(Err(e)) => (DescribeTask::Done, DescribeAction::Finished(Err(e))),
                DescribeEvent::Answer(Ok(ans)) => {
                    let pairs = unique_pairs_from(&ans.rows);
                    let physical = physical_columns(&cols);
                    let cands = grain_inputs(&physical, &pairs);
                    (
                        DescribeTask::Ranking { source, derived, cols, n, pairs },
                        DescribeAction::ScoreGrain(cands, n),
                    )
                },
                DescribeEvent::Choice(_) => (DescribeTask::Done, DescribeAction::Query(String::new())),
            },
            DescribeTask::Ranking { source, derived, cols, n, pairs } => match ev {
                DescribeEvent::Choice(c) => {
                    let grain = match c {
                        Some(name) => {
                            let ghost nv = name@;
                            let mut g: Vec<String> = Vec::new();
                            g.push(name);
                            assert(strings_view(g@) =~= seq![nv]);
                            g
                        },
                        None => fallback_grain(&pairs),
                    };
                    if grain.len() == 0 {
                        let q = profile_sql(source.as_str(), &cols);
                        let status = to_owned_string(
                            "no unique grain found (approx or multi-col needed)",
                        );
                        (
                            DescribeTask::Profiling { source, derived, cols, n, grain, status },
                            DescribeAction::Query(q),
                        )
                    } else {
                        let nd = decimal_string(n as u128);
                        let ge = quoted_list(&grain);
                        let q = validate_grain_sql(nd.as_str(), source.as_str(), ge.as_str());
                        (
                            DescribeTask::Validating { source, derived, cols, n, grain },
                            DescribeAction::Query(q),
                        )
                    }
                },
                DescribeEvent::Answer(_) => (DescribeTask::Done, DescribeAction::Query(String::new())),
            },
            DescribeTask::Validating { source, derived, cols, n, grain } => match ev {
                DescribeEvent::Answer(Err(e)) => (DescribeTask::Done, DescribeAction::Finished(Err(e))),
                DescribeEvent::Answer(Ok(ans)) => {
                    let status = grain_status_from(&ans, n);
                    let q = profile_sql(source.as_str(), &cols);
                    (
                        DescribeTask::Profiling { source, derived, cols, n, grain, status },
                        DescribeAction::Query(q),
                    )
                },
                DescribeEvent::Choice(_) => (DescribeTask::Done, DescribeAction::Query(String::new())),
            },
            DescribeTask::Profiling { source, derived, cols, n, grain, status } => match ev {
                DescribeEvent::Answer(Err(e)) => (
                    DescribeTask::Done,
                    DescribeAction::Finished(Err(with_context("column profile query", e.as_str()))),
                ),
                DescribeEvent::Answer(Ok(p)) => {
                    let mut profile = p;
                    let label = grain_label(&grain);
                    let note = derive_note(&derived);
                    add_grain_columns(&mut profile, label.as_str(), status.as_str(), note.as_str());
                    let physical = physical_columns(&cols);
                    let nd = decimal_string(n as u128);
                    let pc = decimal_string(physical.len() as u128);
                    let dc = decimal_string(derived.len() as u128);
                    let summary = describe_summary(
                        nd.as_str(),
                        pc.as_str(),
                        dc.as_str(),
                        label.as_str(),
                        status.as_str(),
                    );
                    if grain.len() == 0 {
                        (DescribeTask::Done, DescribeAction::Finished(Ok((profile, summary))))
                    } else {
                        let ge = quoted_list(&grain);
                        let q = grain_groupby_sql(nd.as_str(), source.as_str(), ge.as_str());
                        (
                            DescribeTask::Summarizing { profile, grain, status, summary },
                            DescribeAction::Query(q),
                        )
                    }
                },
                DescribeEvent::Choice(_) => (DescribeTask::Done, DescribeAction::Query(String::new())),
            },
            DescribeTask::Summarizing { profile, grain, status, summary } => match ev {
                DescribeEvent::Answer(Err(_)) => (
                    DescribeTask::Done,
                    DescribeAction::Finished(Ok((profile, summary))),
                ),
                DescribeEvent::Answer(Ok(g)) => {
                    if g.rows.len() == 0 {
                        let merged = merge_grain_header(profile, &grain, &g, status.as_str(), None);
                        (DescribeTask::Done, DescribeAction::Finished(Ok((merged, summary))))
                    } else {
                        let row = g.rows[0].as_slice();
                        assert(strings_view(g.rows@[0]@) == g.rows_view()[0]);
                        let total = match g.get(row, "row_count") {
                            Some(t) => to_owned_string(t),
                            None => String::new(),
                        };
                        let uniq = match g.get(row, "unique_count") {
                            Some(u) => to_owned_string(u),
                            None => String::new(),
                        };
                        (
                            DescribeTask::Covering { profile, grain, gq: g, status, summary },
                            DescribeAction::FormatCoverage(total, uniq),
                        )
                    }
                },
                DescribeEvent::Choice(_) => (DescribeTask::Done, DescribeAction::Query(String::new())),
            },
            DescribeTask::Covering { profile, grain, gq, status, summary } => match ev {
                DescribeEvent::Choice(c) => {
                    let merged = merge_grain_header(profile, &grain, &gq, status.as_str(), c);
                    (DescribeTask::Done, DescribeAction::Finished(Ok((merged, summary))))
                },
                DescribeEvent::Answer(_) => (DescribeTask::Done, DescribeAction::Query(String::new())),
            },
            DescribeTask::Done => (DescribeTask::Done, DescribeAction::Query(String::new())),
        }
    }
}

} // verus!
