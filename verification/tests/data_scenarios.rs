//! The scenarios of the explorer run against real data files.  They need the
//! data files and the DuckDB tool; where a data file is missing they end at
//! once.  These tests cannot start the tool themselves: every query they ask
//! is answered with the error a missing tool gives.
use parqview::derive::{select_star_with_derived, DeriveScan, DerivedCol, ScanStep};
use parqview::describe::grain_name_bonus;
use parqview::describe_task::{DescribeAction, DescribeEvent, DescribeTask};
use parqview::duck::QueryResult;
use parqview::paths::{has_parquet_ext, is_data_file};
use parqview::relation::DataSource;
use parqview::state::ParqApp;
use std::path::{Path, PathBuf};

fn run_query(sql: &str) -> Result<QueryResult, String> {
    Err(format!(
        "failed to spawn duckdb (duckdb). Is duckdb on PATH?: cannot run {} here",
        sql.len()
    ))
}

fn source_of(p: &Path) -> DataSource {
    let text = p.to_string_lossy().to_string();
    if p.is_dir() {
        let direct = p
            .read_dir()
            .map(|rd| rd.flatten().any(|e| has_parquet_ext(&e.path().to_string_lossy())))
            .unwrap_or(false);
        DataSource::directory(&text, direct)
    } else {
        DataSource::file(&text)
    }
}

fn detect_derived(src: &DataSource) -> Result<Vec<DerivedCol>, String> {
    let (mut scan, mut q) = DeriveScan::start(src);
    loop {
        let r = run_query(&q)?;
        assert!(scan.is_waiting());
        match scan.step(&r.rows) {
            ScanStep::Query(next) => q = next,
            ScanStep::Done(d) => return Ok(d),
        }
    }
}

fn score_grain(cands: &[(String, u64)], n: u64) -> Option<String> {
    let mut scored: Vec<(f64, String)> = Vec::new();
    for (name, u) in cands {
        if *u == 0 {
            continue;
        }
        let ratio = *u as f64 / n as f64;
        if ratio < 0.999 {
            continue;
        }
        let lname = name.to_ascii_lowercase();
        let score = ratio * 10.0
            + grain_name_bonus(name) as f64
            + 1.0 / (1.0 + lname.len() as f64 / 20.0);
        scored.push((score, name.clone()));
    }
    scored.sort_by(|a, b| b.0.partial_cmp(&a.0).unwrap_or(std::cmp::Ordering::Equal));
    scored.first().map(|(_, name)| name.clone())
}

fn format_coverage(total: &str, uniq: &str) -> Option<String> {
    match (total.parse::<f64>(), uniq.parse::<f64>()) {
        (Ok(t), Ok(u)) if t > 0.0 => Some(format!("{:.4}", u / t)),
        _ => None,
    }
}

fn describe_table(p: &Path) -> Result<(QueryResult, String), String> {
    let src = source_of(p);
    let derived = detect_derived(&src).unwrap_or_default();
    let (mut task, mut action) = DescribeTask::start(&src, derived);
    loop {
        let ev = match action {
            DescribeAction::Query(q) => DescribeEvent::Answer(run_query(&q)),
            DescribeAction::ScoreGrain(c, n) => DescribeEvent::Choice(score_grain(&c, n)),
            DescribeAction::FormatCoverage(t, u) => DescribeEvent::Choice(format_coverage(&t, &u)),
            DescribeAction::Finished(r) => return r,
        };
        assert!(task.accepts_event(&ev));
        let (t, a) = task.step(ev);
        task = t;
        action = a;
    }
}

fn open_data_file(app: &mut ParqApp, p: &Path) {
    let text = p.to_string_lossy().to_string();
    let tabular = if p.is_dir() {
        false
    } else {
        is_data_file(&text)
    };
    if !app.begin_open(&text, p.exists(), tabular) {
        return;
    }
    let src = source_of(p);
    let derived = detect_derived(&src).unwrap_or_default();
    let q = app.after_derive(&src, derived);
    let q = app.after_count(&src, run_query(&q));
    let q = app.after_schema(run_query(&q));
    app.after_preview(&text, run_query(&q));
}

#[test]
fn test_open_datalake_parquet_files() {
    let files = [
        "/mnt/datalake/kinnalake/nonprod/lake_us/lake/lz/kinnaruns/domain=timberland.com/report_date=2026-07-29/run_id=182459Z-3872/raw_snoop/crawlplan_siteinfo.parquet",
        "/mnt/datalake/kinnalake/nonprod/lake_us/lake/lz/kinnaruns/domain=timberland.com/report_date=2026-07-29/run_id=182459Z-3872/raw_snoop/crawlplan_products_raw.parquet",
        "/mnt/datalake/kinnalake/nonprod/lake_us/lake/lz/kinnaruns/domain=timberland.com/report_date=2026-07-29/run_id=182459Z-3872/raw_scrape/enriched_scrape.parquet",
        "/mnt/datalake/kinnalake/nonprod/lake_us/lake/lz/kinnaruns/domain=timberland.com/report_date=2026-07-29/run_id=182459Z-3872/raw_capture/raw_capture.parquet",
    ];
    let mut app = ParqApp::default();
    for f in files {
        let p = PathBuf::from(f);
        if !p.exists() {
            continue;
        }
        open_data_file(&mut app, &p);
        assert!(app.error.is_none(), "error opening {f}: {:?}", app.error);
        assert!(app.result.is_some(), "no result for {f}");
        let r = app.result.as_ref().unwrap();
        assert!(!r.columns.is_empty(), "empty columns for {f}");
    }
}

#[test]
fn detects_revenue_currency_on_seed() {
    let p = PathBuf::from("/home/kinna/labs/scala-score-scraper/seed_scala_us_sites_deduped.parquet");
    if !p.exists() {
        return;
    }
    let src = source_of(&p);
    let d = detect_derived(&src).expect("detect");
    assert!(
        d.iter().any(|c| c.name == "pv_deriv_currency"
            || c.name.contains("currency_value")
            || c.name.contains("revenue")),
        "expected currency derives, got: {:?}",
        d.iter().map(|c| &c.name).collect::<Vec<_>>()
    );
    let sql = select_star_with_derived(&src, &d, 3);
    let r = run_query(&sql).expect("query");
    assert!(r.columns.iter().any(|c| c.starts_with("pv_deriv_")), "cols={:?}", r.columns);
}

#[test]
fn describe_seed_parquet() {
    let p = PathBuf::from("/home/kinna/labs/scala-score-scraper/seed_scala_us_sites_deduped.parquet");
    if !p.exists() {
        return;
    }
    let (r, summary) = describe_table(&p).expect("describe");
    assert!(!r.rows.is_empty(), "expected profile rows");
    assert!(summary.contains("grain"), "{summary}");
    let has_id = r.rows.iter().any(|row| row.iter().any(|c| c == "company_id"));
    assert!(has_id, "expected company_id in profile");
    let has_cur = r.rows.iter().any(|row| {
        row.iter().any(|c| c.contains("pv_deriv_") && c.contains("currency"))
    });
    assert!(
        has_cur || summary.contains("derived"),
        "expected currency derives in profile, summary={summary} rows={:?}",
        r.rows.iter().take(3).collect::<Vec<_>>()
    );
}

#[test]
fn describe_datalake_directory() {
    let p = PathBuf::from(
        "/mnt/datalake/kinnalake/nonprod/lake_us/lake/lz/kinnaruns/domain=timberland.com/report_date=2026-07-29/run_id=182459Z-3872/raw_snoop",
    );
    if !p.exists() {
        return;
    }
    let (r, summary) = describe_table(&p).expect("describe dir");
    assert!(!r.rows.is_empty(), "expected profile rows");
    assert!(summary.contains("describe"), "{summary}");
}
