use weighted_code_coverage::aggregate::{composer, get_project_metrics, AggregationState};
use weighted_code_coverage::coverage::{get_covered_lines, parse_coverage, parse_line, CoverageLine, JsonEntry};
use weighted_code_coverage::error::Error;
use weighted_code_coverage::files::{finalize_files, process_file, score_files, FileMetrics};
use weighted_code_coverage::functions::{
    finalize_functions, process_file_functions, score_functions, RootMetrics,
};
use weighted_code_coverage::metrics::{Metrics, ThresholdVector};
use weighted_code_coverage::report::{triage, CoverageMap, CoverageRecord};
use weighted_code_coverage::scope::{ScopeKind, ScopeNode, ScopeTree};
use weighted_code_coverage::stats::get_cumulative_values;
use weighted_code_coverage::utility::{Complexity, JsonFormat};

fn state(covered: u64, total: u64, plain: u128, quantized: u128, ploc: u64, comp: u64) -> AggregationState {
    AggregationState {
        covered_lines: covered,
        total_lines: total,
        sifis_plain_sum: plain,
        sifis_quantized_sum: quantized,
        ploc_sum: ploc,
        comp_sum: comp,
    }
}

fn metrics(v: u128, complex: bool) -> Metrics {
    Metrics::new(v, v, v, v, complex, v)
}

fn row(name: &str, v: u128, complex: bool) -> FileMetrics {
    FileMetrics::new(metrics(v, complex), String::from(name), format!("src/{}", name))
}

fn thresholds() -> ThresholdVector {
    ThresholdVector::from_values(&vec![35_000_000, 1_500_000, 35_000_000, 30_000_000]).unwrap()
}

#[test]
fn coveralls_entries() {
    assert_eq!(parse_line(JsonEntry::Null, JsonFormat::Coveralls), Ok(CoverageLine::NotExecutable));
    assert_eq!(parse_line(JsonEntry::Unsigned(4), JsonFormat::Coveralls), Ok(CoverageLine::Hits(4)));
    assert_eq!(parse_line(JsonEntry::Negative(-1), JsonFormat::Coveralls), Err(Error::ConversionError()));
    assert_eq!(parse_line(JsonEntry::Other, JsonFormat::Coveralls), Err(Error::ConversionError()));
}

#[test]
fn covdir_entries() {
    assert_eq!(parse_line(JsonEntry::Negative(-1), JsonFormat::Covdir), Ok(CoverageLine::NotExecutable));
    assert_eq!(parse_line(JsonEntry::Unsigned(0), JsonFormat::Covdir), Ok(CoverageLine::Hits(0)));
    assert_eq!(parse_line(JsonEntry::Negative(-2), JsonFormat::Covdir), Err(Error::ConversionError()));
    assert_eq!(parse_line(JsonEntry::Null, JsonFormat::Covdir), Err(Error::ConversionError()));
    assert_eq!(parse_line(JsonEntry::Unsigned(u64::MAX), JsonFormat::Covdir), Err(Error::ConversionError()));
}

#[test]
fn parse_whole_array() {
    let v = vec![JsonEntry::Null, JsonEntry::Unsigned(0), JsonEntry::Unsigned(2)];
    assert_eq!(
        parse_coverage(&v, JsonFormat::Coveralls),
        Ok(vec![CoverageLine::NotExecutable, CoverageLine::Hits(0), CoverageLine::Hits(2)])
    );
    assert_eq!(parse_coverage(&v, JsonFormat::Covdir), Err(Error::ConversionError()));
}

#[test]
fn covered_and_executable_lines_in_range() {
    let lines = vec![
        CoverageLine::Hits(1),
        CoverageLine::NotExecutable,
        CoverageLine::Hits(0),
        CoverageLine::Hits(5),
    ];
    assert_eq!(get_covered_lines(&lines, 1, 4), (2, 3));
    assert_eq!(get_covered_lines(&lines, 2, 3), (0, 1));
}

#[test]
fn merge_adds_every_field() {
    let mut a = state(1, 2, 3, 4, 5, 6);
    assert_eq!(a.merge(&state(10, 20, 30, 40, 50, 60)), Ok(()));
    assert_eq!(a, state(11, 22, 33, 44, 55, 66));
}

#[test]
fn merge_overflow_leaves_state_unchanged() {
    let mut a = state(u64::MAX, u64::MAX, 0, 0, 0, 0);
    assert_eq!(a.merge(&state(1, 1, 0, 0, 0, 0)), Err(Error::OverflowError()));
    assert_eq!(a, state(u64::MAX, u64::MAX, 0, 0, 0, 0));
}

#[test]
fn composer_of_two_halves_equals_whole() {
    let files = vec![state(1, 2, 3, 4, 5, 6), state(2, 2, 10, 1, 7, 3), state(0, 5, 0, 0, 9, 1)];
    let whole = composer(&files).unwrap();
    let first = composer(&files[..1].to_vec()).unwrap();
    let second = composer(&files[1..].to_vec()).unwrap();
    assert_eq!(composer(&vec![first, second]).unwrap(), whole);
    assert_eq!(composer(&vec![second, first]).unwrap(), whole);
    assert_eq!(
        get_project_metrics(&composer(&vec![second, first]).unwrap(), None),
        get_project_metrics(&whole, None)
    );
    assert_eq!(composer(&vec![]).unwrap(), AggregationState::new());
}

#[test]
fn composer_overflow() {
    let s = state(0, 0, 0, 0, u64::MAX, 0);
    assert_eq!(composer(&vec![s, s]), Err(Error::OverflowError()));
}

#[test]
fn project_row_sums_before_dividing() {
    // one large simple file and one small complex file
    let s = state(3, 4, 200, 30, 110, 12);
    let m = get_project_metrics(&s, None).unwrap();
    assert_eq!(m.sifis_plain, 1_818_181);
    assert_eq!(m.sifis_quantized, 272_727);
    assert_eq!(m.coverage, 75_000_000);
    // 144 * (1/4)^3 + 12
    assert_eq!(m.crap, 14_250_000);
    // 12 / 25 * 25
    assert_eq!(m.skunk, 12_000_000);
    assert!(!m.is_complex);
}

#[test]
fn project_row_prefers_published_percentage() {
    let s = state(3, 4, 200, 30, 110, 12);
    let m = get_project_metrics(&s, Some(10000)).unwrap();
    assert_eq!(m.coverage, 100_000_000);
    assert_eq!(m.crap, 12_000_000);
    assert_eq!(m.skunk, 480_000);
}

#[test]
fn project_row_refuses_huge_complexity() {
    let s = state(0, 0, 0, 0, 1, u32::MAX as u64 + 1);
    assert_eq!(get_project_metrics(&s, None), Err(Error::OverflowError()));
}

#[test]
fn statistical_rows() {
    let ms = vec![metrics(10, false), metrics(40, true), metrics(25, false)];
    let (avg, max, min) = get_cumulative_values(&ms).unwrap();
    assert_eq!(avg, Metrics::new(25, 25, 25, 25, false, 25));
    assert_eq!(max, Metrics::new(40, 40, 40, 40, false, 40));
    assert_eq!(min, Metrics::new(10, 10, 10, 10, false, 10));
    let (avg, max, min) = get_cumulative_values(&vec![]).unwrap();
    assert_eq!(avg, Metrics::new(0, 0, 0, 0, false, 0));
    assert_eq!(max, Metrics::new(0, 0, 0, 0, false, 0));
    assert_eq!(min, Metrics::min());
    assert_eq!(
        get_cumulative_values(&vec![metrics(u128::MAX, false), metrics(1, false)]),
        Err(Error::OverflowError())
    );
}

fn record(path: &str, lines: Vec<JsonEntry>) -> CoverageRecord {
    CoverageRecord { path: String::from(path), lines, percent: None }
}

#[test]
fn files_without_coverage_are_ignored() {
    let map = CoverageMap::new(
        vec![record("p/a.rs", vec![]), record("p/c.rs", vec![]), record("p/a.rs", vec![JsonEntry::Null])],
        None,
    )
    .unwrap();
    let files = vec![String::from("p/z.rs"), String::from("p/a.rs"), String::from("p/b.rs"), String::from("p/c.rs")];
    let (present, absent) = triage(&files, &map);
    assert_eq!(present, vec![(1, 2), (3, 1)]);
    assert_eq!(absent, vec![String::from("p/z.rs"), String::from("p/b.rs")]);
    assert_eq!(map.find(&String::from("p/q.rs")), None);
}

#[test]
fn coverage_map_refuses_percentages_above_100() {
    let r = CoverageMap::new(vec![], Some(10001));
    assert!(matches!(r, Err(Error::ConversionError())));
    let mut rec = record("a.rs", vec![]);
    rec.percent = Some(20000);
    assert!(matches!(CoverageMap::new(vec![rec], None), Err(Error::ConversionError())));
}

#[test]
fn coveralls_record_joins_prefix() {
    let r = CoverageRecord::coveralls("./data/project", "src/main.rs", vec![JsonEntry::Null]);
    assert_eq!(r.path, "./data/project/src/main.rs");
    assert_eq!(r.lines, vec![JsonEntry::Null]);
    assert_eq!(r.percent, None);
    assert_eq!(CoverageRecord::coveralls("./p/", "a.rs", vec![]).path, "./p/a.rs");
}

#[test]
fn covdir_records() {
    let r = CoverageRecord::covdir("./p", "src/x", "lib.rs", "lib.rs", 5000, Some(vec![JsonEntry::Negative(-1)]))
        .unwrap()
        .unwrap();
    assert_eq!(r.path, "./p/src/x/lib.rs");
    assert_eq!(r.percent, Some(5000));
    assert!(CoverageRecord::covdir("./p", "", "src", "src", 5000, None).unwrap().is_none());
    assert!(CoverageRecord::covdir("./p", "", "notes.txt", "notes.txt", 0, Some(vec![])).unwrap().is_none());
    assert!(matches!(
        CoverageRecord::covdir("./p", "", "a.rs", "a.rs", 0, None),
        Err(Error::ConversionError())
    ));
}

fn node(name: &str, kind: ScopeKind, start: usize, end: usize, comp: u32, ploc: u32) -> ScopeNode {
    ScopeNode {
        name: Some(String::from(name)),
        kind,
        start_line: start,
        end_line: end,
        cyclomatic: comp,
        cyclomatic_sum: comp,
        cognitive: comp,
        cognitive_sum: comp,
        ploc,
        parent: 0,
    }
}

#[test]
fn process_one_file() {
    let tree = ScopeTree::new(node("main.rs", ScopeKind::File, 1, 10, 2, 10));
    let mut lines = vec![JsonEntry::Unsigned(1); 6];
    lines.extend(vec![JsonEntry::Null; 4]);
    let rec = record("./p/src/main.rs", lines);
    let path = String::from("./p/src/main.rs");
    let (row, st) = process_file(&tree, &rec, JsonFormat::Coveralls, Complexity::Cyclomatic, &thresholds(), &path, "./p/")
        .unwrap();
    assert_eq!(row.file, "main.rs");
    assert_eq!(row.file_path, "src/main.rs");
    assert_eq!(row.metrics.sifis_plain, 1_200_000);
    assert_eq!(row.metrics.sifis_quantized, 600_000);
    assert_eq!(row.metrics.crap, 2_000_000);
    assert_eq!(row.metrics.skunk, 80_000);
    assert_eq!(row.metrics.coverage, 100_000_000);
    assert!(!row.metrics.is_complex);
    assert_eq!(st, state(6, 6, 12, 6, 10, 2));
    let bad = process_file(&tree, &rec, JsonFormat::Covdir, Complexity::Cyclomatic, &thresholds(), &path, "./p/");
    assert!(matches!(bad, Err(Error::ConversionError())));
}

#[test]
fn process_functions_of_a_file() {
    let mut tree = ScopeTree::new(node("main.rs", ScopeKind::File, 1, 10, 20, 10));
    let outer = tree.add_child(0, node("Outer", ScopeKind::Other, 2, 9, 1, 8));
    tree.add_child(outer, node("run", ScopeKind::Function, 3, 5, 16, 3));
    let rec = record("./p/main.rs", vec![JsonEntry::Unsigned(1); 10]);
    let path = String::from("./p/main.rs");
    let (row, st) = process_file_functions(&tree, &rec, JsonFormat::Coveralls, Complexity::Cyclomatic, &thresholds(), &path, "./p/")
        .unwrap();
    assert_eq!(row.file_name, "main.rs");
    assert_eq!(row.start_line, 1);
    assert_eq!(row.end_line, 10);
    assert_eq!(row.functions.len(), 1);
    let f = &row.functions[0];
    assert_eq!(f.function_name, "run (3, 5)");
    assert_eq!(f.file_path, "Outer(2,9)/run(3,5)");
    assert_eq!(f.metrics.sifis_plain, 16_000_000);
    assert_eq!(f.metrics.sifis_quantized, 2_000_000);
    assert!(f.metrics.is_complex);
    assert_eq!(st.comp_sum, 20);
    tree.add_child(0, ScopeNode { name: None, ..node("x", ScopeKind::Function, 10, 10, 1, 1) });
    let bad = process_file_functions(&tree, &rec, JsonFormat::Coveralls, Complexity::Cyclomatic, &thresholds(), &path, "./p/");
    assert!(matches!(bad, Err(Error::PathConversionError())));
}

#[test]
fn finalize_sorts_and_appends_rows() {
    let results = vec![row("b.rs", 30, true), row("a.rs", 10, false), row("c.rs", 20, true)];
    let ignored = vec![String::from("z.rs"), String::from("m.rs")];
    let s = state(3, 4, 200, 30, 110, 12);
    let out = finalize_files(results, ignored, &s, None).unwrap();
    let names: Vec<&str> = out.metrics.iter().map(|m| m.file.as_str()).collect();
    assert_eq!(names, vec!["a.rs", "b.rs", "c.rs", "PROJECT", "AVG", "MAX", "MIN"]);
    assert_eq!(out.metrics[3].metrics, get_project_metrics(&s, None).unwrap());
    assert_eq!(out.metrics[4].metrics.crap, 20);
    assert_eq!(out.metrics[5].metrics.crap, 30);
    assert_eq!(out.metrics[6].metrics.crap, 10);
    assert_eq!(out.metrics[6].file_path, "-");
    assert_eq!(out.files_ignored, vec![String::from("m.rs"), String::from("z.rs")]);
    let complex: Vec<&str> = out.complex_files.iter().map(|m| m.file.as_str()).collect();
    assert_eq!(complex, vec!["b.rs", "c.rs"]);
    assert_eq!(out.project_coverage, 75_000_000);
}

#[test]
fn ignored_files_do_not_change_aggregates() {
    let s = state(3, 4, 200, 30, 110, 12);
    let a = finalize_files(vec![row("a.rs", 10, false)], vec![], &s, None).unwrap();
    let b = finalize_files(vec![row("a.rs", 10, false)], vec![String::from("x.rs"), String::from("w.rs")], &s, None).unwrap();
    assert_eq!(a.metrics.len(), b.metrics.len());
    for (x, y) in a.metrics.iter().zip(b.metrics.iter()) {
        assert_eq!(x.metrics, y.metrics);
    }
    assert_eq!(b.files_ignored, vec![String::from("w.rs"), String::from("x.rs")]);
}

#[test]
fn finalize_functions_rows() {
    let f = weighted_code_coverage::functions::FunctionMetrics::new(metrics(5, true), String::from("f (1, 2)"), String::from("f(1,2)"), 1, 2);
    let g = weighted_code_coverage::functions::FunctionMetrics::new(metrics(1, false), String::from("g (3, 4)"), String::from("g(3,4)"), 3, 4);
    let roots = vec![
        RootMetrics::new(metrics(7, false), String::from("b.rs"), String::from("b.rs"), 1, 9, vec![g]),
        RootMetrics::new(metrics(3, false), String::from("a.rs"), String::from("a.rs"), 1, 9, vec![f]),
    ];
    let s = state(1, 2, 4, 4, 2, 1);
    let out = finalize_functions(roots, vec![], &s, Some(5000)).unwrap();
    let names: Vec<&str> = out.metrics.iter().map(|m| m.file_name.as_str()).collect();
    assert_eq!(names, vec!["a.rs", "b.rs", "PROJECT", "AVG", "MAX", "MIN"]);
    assert_eq!(out.complex_functions.len(), 1);
    assert_eq!(out.complex_functions[0].function_name, "f (1, 2)");
    assert_eq!(out.metrics[3].metrics.skunk, 5);
    assert_eq!(out.project_coverage, 50_000_000);
    assert!(RootMetrics::avg(metrics(0, false)).functions.is_empty());
}

#[test]
fn project_coverage_is_rounded_to_hundredths() {
    let s = state(1, 3, 0, 0, 1, 1);
    let out = finalize_files(vec![row("a.rs", 1, false)], vec![], &s, None).unwrap();
    assert_eq!(out.metrics[1].metrics.coverage, 33_333_333);
    assert_eq!(out.project_coverage, 33_330_000);
    let s = state(2, 3, 0, 0, 1, 1);
    let out = finalize_files(vec![], vec![], &s, None).unwrap();
    assert_eq!(out.project_coverage, 66_670_000);
}

#[test]
fn equal_names_are_ordered_by_path() {
    let a = FileMetrics::new(metrics(1, false), String::from("mod.rs"), String::from("src/b/mod.rs"));
    let b = FileMetrics::new(metrics(2, false), String::from("mod.rs"), String::from("src/a/mod.rs"));
    let s = state(0, 0, 0, 0, 1, 1);
    let out = finalize_files(vec![a, b], vec![], &s, None).unwrap();
    assert_eq!(out.metrics[0].file_path, "src/a/mod.rs");
    assert_eq!(out.metrics[1].file_path, "src/b/mod.rs");
    assert!(out.metrics[2..].iter().all(|r| r.file_path == "-"));
}

fn small_tree(comp: u32) -> ScopeTree {
    let mut t = ScopeTree::new(node("f", ScopeKind::File, 1, 4, comp, 4));
    t.add_child(0, node("g", ScopeKind::Function, 2, 3, comp, 2));
    t
}

#[test]
fn score_files_ignores_uncovered_files() {
    let map = CoverageMap::new(
        vec![
            record("p/a.rs", vec![JsonEntry::Unsigned(1); 4]),
            record("p/c.rs", vec![JsonEntry::Unsigned(0), JsonEntry::Null, JsonEntry::Unsigned(2), JsonEntry::Unsigned(1)]),
        ],
        None,
    )
    .unwrap();
    let files = vec![String::from("p/z.rs"), String::from("p/c.rs"), String::from("p/b.rs"), String::from("p/a.rs")];
    let trees = vec![small_tree(2), small_tree(3)];
    let out = score_files(&files, &map, &trees, JsonFormat::Coveralls, Complexity::Cyclomatic, &thresholds(), "p/")
        .unwrap();
    assert_eq!(out.files_ignored, vec![String::from("p/b.rs"), String::from("p/z.rs")]);
    let names: Vec<&str> = out.metrics.iter().map(|m| m.file.as_str()).collect();
    assert_eq!(names, vec!["a.rs", "c.rs", "PROJECT", "AVG", "MAX", "MIN"]);
    // a.rs: 4 covered lines of complexity 3 over 4 physical lines
    assert_eq!(out.metrics[0].metrics.sifis_plain, 3_000_000);
    // c.rs: 2 covered lines of complexity 2 over 4 physical lines
    assert_eq!(out.metrics[1].metrics.sifis_plain, 1_000_000);
    assert_eq!(out.metrics[3].metrics.sifis_plain, 2_000_000);
    // (12 + 4) / 8
    assert_eq!(out.metrics[2].metrics.sifis_plain, 2_000_000);
    // 6 covered of 7 executable lines
    assert_eq!(out.metrics[2].metrics.coverage, 85_714_285);
    assert_eq!(out.project_coverage, 85_710_000);
    let only = score_files(&vec![String::from("p/c.rs"), String::from("p/a.rs")], &map, &trees, JsonFormat::Coveralls, Complexity::Cyclomatic, &thresholds(), "p/")
        .unwrap();
    for (x, y) in out.metrics.iter().zip(only.metrics.iter()) {
        assert_eq!(x.metrics, y.metrics);
    }
}

#[test]
fn score_files_errors() {
    let map = CoverageMap::new(vec![record("p/a.rs", vec![JsonEntry::Other])], None).unwrap();
    let files = vec![String::from("p/a.rs")];
    let r = score_files(&files, &map, &vec![small_tree(1)], JsonFormat::Coveralls, Complexity::Cyclomatic, &thresholds(), "p/");
    assert!(matches!(r, Err(Error::ConversionError())));
    let map = CoverageMap::new(vec![record("p/a.rs", vec![JsonEntry::Null])], None).unwrap();
    let r = score_files(&files, &map, &vec![small_tree(u32::MAX)], JsonFormat::Coveralls, Complexity::Cyclomatic, &thresholds(), "p/");
    assert!(r.is_ok());
}

#[test]
fn score_functions_of_covered_files() {
    let map = CoverageMap::new(vec![record("p/a.rs", vec![JsonEntry::Unsigned(1); 4])], None).unwrap();
    let files = vec![String::from("p/a.rs"), String::from("p/x.rs")];
    let out = score_functions(&files, &map, &vec![small_tree(20)], JsonFormat::Coveralls, Complexity::Cyclomatic, &thresholds(), "p/")
        .unwrap();
    assert_eq!(out.files_ignored, vec![String::from("p/x.rs")]);
    assert_eq!(out.metrics.len(), 5);
    assert_eq!(out.metrics[0].functions[0].function_name, "g (2, 3)");
    assert_eq!(out.complex_functions.len(), 1);
    let mut unnamed = small_tree(1);
    unnamed.add_child(0, ScopeNode { name: None, ..node("h", ScopeKind::Function, 4, 4, 1, 1) });
    let r = score_functions(&files, &map, &vec![unnamed], JsonFormat::Coveralls, Complexity::Cyclomatic, &thresholds(), "p/");
    assert!(matches!(r, Err(Error::PathConversionError())));
}
