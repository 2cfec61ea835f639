use weighted_code_coverage::coverage::{CoverageLine, JsonEntry};
use weighted_code_coverage::error::Error;
use weighted_code_coverage::metrics::{
    check_complexity, coverage_percent, crap, scope_metrics, sifis_plain, sifis_quantized,
    skunk_nosmells, Metrics, ThresholdVector,
};
use weighted_code_coverage::scope::{ScopeKind, ScopeNode, ScopeTree};
use weighted_code_coverage::utility::Complexity;

fn node(kind: ScopeKind, start: usize, end: usize, own: u32, sum: u32, ploc: u32) -> ScopeNode {
    ScopeNode {
        name: Some(String::from("f")),
        kind,
        start_line: start,
        end_line: end,
        cyclomatic: own,
        cyclomatic_sum: sum,
        cognitive: own + 1,
        cognitive_sum: sum + 1,
        ploc,
        parent: 0,
    }
}

fn file_tree(sum: u32, ploc: u32) -> ScopeTree {
    ScopeTree::new(node(ScopeKind::File, 1, 10, sum, sum, ploc))
}

fn six_covered_four_null() -> Vec<CoverageLine> {
    let mut v = vec![CoverageLine::Hits(1); 6];
    v.extend(vec![CoverageLine::NotExecutable; 4]);
    v
}

fn no_thresholds() -> ThresholdVector {
    ThresholdVector { sifis_plain: u128::MAX, sifis_quantized: u128::MAX, crap: u128::MAX, skunk: u128::MAX }
}

#[test]
fn plain_score_of_six_covered_lines() {
    let tree = file_tree(2, 10);
    let (num, value) = sifis_plain(&tree, 0, &six_covered_four_null(), Complexity::Cyclomatic);
    assert_eq!(num, 12);
    assert_eq!(value, 1_200_000);
}

#[test]
fn plain_score_uses_chosen_complexity() {
    let tree = file_tree(2, 10);
    let (num, value) = sifis_plain(&tree, 0, &six_covered_four_null(), Complexity::Cognitive);
    assert_eq!(num, 18);
    assert_eq!(value, 1_800_000);
}

#[test]
fn plain_score_ignores_lines_outside_scope() {
    let tree = ScopeTree::new(node(ScopeKind::Function, 3, 4, 2, 2, 10));
    let (num, _) = sifis_plain(&tree, 0, &six_covered_four_null(), Complexity::Cyclomatic);
    assert_eq!(num, 4);
}

#[test]
fn plain_score_without_physical_lines_is_zero() {
    let tree = file_tree(2, 0);
    let (num, value) = sifis_plain(&tree, 0, &six_covered_four_null(), Complexity::Cyclomatic);
    assert_eq!(num, 12);
    assert_eq!(value, 0);
}

#[test]
fn stink_at_full_coverage_is_complexity_over_25() {
    let tree = file_tree(2, 10);
    let lines = vec![CoverageLine::Hits(3); 10];
    let (m, _, _) = scope_metrics(&tree, 0, &lines, Complexity::Cyclomatic, None, &no_thresholds());
    assert_eq!(m.skunk, 80_000);
    assert_eq!(m.coverage, 100_000_000);
    assert_eq!(skunk_nosmells(50, 7, 7), 2_000_000);
    assert_eq!(skunk_nosmells(50, 10000, 10000), 2_000_000);
}

#[test]
fn stink_is_linear_in_the_coverage_gap() {
    // 50 / 25 * (100 - 75)
    assert_eq!(skunk_nosmells(50, 3, 4), 50_000_000);
    // no executable line counts as no coverage
    assert_eq!(skunk_nosmells(50, 0, 0), 200_000_000);
}

#[test]
fn crap_without_coverage_is_square_plus_complexity() {
    assert_eq!(crap(2, 0, 10), 6_000_000);
    assert_eq!(crap(7, 0, 0), 56_000_000);
    let tree = file_tree(2, 10);
    let lines = vec![CoverageLine::Hits(0); 10];
    let (m, _, _) = scope_metrics(&tree, 0, &lines, Complexity::Cyclomatic, None, &no_thresholds());
    assert_eq!(m.crap, 6_000_000);
    assert_eq!(m.coverage, 0);
}

#[test]
fn crap_at_full_and_half_coverage() {
    assert_eq!(crap(5, 4, 4), 5_000_000);
    // 4 * (1/2)^3 + 2
    assert_eq!(crap(2, 1, 2), 2_500_000);
}

#[test]
fn crap_and_stink_use_the_published_percentage() {
    let tree = file_tree(2, 10);
    let lines = vec![CoverageLine::Hits(0); 10];
    let (m, _, _) =
        scope_metrics(&tree, 0, &lines, Complexity::Cyclomatic, Some(5000), &no_thresholds());
    assert_eq!(m.crap, 2_500_000);
    assert_eq!(m.skunk, 4_000_000);
    assert_eq!(m.coverage, 50_000_000);
}

#[test]
fn coverage_percent_exact_value() {
    assert_eq!(coverage_percent(1, 3), 33_333_333);
    assert_eq!(coverage_percent(0, 0), 0);
}

#[test]
fn quantized_weighs_lines_of_complex_scopes_twice() {
    let mut tree = ScopeTree::new(node(ScopeKind::File, 1, 10, 1, 21, 10));
    tree.add_child(0, node(ScopeKind::Function, 3, 5, 20, 20, 3));
    let lines = vec![CoverageLine::Hits(1); 10];
    let (num, value) = sifis_quantized(&tree, 0, &lines, Complexity::Cyclomatic);
    assert_eq!(num, 13);
    assert_eq!(value, 1_300_000);
    let (num, _) = sifis_quantized(&tree, 1, &lines, Complexity::Cyclomatic);
    assert_eq!(num, 6);
}

#[test]
fn quantized_threshold_is_strict() {
    let mut tree = ScopeTree::new(node(ScopeKind::File, 1, 10, 1, 16, 10));
    tree.add_child(0, node(ScopeKind::Function, 3, 5, 15, 15, 3));
    let lines = vec![CoverageLine::Hits(1); 10];
    let (num, _) = sifis_quantized(&tree, 0, &lines, Complexity::Cyclomatic);
    assert_eq!(num, 10);
}

fn thresholds() -> ThresholdVector {
    ThresholdVector::from_values(&vec![35_000_000, 1_500_000, 35_000_000, 30_000_000]).unwrap()
}

#[test]
fn complex_when_any_score_exceeds_its_threshold() {
    let t = thresholds();
    assert!(!check_complexity(35_000_000, 1_500_000, 35_000_000, 30_000_000, &t));
    assert!(check_complexity(35_000_001, 0, 0, 0, &t));
    assert!(check_complexity(0, 1_500_001, 0, 0, &t));
    assert!(check_complexity(0, 0, 35_000_001, 0, &t));
    assert!(check_complexity(0, 0, 0, 30_000_001, &t));
    assert!(!check_complexity(34_999_999, 1_499_999, 34_999_999, 29_999_999, &t));
}

#[test]
fn scope_metrics_classify_against_thresholds() {
    let tree = file_tree(2, 10);
    let lines = vec![CoverageLine::Hits(0); 10];
    let t = ThresholdVector::from_values(&vec![u128::MAX, u128::MAX, 5_999_999, u128::MAX]).unwrap();
    let (m, _, _) = scope_metrics(&tree, 0, &lines, Complexity::Cyclomatic, None, &t);
    assert!(m.is_complex);
    let t = ThresholdVector::from_values(&vec![u128::MAX, u128::MAX, 6_000_000, u128::MAX]).unwrap();
    let (m, _, _) = scope_metrics(&tree, 0, &lines, Complexity::Cyclomatic, None, &t);
    assert!(!m.is_complex);
}

#[test]
fn three_thresholds_are_refused() {
    let r = ThresholdVector::from_values(&vec![35_000_000, 1_500_000, 35_000_000]);
    assert_eq!(r, Err(Error::ThresholdsError()));
    let r = ThresholdVector::from_values(&vec![1, 2, 3, 4, 5]);
    assert_eq!(r, Err(Error::ThresholdsError()));
}

#[test]
fn metrics_constructors() {
    let m = Metrics::new(1, 2, 3, 4, true, 5);
    assert_eq!(m.sifis_plain, 1);
    assert_eq!(m.coverage, 5);
    assert!(m.is_complex);
    let min = Metrics::min();
    assert_eq!(min.crap, u128::MAX);
    assert_eq!(min.coverage, 100_000_000);
}

#[test]
fn json_entry_is_plain_data() {
    assert_eq!(JsonEntry::Unsigned(3), JsonEntry::Unsigned(3));
}
