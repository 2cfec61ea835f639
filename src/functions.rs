use vstd::prelude::*;
use vstd::string::StringExecFns;

use crate::aggregate::{get_project_metrics, project_coverage_pair, project_spec, AggregationState};
use crate::coverage::{all_convert, parse_coverage, CoverageLine};
use crate::error::Error;
use crate::aggregate::{fits, lemma_total_prefix, total};
use crate::files::{
    all_covered_convert, covered_metrics, covered_record, covered_sums, file_contribution,
    file_state, lines_of, project_fits, project_sums_fit,
};
use crate::report::{absent_files, lookup, present_files, triage, CoverageMap};
use crate::metrics::{
    lemma_percent_at_most_100, metrics_of, round_percent, rounded_percent, scope_metrics, Metrics,
    ThresholdVector,
};
use crate::report::{valid_percent, CoverageRecord};
use crate::scope::{
    display_name_of, function_indices, qualified_name_of, ScopeNode,
    ScopeTree,
};
use crate::stats::{avg_row, get_cumulative_values, max_row, min_row, sums_fit};
use crate::utility::{
    file_name, file_name_of, relative_of, relative_path, sort_strings, key_le, is_permutation, text_le, texts, texts_sorted,
    Complexity, JsonFormat,
};

verus! {

/// The metrics of one function.
pub struct FunctionMetrics {
    pub metrics: Metrics,
    /// `name (start, end)`.
    pub function_name: String,
    /// The qualified name of the function's scope, such as
    /// `Outer(36,148)/Inner(47,74)`.
    pub file_path: String,
    pub start_line: usize,
    pub end_line: usize,
}

/// The metrics of one file with those of its functions, or a synthetic row.
pub struct RootMetrics {
    pub metrics: Metrics,
    /// The file's name, or `PROJECT`, `AVG`, `MAX`, `MIN`.
    pub file_name: String,
    /// The file's path relative to the project folder, or `-`.
    pub file_path: String,
    pub start_line: usize,
    pub end_line: usize,
    pub functions: Vec<FunctionMetrics>,
}

impl FunctionMetrics {
    /// A row from its parts.
    pub fn new(
        metrics: Metrics,
        function_name: String,
        file_path: String,
        start_line: usize,
        end_line: usize,
    ) -> (r: FunctionMetrics)
        ensures
            r == (FunctionMetrics { metrics, function_name, file_path, start_line, end_line }),
    {
        FunctionMetrics { metrics, function_name, file_path, start_line, end_line }
    }

    /// An equal row.
    pub fn duplicate(&self) -> (r: FunctionMetrics)
        ensures
            r == *self,
    {
        FunctionMetrics {
            metrics: self.metrics,
            function_name: self.function_name.clone(),
            file_path: self.file_path.clone(),
            start_line: self.start_line,
            end_line: self.end_line,
        }
    }
}

impl RootMetrics {
    /// A row from its parts.
    pub fn new(
        metrics: Metrics,
        file_name: String,
        file_path: String,
        start_line: usize,
        end_line: usize,
        functions: Vec<FunctionMetrics>,
    ) -> (r: RootMetrics)
        ensures
            r == (RootMetrics { metrics, file_name, file_path, start_line, end_line, functions }),
    {
        RootMetrics { metrics, file_name, file_path, start_line, end_line, functions }
    }

    /// A synthetic row named `name`: path `-`, lines 0, no functions.
    fn synthetic(m: Metrics, name: &str) -> (r: RootMetrics)
        ensures
            r.metrics == m && r.file_name@ == name@ && r.file_path@ == "-"@ && r.start_line == 0
                && r.end_line == 0 && r.functions@.len() == 0,
    {
        RootMetrics {
            metrics: m,
            file_name: String::from_str(name),
            file_path: String::from_str("-"),
            start_line: 0,
            end_line: 0,
            functions: Vec::new(),
        }
    }

    /// The AVG row.
    pub fn avg(m: Metrics) -> (r: RootMetrics)
        ensures
            r.metrics == m && r.file_name@ == "AVG"@ && r.file_path@ == "-"@
                && r.functions@.len() == 0,
    {
        RootMetrics::synthetic(m, "AVG")
    }

    /// The MIN row.
    pub fn min(m: Metrics) -> (r: RootMetrics)
        ensures
            r.metrics == m && r.file_name@ == "MIN"@ && r.file_path@ == "-"@
                && r.functions@.len() == 0,
    {
        RootMetrics::synthetic(m, "MIN")
    }

    /// The MAX row.
    pub fn max(m: Metrics) -> (r: RootMetrics)
        ensures
            r.metrics == m && r.file_name@ == "MAX"@ && r.file_path@ == "-"@
                && r.functions@.len() == 0,
    {
        RootMetrics::synthetic(m, "MAX")
    }

    /// The PROJECT row.
    pub fn project(m: Metrics) -> (r: RootMetrics)
        ensures
            r.metrics == m && r.file_name@ == "PROJECT"@ && r.file_path@ == "-"@
                && r.functions@.len() == 0,
    {
        RootMetrics::synthetic(m, "PROJECT")
    }
}

/// Whether every function scope listed in `idx` has a name.
pub open spec fn all_named(nodes: Seq<ScopeNode>, idx: Seq<usize>) -> bool {
    forall|j: int| 0 <= j < idx.len() ==> (#[trigger] nodes[idx[j] as int]).name is Some
}

/// Whether `fm` is the row of function scope `i`.
pub open spec fn function_row(
    fm: FunctionMetrics,
    nodes: Seq<ScopeNode>,
    i: int,
    lines: Seq<CoverageLine>,
    c: Complexity,
    percent: Option<u64>,
    t: ThresholdVector,
) -> bool {
    let n = nodes[i];
    &&& fm.metrics == metrics_of(nodes, i, lines, c, percent, t)
    &&& n.name matches Some(s) && fm.function_name@ == display_name_of(
        s@,
        n.start_line as nat,
        n.end_line as nat,
    )
    &&& fm.file_path@ == qualified_name_of(nodes, i)
    &&& fm.start_line == n.start_line
    &&& fm.end_line == n.end_line
}

/// Scores one file and each of its functions: the root scope of `tree` and
/// every function scope in it, against the coverage `record` read in
/// dialect `f`, and the sums the file adds to the project. Fails where an
/// entry of the line array is malformed, or else where a function has no
/// name.
pub fn process_file_functions(
    tree: &ScopeTree,
    record: &CoverageRecord,
    f: JsonFormat,
    c: Complexity,
    thresholds: &ThresholdVector,
    path: &String,
    prefix: &str,
) -> (r: Result<(RootMetrics, AggregationState), Error>)
    requires
        tree.wf(),
        valid_percent(record.percent),
        path@.len() < i64::MAX,
    ensures
        ({
            let idx = function_indices(tree.nodes@, tree.nodes@.len() as int);
            &&& r is Ok <==> all_convert(record.lines@, f) && all_named(tree.nodes@, idx)
            &&& !all_convert(record.lines@, f) ==> r == Err::<(RootMetrics, AggregationState), Error>(
                Error::ConversionError(),
            )
            &&& all_convert(record.lines@, f) && !all_named(tree.nodes@, idx) ==> r == Err::<
                (RootMetrics, AggregationState),
                Error,
            >(Error::PathConversionError())
        }),
        r matches Ok((row, state)) ==> {
            let lines = lines_of(record.lines@, f);
            let idx = function_indices(tree.nodes@, tree.nodes@.len() as int);
            &&& row.metrics == metrics_of(tree.nodes@, 0, lines, c, record.percent, *thresholds)
            &&& row.file_name@ == file_name_of(path@)
            &&& row.file_path@ == relative_of(path@, prefix@)
            &&& row.start_line == tree.nodes@[0].start_line
            &&& row.end_line == tree.nodes@[0].end_line
            &&& row.functions@.len() == idx.len()
            &&& forall|j: int|
                0 <= j < idx.len() ==> function_row(
                    #[trigger] row.functions@[j],
                    tree.nodes@,
                    idx[j] as int,
                    lines,
                    c,
                    record.percent,
                    *thresholds,
                )
            &&& state@ == file_contribution(*tree, lines, c)
            &&& state.wf()
        },
{
    let lines = parse_coverage(&record.lines, f)?;
    assert(lines@ =~= lines_of(record.lines@, f));
    let idx = tree.function_scopes();
    let mut functions: Vec<FunctionMetrics> = Vec::new();
    let mut j: usize = 0;
    while j < idx.len()
        invariant
            tree.wf(),
            valid_percent(record.percent),
            lines@ == lines_of(record.lines@, f),
            all_convert(record.lines@, f),
            idx@ == function_indices(tree.nodes@, tree.nodes@.len() as int),
            forall|k: int| 0 <= k < idx@.len() ==> #[trigger] idx@[k] < tree.nodes@.len(),
            j <= idx@.len(),
            functions@.len() == j,
            forall|k: int| 0 <= k < j ==> (#[trigger] tree.nodes@[idx@[k] as int]).name is Some,
            forall|k: int|
                0 <= k < j ==> function_row(
                    #[trigger] functions@[k],
                    tree.nodes@,
                    idx@[k] as int,
                    lines@,
                    c,
                    record.percent,
                    *thresholds,
                ),
        decreases idx@.len() - j,
    {
        let i = idx[j];
        let label = match tree.function_label(i) {
            Ok(l) => l,
            Err(e) => {
                assert(tree.nodes@[idx@[j as int] as int].name is None);
                assert(!all_named(tree.nodes@, idx@));
                return Err(e);
            },
        };
        let (m, _, _) = scope_metrics(tree, i, &lines, c, record.percent, thresholds);
        let node = &tree.nodes[i];
        functions.push(
            FunctionMetrics {
                metrics: m,
                function_name: label,
                file_path: tree.qualified_name(i),
                start_line: node.start_line,
                end_line: node.end_line,
            },
        );
        j = j + 1;
    }
    let (m, plain_num, quantized_num) = scope_metrics(
        tree,
        0,
        &lines,
        c,
        record.percent,
        thresholds,
    );
    let state = file_state(tree, &lines, c, plain_num, quantized_num);
    let root = &tree.nodes[0];
    let row = RootMetrics {
        metrics: m,
        file_name: file_name(path.as_str()),
        file_path: relative_path(path.as_str(), prefix),
        start_line: root.start_line,
        end_line: root.end_line,
        functions,
    };
    Ok((row, state))
}

/// The complex functions of `s`, in order.
pub open spec fn complex_function_rows(s: Seq<FunctionMetrics>) -> Seq<FunctionMetrics>
    decreases s.len(),
{
    if s.len() == 0 {
        Seq::empty()
    } else if s.last().metrics.is_complex {
        complex_function_rows(s.drop_last()).push(s.last())
    } else {
        complex_function_rows(s.drop_last())
    }
}

/// The complex functions of every file of `s`, file after file.
pub open spec fn complex_functions_of(s: Seq<RootMetrics>) -> Seq<FunctionMetrics>
    decreases s.len(),
{
    if s.len() == 0 {
        Seq::empty()
    } else {
        complex_functions_of(s.drop_last()) + complex_function_rows(s.last().functions@)
    }
}

/// The file-level metrics of each row.
pub open spec fn roots_metrics(s: Seq<RootMetrics>) -> Seq<Metrics> {
    s.map_values(|f: RootMetrics| f.metrics)
}

/// Relies on `slice::sort_by`, a stable sort, comparing the tuples
/// `(file_name, file_path)` of `String`s: tuples compare lexicographically and
/// `str` by bytes, that is by code points (`text_le`). The result is the
/// input reordered by name, then by path, equal keys keeping their order.
#[verifier::external_body]
fn sort_by_file_name(v: &mut Vec<RootMetrics>)
    ensures
        final(v)@.to_multiset() == old(v)@.to_multiset(),
        forall|i: int, j: int|
            0 <= i < j < final(v)@.len() ==> key_le(
                (#[trigger] final(v)@[i]).file_name@,
                final(v)@[i].file_path@,
                (#[trigger] final(v)@[j]).file_name@,
                final(v)@[j].file_path@,
            ),
        exists|p: Seq<int>|
            {
                &&& is_permutation(p, old(v)@.len() as int)
                &&& forall|i: int|
                    0 <= i < old(v)@.len() ==> final(v)@[i] == old(v)@[#[trigger] p[i]]
                &&& forall|i: int, j: int|
                    0 <= i < j < old(v)@.len() && final(v)@[i].file_name@ == final(v)@[j].file_name@
                        && final(v)@[i].file_path@ == final(v)@[j].file_path@ ==> #[trigger] p[i]
                        < #[trigger] p[j]
            },
{
    v.sort_by(|a, b| (&a.file_name, &a.file_path).cmp(&(&b.file_name, &b.file_path)));
}

/// Appends the complex functions of `fs` to `out`.
fn push_complex(fs: &Vec<FunctionMetrics>, out: &mut Vec<FunctionMetrics>)
    ensures
        final(out)@ == old(out)@ + complex_function_rows(fs@),
{
    let mut i: usize = 0;
    assert(old(out)@ + complex_function_rows(fs@.subrange(0, 0)) =~= old(out)@);
    while i < fs.len()
        invariant
            i <= fs@.len(),
            out@ == old(out)@ + complex_function_rows(fs@.subrange(0, i as int)),
        decreases fs@.len() - i,
    {
        let ghost pre = fs@.subrange(0, i as int + 1);
        assert(pre.drop_last() =~= fs@.subrange(0, i as int));
        if fs[i].metrics.is_complex {
            out.push(fs[i].duplicate());
            assert(out@ =~= old(out)@ + complex_function_rows(pre));
        }
        i = i + 1;
    }
    assert(fs@.subrange(0, fs@.len() as int) =~= fs@);
}

/// The complex functions of every file of `v`, file after file.
pub fn complex_functions(v: &Vec<RootMetrics>) -> (r: Vec<FunctionMetrics>)
    ensures
        r@ == complex_functions_of(v@),
{
    let mut out: Vec<FunctionMetrics> = Vec::new();
    let mut i: usize = 0;
    while i < v.len()
        invariant
            i <= v@.len(),
            out@ == complex_functions_of(v@.subrange(0, i as int)),
        decreases v@.len() - i,
    {
        let ghost pre = v@.subrange(0, i as int + 1);
        assert(pre.drop_last() =~= v@.subrange(0, i as int));
        push_complex(&v[i].functions, &mut out);
        i = i + 1;
    }
    assert(v@.subrange(0, v@.len() as int) =~= v@);
    out
}

/// The file-level metrics of each row.
fn roots_column(v: &Vec<RootMetrics>) -> (r: Vec<Metrics>)
    ensures
        r@ == roots_metrics(v@),
{
    let mut out: Vec<Metrics> = Vec::new();
    let mut i: usize = 0;
    while i < v.len()
        invariant
            i <= v@.len(),
            out@ == roots_metrics(v@.subrange(0, i as int)),
        decreases v@.len() - i,
    {
        out.push(v[i].metrics);
        assert(roots_metrics(v@.subrange(0, i as int + 1)) =~= roots_metrics(
            v@.subrange(0, i as int),
        ).push(v@[i as int].metrics));
        i = i + 1;
    }
    assert(v@.subrange(0, v@.len() as int) =~= v@);
    out
}

/// What a run in functions mode produces.
pub struct FunctionsOutput {
    /// One row per scored file, by name, then PROJECT, AVG, MAX and MIN.
    pub metrics: Vec<RootMetrics>,
    /// The files that the report does not cover, sorted.
    pub files_ignored: Vec<String>,
    /// The complex functions of the scored files, file after file.
    pub complex_functions: Vec<FunctionMetrics>,
    /// The project's coverage percentage, rounded to hundredths of a
    /// percent, in millionths.
    pub project_coverage: u128,
}

/// Builds the final result of a functions run from the rows of the scored
/// files, the ignored files and the reduced state: rows sorted by file
/// name, then the PROJECT row (recomputed from the sums), AVG, MAX and MIN
/// (over the file-level metrics of the scored rows only). Fails where a sum
/// does not fit.
pub fn finalize_functions(
    results: Vec<RootMetrics>,
    ignored: Vec<String>,
    state: &AggregationState,
    project_percent: Option<u64>,
) -> (r: Result<FunctionsOutput, Error>)
    requires
        state.wf(),
        valid_percent(project_percent),
    ensures
        r is Ok <==> sums_fit(roots_metrics(results@)) && project_fits(*state),
        r is Err ==> r == Err::<FunctionsOutput, Error>(Error::OverflowError()),
        r matches Ok(o) ==> {
            let n = results@.len() as int;
            let rows = o.metrics@.subrange(0, n);
            let (k, t) = project_coverage_pair(state@, project_percent);
            let project = project_spec(state@, k, t);
            &&& o.metrics@.len() == n + 4
            &&& rows.to_multiset() == results@.to_multiset()
            &&& forall|i: int, j: int|
                0 <= i < j < n ==> key_le(
                    (#[trigger] rows[i]).file_name@,
                    rows[i].file_path@,
                    (#[trigger] rows[j]).file_name@,
                    rows[j].file_path@,
                )
            &&& forall|i: int| n <= i < n + 4 ==> (#[trigger] o.metrics@[i]).file_path@ == "-"@
            &&& o.metrics@[n].metrics == project && o.metrics@[n].file_name@ == "PROJECT"@
            &&& o.metrics@[n + 1].metrics == avg_row(roots_metrics(results@))
                && o.metrics@[n + 1].file_name@ == "AVG"@
            &&& o.metrics@[n + 2].metrics == max_row(roots_metrics(results@))
                && o.metrics@[n + 2].file_name@ == "MAX"@
            &&& o.metrics@[n + 3].metrics == min_row(roots_metrics(results@))
                && o.metrics@[n + 3].file_name@ == "MIN"@
            &&& o.files_ignored@.to_multiset() == ignored@.to_multiset()
            &&& texts_sorted(texts(o.files_ignored@))
            &&& o.complex_functions@ == complex_functions_of(rows)
            &&& o.project_coverage == rounded_percent(project.coverage as int)
        },
{
    let ghost input = results@;
    let ms = roots_column(&results);
    let (avg, max, min) = get_cumulative_values(&ms)?;
    let project = get_project_metrics(state, project_percent)?;
    proof {
        let (k, t) = project_coverage_pair(state@, project_percent);
        lemma_percent_at_most_100(k, t);
    }
    let project_coverage = round_percent(project.coverage);
    let mut rows = results;
    sort_by_file_name(&mut rows);
    let mut files_ignored = ignored;
    sort_strings(&mut files_ignored);
    let complex = complex_functions(&rows);
    let ghost sorted = rows@;
    rows.push(RootMetrics::project(project));
    rows.push(RootMetrics::avg(avg));
    rows.push(RootMetrics::max(max));
    rows.push(RootMetrics::min(min));
    assert(rows@.subrange(0, sorted.len() as int) =~= sorted);
    proof {
        vstd::seq_lib::to_multiset_len(sorted);
        vstd::seq_lib::to_multiset_len(input);
    }
    Ok(
        FunctionsOutput {
            metrics: rows,
            files_ignored,
            complex_functions: complex,
            project_coverage,
        },
    )
}

/// Whether every function scope of every tree has a name.
pub open spec fn all_trees_named(trees: Seq<ScopeTree>) -> bool {
    forall|t: int|
        0 <= t < trees.len() ==> all_named(
            (#[trigger] trees[t]).nodes@,
            function_indices(trees[t].nodes@, trees[t].nodes@.len() as int),
        )
}

impl ScopeTree {
    /// Whether every function scope has a name.
    pub fn functions_named(&self) -> (r: bool)
        ensures
            r == all_named(self.nodes@, function_indices(self.nodes@, self.nodes@.len() as int)),
    {
        let idx = self.function_scopes();
        let mut j: usize = 0;
        while j < idx.len()
            invariant
                idx@ == function_indices(self.nodes@, self.nodes@.len() as int),
                forall|k: int| 0 <= k < idx@.len() ==> #[trigger] idx@[k] < self.nodes@.len(),
                j <= idx@.len(),
                forall|k: int| 0 <= k < j ==> (#[trigger] self.nodes@[idx@[k] as int]).name is Some,
            decreases idx@.len() - j,
        {
            if self.nodes[idx[j]].name.is_none() {
                assert(self.nodes@[idx@[j as int] as int].name is None);
                return false;
            }
            j = j + 1;
        }
        true
    }
}

/// Scores a whole project in functions mode. The files that the report
/// does not cover are ignored; `trees[j]` is the scope tree of the `j`-th
/// file that it covers (see `triage`). Fails with `ConversionError` where
/// the line array of a covered file is malformed, else with
/// `PathConversionError` where a function of a covered file has no name,
/// else with `OverflowError` where a sum does not fit.
pub fn score_functions(
    files: &Vec<String>,
    map: &CoverageMap,
    trees: &Vec<ScopeTree>,
    f: JsonFormat,
    c: Complexity,
    thresholds: &ThresholdVector,
    prefix: &str,
) -> (r: Result<FunctionsOutput, Error>)
    requires
        map.wf(),
        trees@.len() == present_files(map.records@, files@).len(),
        forall|j: int| 0 <= j < trees@.len() ==> (#[trigger] trees@[j]).wf(),
        forall|i: int| 0 <= i < files@.len() ==> (#[trigger] files@[i])@.len() < i64::MAX,
    ensures
        ({
            let ms = covered_metrics(*map, files@, trees@, f, c, *thresholds);
            let sums = total(covered_sums(*map, files@, trees@, f, c));
            &&& r is Ok <==> all_covered_convert(*map, files@, f) && all_trees_named(trees@)
                && fits(sums) && sums_fit(ms) && project_sums_fit(sums)
            &&& !all_covered_convert(*map, files@, f) ==> r == Err::<FunctionsOutput, Error>(
                Error::ConversionError(),
            )
            &&& all_covered_convert(*map, files@, f) && !all_trees_named(trees@) ==> r == Err::<
                FunctionsOutput,
                Error,
            >(Error::PathConversionError())
            &&& all_covered_convert(*map, files@, f) && all_trees_named(trees@) && r is Err ==> r == Err::<
                FunctionsOutput,
                Error,
            >(Error::OverflowError())
        }),
        r matches Ok(o) ==> {
            let present = present_files(map.records@, files@);
            let n = present.len() as int;
            let ms = covered_metrics(*map, files@, trees@, f, c, *thresholds);
            let sums = total(covered_sums(*map, files@, trees@, f, c));
            let (k, t) = project_coverage_pair(sums, map.project_percent);
            let project = project_spec(sums, k, t);
            &&& o.files_ignored@.len() == absent_files(map.records@, files@).len()
            &&& forall|x: Seq<char>|
                texts(o.files_ignored@).contains(x) <==> #[trigger] absent_files(
                    map.records@,
                    files@,
                ).contains(x)
            &&& texts_sorted(texts(o.files_ignored@))
            &&& o.metrics@.len() == n + 4
            &&& forall|i: int|
                0 <= i < n ==> exists|j: int|
                    0 <= j < n && (#[trigger] o.metrics@[i]).metrics == ms[j]
                        && o.metrics@[i].file_name@ == file_name_of(files@[present[j].0 as int]@)
                        && o.metrics@[i].file_path@ == relative_of(
                        files@[present[j].0 as int]@,
                        prefix@,
                    )
            &&& o.metrics@[n].metrics == project
            &&& o.metrics@[n + 1].metrics == avg_row(ms)
            &&& o.metrics@[n + 2].metrics == max_row(ms)
            &&& o.metrics@[n + 3].metrics == min_row(ms)
            &&& o.project_coverage == rounded_percent(project.coverage as int)
        },
{
    let (present, absent) = triage(files, map);
    let ghost ms = covered_metrics(*map, files@, trees@, f, c, *thresholds);
    let ghost sums = covered_sums(*map, files@, trees@, f, c);
    let mut j: usize = 0;
    while j < present.len()
        invariant
            present@ == present_files(map.records@, files@),
            forall|k: int|
                0 <= k < present@.len() ==> {
                    let (i, rr) = #[trigger] present@[k];
                    &&& i < files@.len()
                    &&& rr < map.records@.len()
                    &&& rr as int == lookup(map.records@, files@[i as int]@)
                },
            j <= present@.len(),
            forall|k: int| 0 <= k < j ==> all_convert(#[trigger] covered_record(*map, files@, k).lines@, f),
        decreases present@.len() - j,
    {
        let (_, k) = present[j];
        if parse_coverage(&map.records[k].lines, f).is_err() {
            assert(!all_convert(covered_record(*map, files@, j as int).lines@, f));
            return Err(Error::ConversionError());
        }
        j = j + 1;
    }
    j = 0;
    while j < trees.len()
        invariant
            all_covered_convert(*map, files@, f),
            j <= trees@.len(),
            forall|t: int| 0 <= t < j ==> all_named(
                (#[trigger] trees@[t]).nodes@,
                function_indices(trees@[t].nodes@, trees@[t].nodes@.len() as int),
            ),
        decreases trees@.len() - j,
    {
        if !trees[j].functions_named() {
            return Err(Error::PathConversionError());
        }
        j = j + 1;
    }
    let mut results: Vec<RootMetrics> = Vec::new();
    let mut state = AggregationState::new();
    j = 0;
    while j < present.len()
        invariant
            map.wf(),
            trees@.len() == present@.len(),
            forall|t: int| 0 <= t < trees@.len() ==> (#[trigger] trees@[t]).wf(),
            forall|i: int| 0 <= i < files@.len() ==> (#[trigger] files@[i])@.len() < i64::MAX,
            present@ == present_files(map.records@, files@),
            forall|k: int|
                0 <= k < present@.len() ==> {
                    let (i, rr) = #[trigger] present@[k];
                    &&& i < files@.len()
                    &&& rr < map.records@.len()
                    &&& rr as int == lookup(map.records@, files@[i as int]@)
                },
            all_covered_convert(*map, files@, f),
            all_trees_named(trees@),
            ms == covered_metrics(*map, files@, trees@, f, c, *thresholds),
            sums == covered_sums(*map, files@, trees@, f, c),
            j <= present@.len(),
            results@.len() == j,
            roots_metrics(results@) == ms.subrange(0, j as int),
            forall|t: int|
                0 <= t < j ==> (#[trigger] results@[t]).file_name@ == file_name_of(
                    files@[present@[t].0 as int]@,
                ) && results@[t].file_path@ == relative_of(files@[present@[t].0 as int]@, prefix@),
            state@ == total(sums.subrange(0, j as int)),
            state.wf(),
        decreases present@.len() - j,
    {
        let (i, k) = present[j];
        assert(all_convert(covered_record(*map, files@, j as int).lines@, f));
        let record = &map.records[k];
        let (row, contribution) = match process_file_functions(&trees[j], record, f, c, thresholds, &files[i], prefix) {
            Ok(v) => v,
            Err(e) => {
                return Err(e);
            },
        };
        let ghost pre = sums.subrange(0, j as int + 1);
        assert(pre.drop_last() =~= sums.subrange(0, j as int));
        match state.merge(&contribution) {
            Ok(()) => {},
            Err(e) => {
                proof {
                    lemma_total_prefix(sums, j as int + 1);
                }
                return Err(e);
            },
        }
        results.push(row);
        assert(roots_metrics(results@) =~= ms.subrange(0, j as int + 1));
        j = j + 1;
    }
    assert(ms.subrange(0, ms.len() as int) =~= ms);
    assert(sums.subrange(0, sums.len() as int) =~= sums);
    let ghost input = results@;
    let out = finalize_functions(results, absent, &state, map.project_percent);
    match out {
        Ok(o) => {
            proof {
                let n = input.len() as int;
                assert forall|i: int| 0 <= i < n implies exists|jj: int|
                    0 <= jj < n && (#[trigger] o.metrics@[i]).metrics == ms[jj]
                        && o.metrics@[i].file_name@ == file_name_of(files@[present@[jj].0 as int]@)
                        && o.metrics@[i].file_path@ == relative_of(
                        files@[present@[jj].0 as int]@,
                        prefix@,
                    ) by {
                    let rows = o.metrics@.subrange(0, n);
                    assert(rows[i] == o.metrics@[i]);
                    vstd::seq_lib::to_multiset_contains(rows, rows[i]);
                    vstd::seq_lib::to_multiset_contains(input, rows[i]);
                    let jj = choose|jj: int| 0 <= jj < input.len() && input[jj] == rows[i];
                    assert(roots_metrics(input)[jj] == ms[jj]);
                }
                let ig = o.files_ignored@;
                let ab = absent@;
                vstd::seq_lib::to_multiset_len(ig);
                vstd::seq_lib::to_multiset_len(ab);
                assert forall|x: Seq<char>|
                    texts(ig).contains(x) <==> #[trigger] absent_files(map.records@, files@).contains(
                        x,
                    ) by {
                    if texts(ig).contains(x) {
                        let a = choose|a: int| 0 <= a < ig.len() && texts(ig)[a] == x;
                        vstd::seq_lib::to_multiset_contains(ig, ig[a]);
                        vstd::seq_lib::to_multiset_contains(ab, ig[a]);
                        let b = choose|b: int| 0 <= b < ab.len() && ab[b] == ig[a];
                        assert(texts(ab)[b] == x);
                    }
                    if absent_files(map.records@, files@).contains(x) {
                        let b = choose|b: int| 0 <= b < ab.len() && texts(ab)[b] == x;
                        vstd::seq_lib::to_multiset_contains(ab, ab[b]);
                        vstd::seq_lib::to_multiset_contains(ig, ab[b]);
                        let a = choose|a: int| 0 <= a < ig.len() && ig[a] == ab[b];
                        assert(texts(ig)[a] == x);
                    }
                }
            }
            Ok(o)
        },
        Err(e) => Err(e),
    }
}

} // verus!
