use vstd::prelude::*;
use vstd::string::StringExecFns;

use crate::aggregate::{
    fits, get_project_metrics, lemma_total_prefix, project_coverage_pair, project_spec, total,
    AggregationState, Totals,
};
use crate::coverage::{
    all_convert, covered_count, executable_count, get_covered_lines, line_of, parse_coverage,
    CoverageLine,
};
use crate::error::Error;
use crate::metrics::{
    lemma_percent_at_most_100, round_percent, rounded_percent,
    metrics_of, plain_numerator, quantized_sum, scope_comp_sum, scope_metrics, Metrics,
    ThresholdVector, NUMERATOR_LIMIT,
};
use crate::report::{
    absent_files, lookup, present_files, triage,
    valid_percent, CoverageMap, CoverageRecord,
};
use crate::scope::{comp_sum, ScopeTree};
use crate::stats::{avg_row, get_cumulative_values, max_row, min_row, sums_fit};
use crate::utility::{
    file_name, file_name_of, relative_of, relative_path, sort_strings, key_le, is_permutation, text_le, texts, texts_sorted,
    Complexity, JsonFormat,
};

verus! {

/// The metrics of one file, or of a synthetic row.
pub struct FileMetrics {
    pub metrics: Metrics,
    /// The file's name, or `PROJECT`, `AVG`, `MAX`, `MIN`.
    pub file: String,
    /// The file's path relative to the project folder, or `-`.
    pub file_path: String,
}

impl FileMetrics {
    /// A row from its parts.
    pub fn new(metrics: Metrics, file: String, file_path: String) -> (r: FileMetrics)
        ensures
            r.metrics == metrics && r.file == file && r.file_path == file_path,
    {
        FileMetrics { metrics, file, file_path }
    }

    /// A synthetic row named `name` with the placeholder path `-`.
    fn synthetic(m: Metrics, name: &str) -> (r: FileMetrics)
        ensures
            r.metrics == m && r.file@ == name@ && r.file_path@ == "-"@,
    {
        FileMetrics { metrics: m, file: String::from_str(name), file_path: String::from_str("-") }
    }

    /// The AVG row.
    pub fn avg(m: Metrics) -> (r: FileMetrics)
        ensures
            r.metrics == m && r.file@ == "AVG"@ && r.file_path@ == "-"@,
    {
        FileMetrics::synthetic(m, "AVG")
    }

    /// The MIN row.
    pub fn min(m: Metrics) -> (r: FileMetrics)
        ensures
            r.metrics == m && r.file@ == "MIN"@ && r.file_path@ == "-"@,
    {
        FileMetrics::synthetic(m, "MIN")
    }

    /// The MAX row.
    pub fn max(m: Metrics) -> (r: FileMetrics)
        ensures
            r.metrics == m && r.file@ == "MAX"@ && r.file_path@ == "-"@,
    {
        FileMetrics::synthetic(m, "MAX")
    }

    /// The PROJECT row.
    pub fn project(m: Metrics) -> (r: FileMetrics)
        ensures
            r.metrics == m && r.file@ == "PROJECT"@ && r.file_path@ == "-"@,
    {
        FileMetrics::synthetic(m, "PROJECT")
    }

    /// An equal row.
    pub fn duplicate(&self) -> (r: FileMetrics)
        ensures
            r == *self,
    {
        FileMetrics {
            metrics: self.metrics,
            file: self.file.clone(),
            file_path: self.file_path.clone(),
        }
    }
}

/// The sums that one file adds to its worker's state.
pub open spec fn file_contribution(
    tree: ScopeTree,
    lines: Seq<CoverageLine>,
    c: Complexity,
) -> (nat, nat, nat, nat, nat, nat) {
    let root = tree.nodes@[0];
    (
        covered_count(lines, root.start_line as int, root.end_line as int),
        executable_count(lines, root.start_line as int, root.end_line as int),
        plain_numerator(tree.nodes@, 0, lines, c) as nat,
        quantized_sum(tree.nodes@, 0, lines, c),
        root.ploc as nat,
        comp_sum(root, c) as nat,
    )
}

/// The line array of `entries` read in dialect `f`, where every entry is
/// well formed.
pub open spec fn lines_of(entries: Seq<crate::coverage::JsonEntry>, f: JsonFormat) -> Seq<CoverageLine> {
    entries.map_values(|e: crate::coverage::JsonEntry| line_of(e, f)->0)
}

/// The state that a file adds, and the sums it holds.
pub fn file_state(
    tree: &ScopeTree,
    lines: &Vec<CoverageLine>,
    c: Complexity,
    plain_num: u128,
    quantized_num: u128,
) -> (r: AggregationState)
    requires
        tree.wf(),
        plain_num == plain_numerator(tree.nodes@, 0, lines@, c),
        quantized_num == quantized_sum(tree.nodes@, 0, lines@, c),
    ensures
        r@ == file_contribution(*tree, lines@, c),
        r.wf(),
{
    let root = &tree.nodes[0];
    let (covered, total) = get_covered_lines(lines, root.start_line, root.end_line);
    proof {
        crate::coverage::lemma_covered_le_executable(lines@, root.start_line as int, root.end_line as int);
    }
    AggregationState {
        covered_lines: covered,
        total_lines: total,
        sifis_plain_sum: plain_num,
        sifis_quantized_sum: quantized_num,
        ploc_sum: root.ploc as u64,
        comp_sum: scope_comp_sum(tree, 0, c) as u64,
    }
}

/// Scores one file: the metrics of the root scope of `tree` against the
/// coverage `record` read in dialect `f`, and the sums the file adds to the
/// project. `path` is the file's full path, `prefix` the project folder.
/// Fails where an entry of the line array is malformed.
pub fn process_file(
    tree: &ScopeTree,
    record: &CoverageRecord,
    f: JsonFormat,
    c: Complexity,
    thresholds: &ThresholdVector,
    path: &String,
    prefix: &str,
) -> (r: Result<(FileMetrics, AggregationState), Error>)
    requires
        tree.wf(),
        valid_percent(record.percent),
        path@.len() < i64::MAX,
    ensures
        r is Ok <==> all_convert(record.lines@, f),
        r is Err ==> r == Err::<(FileMetrics, AggregationState), Error>(Error::ConversionError()),
        r matches Ok((row, state)) ==> {
            &&& row.metrics == metrics_of(
                tree.nodes@,
                0,
                lines_of(record.lines@, f),
                c,
                record.percent,
                *thresholds,
            )
            &&& row.file@ == file_name_of(path@)
            &&& row.file_path@ == relative_of(path@, prefix@)
            &&& state@ == file_contribution(*tree, lines_of(record.lines@, f), c)
            &&& state.wf()
        },
{
    let lines = parse_coverage(&record.lines, f)?;
    assert(lines@ =~= lines_of(record.lines@, f));
    let (m, plain_num, quantized_num) = scope_metrics(tree, 0, &lines, c, record.percent, thresholds);
    let state = file_state(tree, &lines, c, plain_num, quantized_num);
    let row = FileMetrics {
        metrics: m,
        file: file_name(path.as_str()),
        file_path: relative_path(path.as_str(), prefix),
    };
    Ok((row, state))
}

/// The metrics of each row.
pub open spec fn rows_metrics(s: Seq<FileMetrics>) -> Seq<Metrics> {
    s.map_values(|f: FileMetrics| f.metrics)
}

/// The complex rows of `s`, in order.
pub open spec fn complex_rows(s: Seq<FileMetrics>) -> Seq<FileMetrics>
    decreases s.len(),
{
    if s.len() == 0 {
        Seq::empty()
    } else if s.last().metrics.is_complex {
        complex_rows(s.drop_last()).push(s.last())
    } else {
        complex_rows(s.drop_last())
    }
}

/// Relies on `slice::sort_by`, a stable sort, comparing the tuples
/// `(file, file_path)` of `String`s: tuples compare lexicographically and
/// `str` by bytes, that is by code points (`text_le`). The result is the
/// input reordered by name, then by path, equal keys keeping their order.
#[verifier::external_body]
fn sort_by_file(v: &mut Vec<FileMetrics>)
    ensures
        final(v)@.to_multiset() == old(v)@.to_multiset(),
        forall|i: int, j: int|
            0 <= i < j < final(v)@.len() ==> key_le(
                (#[trigger] final(v)@[i]).file@,
                final(v)@[i].file_path@,
                (#[trigger] final(v)@[j]).file@,
                final(v)@[j].file_path@,
            ),
        exists|p: Seq<int>|
            {
                &&& is_permutation(p, old(v)@.len() as int)
                &&& forall|i: int|
                    0 <= i < old(v)@.len() ==> final(v)@[i] == old(v)@[#[trigger] p[i]]
                &&& forall|i: int, j: int|
                    0 <= i < j < old(v)@.len() && final(v)@[i].file@ == final(v)@[j].file@
                        && final(v)@[i].file_path@ == final(v)@[j].file_path@ ==> #[trigger] p[i]
                        < #[trigger] p[j]
            },
{
    v.sort_by(|a, b| (&a.file, &a.file_path).cmp(&(&b.file, &b.file_path)));
}

/// The complex rows of `v`, in order.
pub fn complex_files(v: &Vec<FileMetrics>) -> (r: Vec<FileMetrics>)
    ensures
        r@ == complex_rows(v@),
{
    let mut out: Vec<FileMetrics> = Vec::new();
    let mut i: usize = 0;
    while i < v.len()
        invariant
            i <= v@.len(),
            out@ == complex_rows(v@.subrange(0, i as int)),
        decreases v@.len() - i,
    {
        let ghost pre = v@.subrange(0, i as int + 1);
        assert(pre.drop_last() =~= v@.subrange(0, i as int));
        if v[i].metrics.is_complex {
            out.push(v[i].duplicate());
        }
        i = i + 1;
    }
    assert(v@.subrange(0, v@.len() as int) =~= v@);
    out
}

/// The metrics of each row.
fn metrics_column(v: &Vec<FileMetrics>) -> (r: Vec<Metrics>)
    ensures
        r@ == rows_metrics(v@),
{
    let mut out: Vec<Metrics> = Vec::new();
    let mut i: usize = 0;
    while i < v.len()
        invariant
            i <= v@.len(),
            out@ == rows_metrics(v@.subrange(0, i as int)),
        decreases v@.len() - i,
    {
        out.push(v[i].metrics);
        assert(rows_metrics(v@.subrange(0, i as int + 1)) =~= rows_metrics(v@.subrange(0, i as int)).push(v@[i as int].metrics));
        i = i + 1;
    }
    assert(v@.subrange(0, v@.len() as int) =~= v@);
    out
}

/// What a run in files mode produces.
pub struct FilesOutput {
    /// One row per scored file, by name, then PROJECT, AVG, MAX and MIN.
    pub metrics: Vec<FileMetrics>,
    /// The files that the report does not cover, sorted.
    pub files_ignored: Vec<String>,
    /// The complex files among the scored ones, in the order of `metrics`.
    pub complex_files: Vec<FileMetrics>,
    /// The project's coverage percentage, rounded to hundredths of a
    /// percent, in millionths.
    pub project_coverage: u128,
}

/// Whether the project row can be computed from `state`.
pub open spec fn project_fits(state: AggregationState) -> bool {
    state.comp_sum <= u32::MAX && state.sifis_plain_sum < NUMERATOR_LIMIT
        && state.sifis_quantized_sum < NUMERATOR_LIMIT
}

/// Builds the final result of a files run from the rows of the scored
/// files, the ignored files and the reduced state: rows sorted by name,
/// then the PROJECT row (recomputed from the sums), AVG, MAX and MIN (over
/// the scored rows only). Fails where a sum does not fit.
pub fn finalize_files(
    results: Vec<FileMetrics>,
    ignored: Vec<String>,
    state: &AggregationState,
    project_percent: Option<u64>,
) -> (r: Result<FilesOutput, Error>)
    requires
        state.wf(),
        valid_percent(project_percent),
    ensures
        r is Ok <==> sums_fit(rows_metrics(results@)) && project_fits(*state),
        r is Err ==> r == Err::<FilesOutput, Error>(Error::OverflowError()),
        r matches Ok(o) ==> {
            let n = results@.len() as int;
            let rows = o.metrics@.subrange(0, n);
            let (k, t) = project_coverage_pair(state@, project_percent);
            let project = project_spec(state@, k, t);
            &&& o.metrics@.len() == n + 4
            &&& rows.to_multiset() == results@.to_multiset()
            &&& forall|i: int, j: int|
                0 <= i < j < n ==> key_le(
                    (#[trigger] rows[i]).file@,
                    rows[i].file_path@,
                    (#[trigger] rows[j]).file@,
                    rows[j].file_path@,
                )
            &&& forall|i: int| n <= i < n + 4 ==> (#[trigger] o.metrics@[i]).file_path@ == "-"@
            &&& o.metrics@[n].metrics == project && o.metrics@[n].file@ == "PROJECT"@
            &&& o.metrics@[n + 1].metrics == avg_row(rows_metrics(results@))
                && o.metrics@[n + 1].file@ == "AVG"@
            &&& o.metrics@[n + 2].metrics == max_row(rows_metrics(results@))
                && o.metrics@[n + 2].file@ == "MAX"@
            &&& o.metrics@[n + 3].metrics == min_row(rows_metrics(results@))
                && o.metrics@[n + 3].file@ == "MIN"@
            &&& o.files_ignored@.to_multiset() == ignored@.to_multiset()
            &&& texts_sorted(texts(o.files_ignored@))
            &&& o.complex_files@ == complex_rows(rows)
            &&& o.project_coverage == rounded_percent(project.coverage as int)
        },
{
    let ghost input = results@;
    let ms = metrics_column(&results);
    let (avg, max, min) = get_cumulative_values(&ms)?;
    let project = get_project_metrics(state, project_percent)?;
    proof {
        let (k, t) = project_coverage_pair(state@, project_percent);
        lemma_percent_at_most_100(k, t);
    }
    let project_coverage = round_percent(project.coverage);
    let mut rows = results;
    sort_by_file(&mut rows);
    let mut files_ignored = ignored;
    sort_strings(&mut files_ignored);
    let complex = complex_files(&rows);
    let ghost sorted = rows@;
    rows.push(FileMetrics::project(project));
    rows.push(FileMetrics::avg(avg));
    rows.push(FileMetrics::max(max));
    rows.push(FileMetrics::min(min));
    assert(rows@.subrange(0, sorted.len() as int) =~= sorted);
    proof {
        vstd::seq_lib::to_multiset_len(sorted);
        vstd::seq_lib::to_multiset_len(input);
        assert(sorted.len() == input.len());
    }
    Ok(
        FilesOutput {
            metrics: rows,
            files_ignored,
            complex_files: complex,
            project_coverage,
        },
    )
}

/// The record of the `j`-th covered file of `files`.
pub open spec fn covered_record(map: CoverageMap, files: Seq<String>, j: int) -> CoverageRecord {
    map.records@[present_files(map.records@, files)[j].1 as int]
}

/// The line array of the `j`-th covered file.
pub open spec fn covered_lines(map: CoverageMap, files: Seq<String>, j: int, f: JsonFormat) -> Seq<
    CoverageLine,
> {
    lines_of(covered_record(map, files, j).lines@, f)
}

/// Whether the line array of every covered file is well formed.
pub open spec fn all_covered_convert(map: CoverageMap, files: Seq<String>, f: JsonFormat) -> bool {
    forall|j: int|
        0 <= j < present_files(map.records@, files).len() ==> all_convert(
            #[trigger] covered_record(map, files, j).lines@,
            f,
        )
}

/// The metrics of each covered file, `trees[j]` being the tree of the
/// `j`-th.
pub open spec fn covered_metrics(
    map: CoverageMap,
    files: Seq<String>,
    trees: Seq<ScopeTree>,
    f: JsonFormat,
    c: Complexity,
    t: ThresholdVector,
) -> Seq<Metrics> {
    Seq::new(
        present_files(map.records@, files).len(),
        |j: int|
            metrics_of(
                trees[j].nodes@,
                0,
                covered_lines(map, files, j, f),
                c,
                covered_record(map, files, j).percent,
                t,
            ),
    )
}

/// The sums that each covered file adds.
pub open spec fn covered_sums(
    map: CoverageMap,
    files: Seq<String>,
    trees: Seq<ScopeTree>,
    f: JsonFormat,
    c: Complexity,
) -> Seq<Totals> {
    Seq::new(
        present_files(map.records@, files).len(),
        |j: int| file_contribution(trees[j], covered_lines(map, files, j, f), c),
    )
}

/// Whether the project row can be computed from sums `a`.
pub open spec fn project_sums_fit(a: Totals) -> bool {
    a.5 <= u32::MAX && a.2 < NUMERATOR_LIMIT && a.3 < NUMERATOR_LIMIT
}

/// Scores a whole project in files mode. The files that the report does
/// not cover are ignored; `trees[j]` is the scope tree of the `j`-th file
/// that it covers (see `triage`). Fails with `ConversionError` where the
/// line array of a covered file is malformed, else with `OverflowError`
/// where a sum does not fit.
pub fn score_files(
    files: &Vec<String>,
    map: &CoverageMap,
    trees: &Vec<ScopeTree>,
    f: JsonFormat,
    c: Complexity,
    thresholds: &ThresholdVector,
    prefix: &str,
) -> (r: Result<FilesOutput, Error>)
    requires
        map.wf(),
        trees@.len() == present_files(map.records@, files@).len(),
        forall|j: int| 0 <= j < trees@.len() ==> (#[trigger] trees@[j]).wf(),
        forall|i: int| 0 <= i < files@.len() ==> (#[trigger] files@[i])@.len() < i64::MAX,
    ensures
        ({
            let ms = covered_metrics(*map, files@, trees@, f, c, *thresholds);
            let sums = total(covered_sums(*map, files@, trees@, f, c));
            &&& r is Ok <==> all_covered_convert(*map, files@, f) && fits(sums) && sums_fit(ms)
                && project_sums_fit(sums)
            &&& !all_covered_convert(*map, files@, f) ==> r == Err::<FilesOutput, Error>(
                Error::ConversionError(),
            )
            &&& all_covered_convert(*map, files@, f) && r is Err ==> r == Err::<
                FilesOutput,
                Error,
            >(Error::OverflowError())
        }),
        r matches Ok(o) ==> {
            let present = present_files(map.records@, files@);
            let n = present.len() as int;
            let ms = covered_metrics(*map, files@, trees@, f, c, *thresholds);
            let sums = total(covered_sums(*map, files@, trees@, f, c));
            let (k, t) = project_coverage_pair(sums, map.project_percent);
            let project = project_spec(sums, k, t);
            &&& o.files_ignored@.len() == absent_files(map.records@, files@).len()
            &&& forall|x: Seq<char>|
                texts(o.files_ignored@).contains(x) <==> #[trigger] absent_files(
                    map.records@,
                    files@,
                ).contains(x)
            &&& texts_sorted(texts(o.files_ignored@))
            &&& o.metrics@.len() == n + 4
            &&& forall|i: int|
                0 <= i < n ==> exists|j: int|
                    0 <= j < n && (#[trigger] o.metrics@[i]).metrics == ms[j]
                        && o.metrics@[i].file@ == file_name_of(files@[present[j].0 as int]@)
                        && o.metrics@[i].file_path@ == relative_of(
                        files@[present[j].0 as int]@,
                        prefix@,
                    )
            &&& o.metrics@[n].metrics == project
            &&& o.metrics@[n + 1].metrics == avg_row(ms)
            &&& o.metrics@[n + 2].metrics == max_row(ms)
            &&& o.metrics@[n + 3].metrics == min_row(ms)
            &&& o.project_coverage == rounded_percent(project.coverage as int)
        },
{
    let (present, absent) = triage(files, map);
    let ghost ms = covered_metrics(*map, files@, trees@, f, c, *thresholds);
    let ghost sums = covered_sums(*map, files@, trees@, f, c);
    let mut j: usize = 0;
    while j < present.len()
        invariant
            present@ == present_files(map.records@, files@),
            forall|k: int|
                0 <= k < present@.len() ==> {
                    let (i, rr) = #[trigger] present@[k];
                    &&& i < files@.len()
                    &&& rr < map.records@.len()
                    &&& rr as int == lookup(map.records@, files@[i as int]@)
                },
            j <= present@.len(),
            forall|k: int| 0 <= k < j ==> all_convert(#[trigger] covered_record(*map, files@, k).lines@, f),
        decreases present@.len() - j,
    {
        let (_, k) = present[j];
        if parse_coverage(&map.records[k].lines, f).is_err() {
            assert(!all_convert(covered_record(*map, files@, j as int).lines@, f));
            return Err(Error::ConversionError());
        }
        j = j + 1;
    }
    let mut results: Vec<FileMetrics> = Vec::new();
    let mut state = AggregationState::new();
    j = 0;
    while j < present.len()
        invariant
            map.wf(),
            trees@.len() == present@.len(),
            forall|t: int| 0 <= t < trees@.len() ==> (#[trigger] trees@[t]).wf(),
            forall|i: int| 0 <= i < files@.len() ==> (#[trigger] files@[i])@.len() < i64::MAX,
            present@ == present_files(map.records@, files@),
            forall|k: int|
                0 <= k < present@.len() ==> {
                    let (i, rr) = #[trigger] present@[k];
                    &&& i < files@.len()
                    &&& rr < map.records@.len()
                    &&& rr as int == lookup(map.records@, files@[i as int]@)
                },
            all_covered_convert(*map, files@, f),
            ms == covered_metrics(*map, files@, trees@, f, c, *thresholds),
            sums == covered_sums(*map, files@, trees@, f, c),
            j <= present@.len(),
            results@.len() == j,
            rows_metrics(results@) == ms.subrange(0, j as int),
            forall|t: int|
                0 <= t < j ==> (#[trigger] results@[t]).file@ == file_name_of(
                    files@[present@[t].0 as int]@,
                ) && results@[t].file_path@ == relative_of(files@[present@[t].0 as int]@, prefix@),
            state@ == total(sums.subrange(0, j as int)),
            state.wf(),
        decreases present@.len() - j,
    {
        let (i, k) = present[j];
        assert(all_convert(covered_record(*map, files@, j as int).lines@, f));
        let record = &map.records[k];
        let (row, contribution) = match process_file(&trees[j], record, f, c, thresholds, &files[i], prefix) {
            Ok(v) => v,
            Err(e) => {
                return Err(e);
            },
        };
        let ghost pre = sums.subrange(0, j as int + 1);
        assert(pre.drop_last() =~= sums.subrange(0, j as int));
        match state.merge(&contribution) {
            Ok(()) => {},
            Err(e) => {
                proof {
                    lemma_total_prefix(sums, j as int + 1);
                }
                return Err(e);
            },
        }
        results.push(row);
        assert(rows_metrics(results@) =~= ms.subrange(0, j as int + 1));
        j = j + 1;
    }
    assert(ms.subrange(0, ms.len() as int) =~= ms);
    assert(sums.subrange(0, sums.len() as int) =~= sums);
    let ghost input = results@;
    let out = finalize_files(results, absent, &state, map.project_percent);
    match out {
        Ok(o) => {
            proof {
                let n = input.len() as int;
                assert forall|i: int| 0 <= i < n implies exists|jj: int|
                    0 <= jj < n && (#[trigger] o.metrics@[i]).metrics == ms[jj]
                        && o.metrics@[i].file@ == file_name_of(files@[present@[jj].0 as int]@)
                        && o.metrics@[i].file_path@ == relative_of(
                        files@[present@[jj].0 as int]@,
                        prefix@,
                    ) by {
                    let rows = o.metrics@.subrange(0, n);
                    assert(rows[i] == o.metrics@[i]);
                    vstd::seq_lib::to_multiset_contains(rows, rows[i]);
                    vstd::seq_lib::to_multiset_contains(input, rows[i]);
                    let jj = choose|jj: int| 0 <= jj < input.len() && input[jj] == rows[i];
                    assert(rows_metrics(input)[jj] == ms[jj]);
                }
                let ig = o.files_ignored@;
                let ab = absent@;
                vstd::seq_lib::to_multiset_len(ig);
                vstd::seq_lib::to_multiset_len(ab);
                assert forall|x: Seq<char>|
                    texts(ig).contains(x) <==> #[trigger] absent_files(map.records@, files@).contains(
                        x,
                    ) by {
                    if texts(ig).contains(x) {
                        let a = choose|a: int| 0 <= a < ig.len() && texts(ig)[a] == x;
                        vstd::seq_lib::to_multiset_contains(ig, ig[a]);
                        vstd::seq_lib::to_multiset_contains(ab, ig[a]);
                        let b = choose|b: int| 0 <= b < ab.len() && ab[b] == ig[a];
                        assert(texts(ab)[b] == x);
                    }
                    if absent_files(map.records@, files@).contains(x) {
                        let b = choose|b: int| 0 <= b < ab.len() && texts(ab)[b] == x;
                        vstd::seq_lib::to_multiset_contains(ab, ab[b]);
                        vstd::seq_lib::to_multiset_contains(ig, ab[b]);
                        let a = choose|a: int| 0 <= a < ig.len() && ig[a] == ab[b];
                        assert(texts(ig)[a] == x);
                    }
                }
            }
            Ok(o)
        },
        Err(e) => Err(e),
    }
}

} // verus!
