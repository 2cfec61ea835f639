use vstd::prelude::*;

use crate::coverage::JsonEntry;
use crate::error::Error;
use crate::metrics::PERCENT_HUNDREDTHS;
use crate::utility::{has_source_extension, is_source_path, join, join_path, texts};

verus! {

/// The coverage that a report gives for one source file.
pub struct CoverageRecord {
    /// The file's path, joined under the project folder.
    pub path: String,
    /// The file's line array as the report wrote it.
    pub lines: Vec<JsonEntry>,
    /// The file's coverage in hundredths of a percent, where the report
    /// publishes one (covdir).
    pub percent: Option<u64>,
}

/// All the coverage of a report, by file path.
pub struct CoverageMap {
    pub records: Vec<CoverageRecord>,
    /// The project's coverage in hundredths of a percent, where the report
    /// publishes one (covdir).
    pub project_percent: Option<u64>,
}

/// Whether a percentage in hundredths is at most 100%.
pub open spec fn valid_percent(p: Option<u64>) -> bool {
    p matches Some(x) ==> x <= PERCENT_HUNDREDTHS
}

/// Index of the last record for `path`, or -1.
pub open spec fn lookup(records: Seq<CoverageRecord>, path: Seq<char>) -> int
    decreases records.len(),
{
    if records.len() == 0 {
        -1
    } else if records.last().path@ == path {
        records.len() - 1
    } else {
        lookup(records.drop_last(), path)
    }
}

impl CoverageMap {
    /// Every percentage is at most 100%.
    pub open spec fn wf(&self) -> bool {
        &&& valid_percent(self.project_percent)
        &&& forall|i: int| 0 <= i < self.records@.len() ==> valid_percent(#[trigger] self.records@[i].percent)
    }

    /// A map of `records`; a percentage above 100% is malformed. Where two
    /// records share a path, the later one counts.
    pub fn new(records: Vec<CoverageRecord>, project_percent: Option<u64>) -> (r: Result<
        CoverageMap,
        Error,
    >)
        ensures
            r is Ok <==> valid_percent(project_percent) && forall|i: int|
                0 <= i < records@.len() ==> valid_percent(#[trigger] records@[i].percent),
            r is Err ==> r == Err::<CoverageMap, Error>(Error::ConversionError()),
            r matches Ok(m) ==> m.wf() && m.records@ == records@ && m.project_percent
                == project_percent,
    {
        if let Some(p) = project_percent {
            if p > PERCENT_HUNDREDTHS {
                return Err(Error::ConversionError());
            }
        }
        let mut i: usize = 0;
        while i < records.len()
            invariant
                i <= records@.len(),
                forall|j: int| 0 <= j < i ==> valid_percent(#[trigger] records@[j].percent),
            decreases records@.len() - i,
        {
            if let Some(p) = records[i].percent {
                if p > PERCENT_HUNDREDTHS {
                    return Err(Error::ConversionError());
                }
            }
            i = i + 1;
        }
        Ok(CoverageMap { records, project_percent })
    }

    /// Index of the record for `path`, if the report covers it.
    pub fn find(&self, path: &String) -> (r: Option<usize>)
        ensures
            r is None <==> lookup(self.records@, path@) == -1,
            r matches Some(i) ==> i == lookup(self.records@, path@) && i < self.records@.len(),
    {
        let mut i: usize = self.records.len();
        assert(self.records@.subrange(0, i as int) =~= self.records@);
        while i > 0
            invariant
                i <= self.records@.len(),
                lookup(self.records@, path@) == lookup(self.records@.subrange(0, i as int), path@),
            decreases i,
        {
            let ghost pre = self.records@.subrange(0, i as int);
            assert(pre.drop_last() =~= self.records@.subrange(0, i - 1));
            if self.records[i - 1].path == *path {
                return Some(i - 1);
            }
            i = i - 1;
        }
        None
    }
}

impl CoverageRecord {
    /// The record of one entry of a coveralls report: its `name` joined
    /// under the project folder `prefix`, and its line array.
    pub fn coveralls(prefix: &str, name: &str, lines: Vec<JsonEntry>) -> (r: CoverageRecord)
        ensures
            r.path@ == join_path(prefix@, name@),
            r.lines@ == lines@,
            r.percent is None,
    {
        CoverageRecord { path: join(prefix, name), lines, percent: None }
    }

    /// The record of one node of a covdir report, found under key `key` in
    /// directory `dir` (its `/`-joined path inside the report). Only nodes
    /// whose `name` is a source file give a record, and such a node must
    /// carry a line array.
    pub fn covdir(
        prefix: &str,
        dir: &str,
        key: &str,
        name: &str,
        percent: u64,
        lines: Option<Vec<JsonEntry>>,
    ) -> (r: Result<Option<CoverageRecord>, Error>)
        requires
            name@.len() < i64::MAX,
        ensures
            !is_source_path(name@) ==> r == Ok::<Option<CoverageRecord>, Error>(None),
            is_source_path(name@) && lines is None ==> r == Err::<Option<CoverageRecord>, Error>(
                Error::ConversionError(),
            ),
            is_source_path(name@) && lines is Some ==> (r matches Ok(Some(rec)) && rec.path@
                == join_path(prefix@, join_path(dir@, key@)) && rec.lines@ == lines->0@
                && rec.percent == Some(percent)),
    {
        if !has_source_extension(name) {
            return Ok(None);
        }
        match lines {
            None => Err(Error::ConversionError()),
            Some(lines) => {
                let inner = join(dir, key);
                let path = join(prefix, inner.as_str());
                Ok(Some(CoverageRecord { path, lines, percent: Some(percent) }))
            },
        }
    }
}

/// The paths among `files` that the report does not cover, in order.
pub open spec fn absent_files(records: Seq<CoverageRecord>, files: Seq<String>) -> Seq<Seq<char>>
    decreases files.len(),
{
    if files.len() == 0 {
        Seq::empty()
    } else {
        let rest = absent_files(records, files.drop_last());
        if lookup(records, files.last()@) == -1 {
            rest.push(files.last()@)
        } else {
            rest
        }
    }
}

/// The pairs (index in `files`, index of its record) of the files that the
/// report covers, in order.
pub open spec fn present_files(records: Seq<CoverageRecord>, files: Seq<String>) -> Seq<(usize, usize)>
    decreases files.len(),
{
    if files.len() == 0 {
        Seq::empty()
    } else {
        let rest = present_files(records, files.drop_last());
        let i = lookup(records, files.last()@);
        if i == -1 {
            rest
        } else {
            rest.push(((files.len() - 1) as usize, i as usize))
        }
    }
}

/// A file is ignored exactly when the report does not cover it, and every
/// file that is scored is one the report covers, paired with its record.
pub proof fn lemma_triage_partition(records: Seq<CoverageRecord>, files: Seq<String>)
    requires
        files.len() <= usize::MAX,
        records.len() <= usize::MAX,
    ensures
        forall|i: int|
            0 <= i < files.len() ==> (lookup(records, (#[trigger] files[i])@) == -1
                <==> absent_files(records, files).contains(files[i]@)),
        forall|k: int|
            0 <= k < present_files(records, files).len() ==> {
                let (i, r) = #[trigger] present_files(records, files)[k];
                &&& i < files.len()
                &&& r as int == lookup(records, files[i as int]@)
                &&& lookup(records, files[i as int]@) != -1
            },
    decreases files.len(),
{
    if files.len() > 0 {
        let init = files.drop_last();
        lemma_triage_partition(records, init);
        lemma_lookup_bounds(records, files.last()@);
        let rest = absent_files(records, init);
        let absent = absent_files(records, files);
        assert forall|i: int|
            0 <= i < files.len() implies (lookup(records, (#[trigger] files[i])@) == -1
            <==> absent.contains(files[i]@)) by {
            if i < files.len() - 1 {
                assert(files[i] == init[i]);
                if lookup(records, files[i]@) == -1 {
                    assert(rest.contains(files[i]@));
                    let m = choose|m: int| 0 <= m < rest.len() && rest[m] == files[i]@;
                    assert(absent[m] == files[i]@);
                }
                if absent.contains(files[i]@) {
                    let m = choose|m: int| 0 <= m < absent.len() && absent[m] == files[i]@;
                    if m < rest.len() {
                        assert(rest[m] == files[i]@);
                        assert(rest.contains(files[i]@));
                    } else {
                        assert(files[i]@ == files.last()@);
                    }
                }
            } else {
                if lookup(records, files[i]@) == -1 {
                    assert(absent[absent.len() - 1] == files[i]@);
                } else {
                    assert(absent == rest);
                    if rest.contains(files[i]@) {
                        let m = choose|m: int| 0 <= m < rest.len() && rest[m] == files[i]@;
                        lemma_absent_all_absent(records, init, m);
                    }
                }
            }
        }
        let pre = present_files(records, init);
        let all = present_files(records, files);
        assert forall|k: int| 0 <= k < all.len() implies {
            let (i, r) = #[trigger] all[k];
            &&& i < files.len()
            &&& r as int == lookup(records, files[i as int]@)
            &&& lookup(records, files[i as int]@) != -1
        } by {
            if k < pre.len() {
                assert(all[k] == pre[k]);
                assert(files[pre[k].0 as int] == init[pre[k].0 as int]);
            } else {
                let l = lookup(records, files.last()@);
                assert(l != -1);
                assert(all[k] == ((files.len() - 1) as usize, l as usize));
            }
        }
    }
}

/// A lookup gives -1 or the index of a record.
pub proof fn lemma_lookup_bounds(records: Seq<CoverageRecord>, path: Seq<char>)
    ensures
        -1 <= lookup(records, path) < records.len(),
    decreases records.len(),
{
    if records.len() > 0 && records.last().path@ != path {
        lemma_lookup_bounds(records.drop_last(), path);
    }
}

proof fn lemma_absent_all_absent(records: Seq<CoverageRecord>, files: Seq<String>, m: int)
    requires
        0 <= m < absent_files(records, files).len(),
    ensures
        lookup(records, absent_files(records, files)[m]) == -1,
    decreases files.len(),
{
    let rest = absent_files(records, files.drop_last());
    if m < rest.len() {
        lemma_absent_all_absent(records, files.drop_last(), m);
    }
}

/// Splits `files` into those the report covers, each with the index of its
/// record, and those it does not, which are ignored.
pub fn triage(files: &Vec<String>, map: &CoverageMap) -> (r: (Vec<(usize, usize)>, Vec<String>))
    ensures
        r.0@ == present_files(map.records@, files@),
        texts(r.1@) == absent_files(map.records@, files@),
        forall|k: int|
            0 <= k < r.0@.len() ==> {
                let (i, rr) = #[trigger] r.0@[k];
                &&& i < files@.len()
                &&& rr < map.records@.len()
                &&& rr as int == lookup(map.records@, files@[i as int]@)
            },
{
    let mut present: Vec<(usize, usize)> = Vec::new();
    let mut absent: Vec<String> = Vec::new();
    let mut i: usize = 0;
    while i < files.len()
        invariant
            i <= files@.len(),
            present@ == present_files(map.records@, files@.subrange(0, i as int)),
            forall|k: int|
                0 <= k < present@.len() ==> {
                    let (a, rr) = #[trigger] present@[k];
                    &&& a < i
                    &&& rr < map.records@.len()
                    &&& rr as int == lookup(map.records@, files@[a as int]@)
                },
            texts(absent@) == absent_files(map.records@, files@.subrange(0, i as int)),
        decreases files@.len() - i,
    {
        let ghost pre = files@.subrange(0, i as int + 1);
        assert(pre.drop_last() =~= files@.subrange(0, i as int));
        match map.find(&files[i]) {
            None => {
                let ghost before = absent@;
                let f = files[i].clone();
                absent.push(f);
                assert(texts(absent@) =~= texts(before).push(files@[i as int]@));
            },
            Some(k) => {
                present.push((i, k));
            },
        }
        i = i + 1;
    }
    assert(files@.subrange(0, files@.len() as int) =~= files@);
    (present, absent)
}

} // verus!
