use vstd::prelude::*;

use crate::error::Error;
use crate::utility::JsonFormat;

verus! {

/// One entry of a line array of a coverage report, as JSON wrote it.
#[derive(Debug, Clone, Copy, PartialEq, Eq, Structural)]
pub enum JsonEntry {
    /// `null`.
    Null,
    /// A non-negative integer.
    Unsigned(u64),
    /// A negative integer.
    Negative(i64),
    /// Anything else (a float, a string, an array, an object, a boolean).
    Other,
}

/// What the coverage report says of one source line.
#[derive(Debug, Clone, Copy, PartialEq, Eq, Structural)]
pub enum CoverageLine {
    /// The line holds no executable code.
    NotExecutable,
    /// The line is executable and ran this many times.
    Hits(u64),
}

/// The line that a report entry stands for in a dialect, or `None` where the
/// entry is malformed for that dialect.
pub open spec fn line_of(e: JsonEntry, f: JsonFormat) -> Option<CoverageLine> {
    match f {
        JsonFormat::Coveralls => match e {
            JsonEntry::Null => Some(CoverageLine::NotExecutable),
            JsonEntry::Unsigned(n) => Some(CoverageLine::Hits(n)),
            _ => None,
        },
        JsonFormat::Covdir => match e {
            JsonEntry::Negative(n) => if n == -1 {
                Some(CoverageLine::NotExecutable)
            } else {
                None
            },
            JsonEntry::Unsigned(n) => if n <= i64::MAX {
                Some(CoverageLine::Hits(n))
            } else {
                None
            },
            _ => None,
        },
    }
}

/// Whether every entry is well formed for the dialect.
pub open spec fn all_convert(s: Seq<JsonEntry>, f: JsonFormat) -> bool {
    forall|i: int| 0 <= i < s.len() ==> (#[trigger] line_of(s[i], f)) is Some
}

/// A line is covered when it is executable and ran at least once.
pub open spec fn is_covered(l: CoverageLine) -> bool {
    match l {
        CoverageLine::Hits(n) => n > 0,
        CoverageLine::NotExecutable => false,
    }
}

/// Whether the 1-based line number `line` lies in `[start, end]`.
pub open spec fn in_range(line: int, start: int, end: int) -> bool {
    start <= line <= end
}

/// Number of covered lines of `lines` whose 1-based number lies in
/// `[start, end]`.
pub open spec fn covered_count(lines: Seq<CoverageLine>, start: int, end: int) -> nat
    decreases lines.len(),
{
    if lines.len() == 0 {
        0
    } else {
        covered_count(lines.drop_last(), start, end) + if in_range(lines.len() as int, start, end)
            && is_covered(lines.last()) {
            1nat
        } else {
            0nat
        }
    }
}

/// Number of executable lines of `lines` whose 1-based number lies in
/// `[start, end]`.
pub open spec fn executable_count(lines: Seq<CoverageLine>, start: int, end: int) -> nat
    decreases lines.len(),
{
    if lines.len() == 0 {
        0
    } else {
        executable_count(lines.drop_last(), start, end) + if in_range(
            lines.len() as int,
            start,
            end,
        ) && lines.last() is Hits {
            1nat
        } else {
            0nat
        }
    }
}

/// A line is never covered without being executable.
pub proof fn lemma_covered_le_executable(lines: Seq<CoverageLine>, start: int, end: int)
    ensures
        covered_count(lines, start, end) <= executable_count(lines, start, end),
        executable_count(lines, start, end) <= lines.len(),
    decreases lines.len(),
{
    if lines.len() > 0 {
        lemma_covered_le_executable(lines.drop_last(), start, end);
    }
}

/// Reads one report entry in the given dialect.
pub fn parse_line(e: JsonEntry, f: JsonFormat) -> (r: Result<CoverageLine, Error>)
    ensures
        match line_of(e, f) {
            Some(l) => r == Ok::<CoverageLine, Error>(l),
            None => r == Err::<CoverageLine, Error>(Error::ConversionError()),
        },
{
    match f {
        JsonFormat::Coveralls => match e {
            JsonEntry::Null => Ok(CoverageLine::NotExecutable),
            JsonEntry::Unsigned(n) => Ok(CoverageLine::Hits(n)),
            _ => Err(Error::ConversionError()),
        },
        JsonFormat::Covdir => match e {
            JsonEntry::Negative(n) => if n == -1 {
                Ok(CoverageLine::NotExecutable)
            } else {
                Err(Error::ConversionError())
            },
            JsonEntry::Unsigned(n) => if n <= i64::MAX as u64 {
                Ok(CoverageLine::Hits(n))
            } else {
                Err(Error::ConversionError())
            },
            _ => Err(Error::ConversionError()),
        },
    }
}

/// Reads a whole line array in the given dialect; fails on the first
/// malformed entry.
pub fn parse_coverage(entries: &Vec<JsonEntry>, f: JsonFormat) -> (r: Result<
    Vec<CoverageLine>,
    Error,
>)
    ensures
        r is Ok <==> all_convert(entries@, f),
        r is Err ==> r == Err::<Vec<CoverageLine>, Error>(Error::ConversionError()),
        r matches Ok(v) ==> v@.len() == entries@.len() && forall|i: int|
            0 <= i < v@.len() ==> line_of(#[trigger] entries@[i], f) == Some(v@[i]),
{
    let mut out: Vec<CoverageLine> = Vec::new();
    let mut i: usize = 0;
    while i < entries.len()
        invariant
            i <= entries@.len(),
            out@.len() == i,
            forall|j: int| 0 <= j < i ==> line_of(#[trigger] entries@[j], f) == Some(out@[j]),
        decreases entries@.len() - i,
    {
        match parse_line(entries[i], f) {
            Ok(l) => out.push(l),
            Err(e) => {
                assert(line_of(entries@[i as int], f) is None);
                return Err(e);
            },
        }
        i = i + 1;
    }
    assert forall|j: int| 0 <= j < entries@.len() implies (#[trigger] line_of(
        entries@[j],
        f,
    )) is Some by {
        assert(line_of(entries@[j], f) == Some(out@[j]));
    }
    Ok(out)
}

/// Counts the covered and the executable lines whose 1-based number lies in
/// `[start, end]`.
pub fn get_covered_lines(lines: &Vec<CoverageLine>, start: usize, end: usize) -> (r: (u64, u64))
    ensures
        r.0 == covered_count(lines@, start as int, end as int),
        r.1 == executable_count(lines@, start as int, end as int),
{
    let mut covered: u64 = 0;
    let mut total: u64 = 0;
    let mut i: usize = 0;
    while i < lines.len()
        invariant
            i <= lines@.len(),
            covered == covered_count(lines@.subrange(0, i as int), start as int, end as int),
            total == executable_count(lines@.subrange(0, i as int), start as int, end as int),
            total <= i,
            covered <= total,
        decreases lines@.len() - i,
    {
        let ghost pre = lines@.subrange(0, i as int + 1);
        assert(pre.drop_last() =~= lines@.subrange(0, i as int));
        let n = i + 1;
        match lines[i] {
            CoverageLine::Hits(h) => {
                if start <= n && n <= end {
                    total = total + 1;
                    if h > 0 {
                        covered = covered + 1;
                    }
                }
            },
            CoverageLine::NotExecutable => {},
        }
        i = i + 1;
    }
    assert(lines@.subrange(0, lines@.len() as int) =~= lines@);
    (covered, total)
}

} // verus!
