use vstd::prelude::*;
use vstd::string::StringExecFns;
use vstd::string::StrSliceExecFns;

verus! {

/// Which complexity measure weighs the lines.
#[derive(Debug, Clone, Copy, PartialEq, Eq, Structural)]
pub enum Complexity {
    /// Cyclomatic complexity.
    Cyclomatic,
    /// Cognitive complexity.
    Cognitive,
}

impl Complexity {
    /// Name of the measure used when none is chosen.
    pub fn default() -> (r: &'static str)
        ensures
            r@ == "cyclomatic"@,
    {
        "cyclomatic"
    }
}

/// The two dialects of coverage report.
#[derive(Debug, Clone, Copy, PartialEq, Eq, Structural)]
pub enum JsonFormat {
    /// Hierarchical report: a tree of directories with a percentage per node;
    /// a line that is not executable is written `-1`.
    Covdir,
    /// Flat report: one line array per file; a line that is not executable
    /// is written `null`.
    Coveralls,
}

impl JsonFormat {
    /// Name of the dialect used when none is chosen.
    pub fn default() -> (r: &'static str)
        ensures
            r@ == "coveralls"@,
    {
        "coveralls"
    }
}

/// Granularity of the analysis.
#[derive(Debug, Clone, Copy, PartialEq, Eq, Structural)]
pub enum Mode {
    /// One row per file.
    Files,
    /// One row per file, each with a row per function.
    Functions,
}

/// The file extensions of the languages that are analyzed.
pub open spec fn is_source_extension(e: Seq<char>) -> bool {
    e == "rs"@ || e == "cpp"@ || e == "c"@ || e == "js"@ || e == "java"@ || e == "py"@
        || e == "tsx"@ || e == "ts"@ || e == "jsm"@
}

/// Position of the last `c` in `s`, or -1.
pub open spec fn last_index_of(s: Seq<char>, c: char) -> int
    decreases s.len(),
{
    if s.len() == 0 {
        -1
    } else if s.last() == c {
        s.len() - 1
    } else {
        last_index_of(s.drop_last(), c)
    }
}

/// The last component of a `/`-separated path.
pub open spec fn file_name_of(p: Seq<char>) -> Seq<char> {
    p.subrange(last_index_of(p, '/') + 1, p.len() as int)
}

/// The extension of a path: what follows the last `.` of its file name,
/// unless that dot is the name's first character or there is none.
pub open spec fn extension_of(p: Seq<char>) -> Option<Seq<char>> {
    let f = file_name_of(p);
    let d = last_index_of(f, '.');
    if d <= 0 {
        None
    } else {
        Some(f.subrange(d + 1, f.len() as int))
    }
}

/// Whether a path names a file in one of the analyzed languages.
pub open spec fn is_source_path(p: Seq<char>) -> bool {
    match extension_of(p) {
        Some(e) => is_source_extension(e),
        None => false,
    }
}

/// `name` joined under the directory `prefix`, as a path.
pub open spec fn join_path(prefix: Seq<char>, name: Seq<char>) -> Seq<char> {
    if name.len() > 0 && name[0] == '/' {
        name
    } else if prefix.len() == 0 {
        name
    } else if prefix.last() == '/' {
        prefix + name
    } else {
        prefix + "/"@ + name
    }
}

proof fn lemma_last_index_bounds(s: Seq<char>, c: char)
    ensures
        -1 <= last_index_of(s, c) < s.len(),
        last_index_of(s, c) >= 0 ==> s[last_index_of(s, c)] == c,
    decreases s.len(),
{
    if s.len() > 0 && s.last() != c {
        lemma_last_index_bounds(s.drop_last(), c);
    }
}

/// Position of the last `c` in `s`, or -1.
fn find_last(s: &str, c: char) -> (r: i64)
    requires
        s@.len() < i64::MAX,
    ensures
        r == last_index_of(s@, c),
{
    let n = s.unicode_len();
    let mut i: usize = n;
    assert(s@.subrange(0, n as int) =~= s@);
    while i > 0
        invariant
            i <= n == s@.len(),
            n < i64::MAX,
            last_index_of(s@, c) == last_index_of(s@.subrange(0, i as int), c),
        decreases i,
    {
        let ch = s.get_char(i - 1);
        let ghost pre = s@.subrange(0, i as int);
        assert(pre.drop_last() =~= s@.subrange(0, i - 1));
        if ch == c {
            return (i - 1) as i64;
        }
        i = i - 1;
    }
    -1
}

/// Whether `e` is the extension of an analyzed language.
pub fn check_ext(e: &str) -> (r: bool)
    ensures
        r == is_source_extension(e@),
{
    proof {
        reveal_strlit("rs");
        reveal_strlit("cpp");
        reveal_strlit("c");
        reveal_strlit("js");
        reveal_strlit("java");
        reveal_strlit("py");
        reveal_strlit("tsx");
        reveal_strlit("ts");
        reveal_strlit("jsm");
    }
    let s = String::from_str(e);
    s == String::from_str("rs") || s == String::from_str("cpp") || s == String::from_str("c")
        || s == String::from_str("js") || s == String::from_str("java") || s == String::from_str(
        "py",
    ) || s == String::from_str("tsx") || s == String::from_str("ts") || s == String::from_str(
        "jsm",
    )
}

/// Whether `p` names a file in one of the analyzed languages.
pub fn has_source_extension(p: &str) -> (r: bool)
    requires
        p@.len() < i64::MAX,
    ensures
        r == is_source_path(p@),
{
    let n = p.unicode_len();
    let slash = find_last(p, '/');
    proof {
        lemma_last_index_bounds(p@, '/');
    }
    let name = p.substring_char((slash + 1) as usize, n);
    assert(name@ == file_name_of(p@));
    let dot = find_last(name, '.');
    proof {
        lemma_last_index_bounds(name@, '.');
    }
    if dot <= 0 {
        false
    } else {
        let m = name.unicode_len();
        let ext = name.substring_char((dot + 1) as usize, m);
        check_ext(ext)
    }
}

/// `name` joined under the directory `prefix`.
pub fn join(prefix: &str, name: &str) -> (r: String)
    ensures
        r@ == join_path(prefix@, name@),
{
    proof {
        reveal_strlit("/");
    }
    let n = name.unicode_len();
    if n > 0 && name.get_char(0) == '/' {
        return String::from_str(name);
    }
    let m = prefix.unicode_len();
    if m == 0 {
        String::from_str(name)
    } else if prefix.get_char(m - 1) == '/' {
        String::from_str(prefix).concat(name)
    } else {
        String::from_str(prefix).concat("/").concat(name)
    }
}

/// What is left of `path` once as many characters as `prefix` has are
/// dropped from its front: the path relative to the project folder.
pub open spec fn relative_of(path: Seq<char>, prefix: Seq<char>) -> Seq<char> {
    if prefix.len() <= path.len() {
        path.subrange(prefix.len() as int, path.len() as int)
    } else {
        Seq::empty()
    }
}

/// The last component of `p`.
pub fn file_name(p: &str) -> (r: String)
    requires
        p@.len() < i64::MAX,
    ensures
        r@ == file_name_of(p@),
{
    let n = p.unicode_len();
    let slash = find_last(p, '/');
    proof {
        lemma_last_index_bounds(p@, '/');
    }
    String::from_str(p.substring_char((slash + 1) as usize, n))
}

/// `path` relative to the project folder `prefix`.
pub fn relative_path(path: &str, prefix: &str) -> (r: String)
    ensures
        r@ == relative_of(path@, prefix@),
{
    let n = path.unicode_len();
    let m = prefix.unicode_len();
    if m <= n {
        String::from_str(path.substring_char(m, n))
    } else {
        String::new()
    }
}

/// The order of `str`: lexicographic, character by character.
pub open spec fn text_le(a: Seq<char>, b: Seq<char>) -> bool
    decreases a.len(),
{
    if a.len() == 0 {
        true
    } else if b.len() == 0 {
        false
    } else if a[0] != b[0] {
        (a[0] as u32) < (b[0] as u32)
    } else {
        text_le(a.drop_first(), b.drop_first())
    }
}

/// The text of each string.
pub open spec fn texts(s: Seq<String>) -> Seq<Seq<char>> {
    s.map_values(|x: String| x@)
}

/// Whether texts are in ascending order.
pub open spec fn texts_sorted(s: Seq<Seq<char>>) -> bool {
    forall|i: int, j: int| 0 <= i < j < s.len() ==> text_le(#[trigger] s[i], #[trigger] s[j])
}

/// The order of rows by name, then by path.
pub open spec fn key_le(a_name: Seq<char>, a_path: Seq<char>, b_name: Seq<char>, b_path: Seq<char>) -> bool {
    if a_name == b_name {
        text_le(a_path, b_path)
    } else {
        text_le(a_name, b_name)
    }
}

/// Whether `p` is a permutation of the positions `0..n`.
pub open spec fn is_permutation(p: Seq<int>, n: int) -> bool {
    &&& p.len() == n
    &&& forall|i: int| 0 <= i < n ==> 0 <= #[trigger] p[i] < n
    &&& forall|i: int, j: int| 0 <= i < j < n ==> #[trigger] p[i] != #[trigger] p[j]
}

/// Relies on `slice::sort` for `String`: the result is a permutation of the
/// input in ascending order of `str`'s `Ord`, lexicographic by bytes, which
/// for UTF-8 is lexicographic by code points (`text_le`).
#[verifier::external_body]
pub(crate) fn sort_strings(v: &mut Vec<String>)
    ensures
        final(v)@.to_multiset() == old(v)@.to_multiset(),
        texts_sorted(texts(final(v)@)),
{
    v.sort();
}

/// How many chunks `len` items make for `n` workers: `n`, or `len` where
/// there are fewer items than workers.
pub open spec fn chunk_count(len: int, n: int) -> int {
    if len < n {
        len
    } else {
        n
    }
}

/// Length of chunk `i`: `len / n`, plus one for each of the first
/// `len % n` chunks.
pub open spec fn chunk_len(len: int, n: int, i: int) -> int {
    len / n + if i < len % n {
        1int
    } else {
        0int
    }
}

/// Position in the file list where chunk `i` starts.
pub open spec fn chunk_start(len: int, n: int, i: int) -> int {
    i * (len / n) + if i < len % n {
        i
    } else {
        len % n
    }
}

proof fn lemma_chunk_step(len: int, n: int, i: int)
    requires
        0 <= len,
        0 < n,
        0 <= i < chunk_count(len, n),
    ensures
        chunk_start(len, n, i + 1) == chunk_start(len, n, i) + chunk_len(len, n, i),
        chunk_start(len, n, i + 1) <= len,
{
    let q = len / n;
    let m = len % n;
    assert((i + 1) * q == i * q + q) by (nonlinear_arith);
    assert(len == n * q + m && 0 <= m < n && q >= 0) by (nonlinear_arith)
        requires
            q == len / n,
            m == len % n,
            0 <= len,
            0 < n,
    ;
    if len < n {
        assert(q == 0) by (nonlinear_arith)
            requires
                q == len / n,
                0 <= len < n,
        ;
        assert((i + 1) * q == 0) by (nonlinear_arith)
            requires
                q == 0,
        ;
    } else {
        assert((i + 1) * q <= n * q) by (nonlinear_arith)
            requires
                i + 1 <= n,
                q >= 0,
        ;
    }
}

/// Splits `files` among `n_threads` workers into contiguous chunks, in
/// order: `n_threads` chunks whose lengths differ by at most one (the
/// longer ones first), or one chunk per file where there are fewer files
/// than workers. Together the chunks hold every file once.
pub fn chunk_vector(files: Vec<String>, n_threads: usize) -> (r: Vec<Vec<String>>)
    requires
        n_threads > 0,
    ensures
        ({
            let len = files@.len() as int;
            let n = n_threads as int;
            &&& r@.len() == chunk_count(len, n)
            &&& forall|i: int|
                0 <= i < r@.len() ==> (#[trigger] r@[i])@.len() == chunk_len(len, n, i)
                    && chunk_start(len, n, i) + r@[i]@.len() <= len
            &&& forall|i: int, k: int|
                0 <= i < r@.len() && 0 <= k < r@.len() ==> (#[trigger] r@[i])@.len() <= (
                #[trigger] r@[k])@.len() + 1
            &&& r@.len() > 0 ==> chunk_start(len, n, r@.len() - 1) + r@[r@.len() - 1]@.len()
                == len
            &&& forall|i: int, j: int|
                0 <= i < r@.len() && 0 <= j < r@[i]@.len() ==> (#[trigger] r@[i]@[j])
                    == files@[chunk_start(len, n, i) + j]
        }),
{
    let len = files.len();
    let q = len / n_threads;
    let m = len % n_threads;
    let count: usize = if len < n_threads {
        len
    } else {
        n_threads
    };
    let ghost li = len as int;
    let ghost ni = n_threads as int;
    let mut out: Vec<Vec<String>> = Vec::new();
    let mut start: usize = 0;
    let mut i: usize = 0;
    proof {
        assert(0 * (li / ni) == 0);
        assert(li % ni >= 0) by (nonlinear_arith)
            requires
                li >= 0,
                ni > 0,
        ;
    }
    while i < count
        invariant
            len == files@.len(),
            li == len,
            ni == n_threads,
            n_threads > 0,
            q == len / n_threads,
            m == len % n_threads,
            count == chunk_count(li, ni),
            i <= count,
            out@.len() == i,
            start == chunk_start(li, ni, i as int),
            start <= len,
            forall|k: int|
                0 <= k < out@.len() ==> (#[trigger] out@[k])@.len() == chunk_len(li, ni, k)
                    && chunk_start(li, ni, k) + out@[k]@.len() <= len,
            forall|k: int, j: int|
                0 <= k < out@.len() && 0 <= j < out@[k]@.len() ==> (#[trigger] out@[k]@[j])
                    == files@[chunk_start(li, ni, k) + j],
        decreases count - i,
    {
        proof {
            lemma_chunk_step(li, ni, i as int);
        }
        let size: usize = if i < m {
            q + 1
        } else {
            q
        };
        let end: usize = start + size;
        let mut chunk: Vec<String> = Vec::new();
        let mut j: usize = start;
        while j < end
            invariant
                start <= j <= end <= len == files@.len(),
                chunk@.len() == j - start,
                forall|t: int| 0 <= t < chunk@.len() ==> chunk@[t] == files@[start + t],
            decreases end - j,
        {
            chunk.push(files[j].clone());
            j = j + 1;
        }
        let ghost before = out@;
        let ghost piece = chunk@;
        out.push(chunk);
        proof {
            assert forall|k: int|
                0 <= k < out@.len() implies (#[trigger] out@[k])@.len() == chunk_len(li, ni, k)
                && chunk_start(li, ni, k) + out@[k]@.len() <= len by {
                if k < i {
                    assert(out@[k] == before[k]);
                }
            }
            assert forall|k: int, j: int|
                0 <= k < out@.len() && 0 <= j < out@[k]@.len() implies (#[trigger] out@[k]@[j])
                == files@[chunk_start(li, ni, k) + j] by {
                if k < i {
                    assert(out@[k] == before[k]);
                    assert(before[k]@[j] == files@[chunk_start(li, ni, k) + j]);
                } else {
                    assert(out@[k]@ == piece);
                    assert(piece[j] == files@[start + j]);
                }
            }
        }
        start = end;
        i = i + 1;
    }
    proof {
        if count > 0 {
            lemma_chunk_step(li, ni, count - 1);
            let q = li / ni;
            let m = li % ni;
            assert(li == ni * q + m && 0 <= m < ni) by (nonlinear_arith)
                requires
                    q == li / ni,
                    m == li % ni,
                    0 <= li,
                    0 < ni,
            ;
            if li < ni {
                assert(q == 0) by (nonlinear_arith)
                    requires
                        q == li / ni,
                        0 <= li < ni,
                ;
                assert((count - 1) * q == 0) by (nonlinear_arith)
                    requires
                        q == 0,
                ;
            } else {
                assert((count - 1) * q + q == ni * q) by (nonlinear_arith)
                    requires
                        count == ni,
                ;
            }
        }
        assert forall|a: int, b: int|
            0 <= a < out@.len() && 0 <= b < out@.len() implies (#[trigger] out@[a])@.len() <= (
            #[trigger] out@[b])@.len() + 1 by {
        }
    }
    out
}

} // verus!
