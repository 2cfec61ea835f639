use vstd::prelude::*;
use vstd::string::StringExecFns;

use crate::error::Error;
use crate::utility::Complexity;

verus! {

/// What kind of lexical region a scope is.
#[derive(Debug, Clone, Copy, PartialEq, Eq, Structural)]
pub enum ScopeKind {
    /// The whole file.
    File,
    /// A function, method or closure.
    Function,
    /// Any other block that opens a scope (an impl, a class, a namespace).
    Other,
}

/// One scope of a file, with the measures that the structural analysis
/// computed for it. Lines are 1-based and `[start_line, end_line]` is
/// inclusive.
pub struct ScopeNode {
    /// Its name, where the analysis gave one.
    pub name: Option<String>,
    pub kind: ScopeKind,
    pub start_line: usize,
    pub end_line: usize,
    /// Cyclomatic complexity of this scope alone.
    pub cyclomatic: u32,
    /// Cyclomatic complexity of this scope and all scopes nested in it.
    pub cyclomatic_sum: u32,
    /// Cognitive complexity of this scope alone.
    pub cognitive: u32,
    /// Cognitive complexity of this scope and all scopes nested in it.
    pub cognitive_sum: u32,
    /// Physical (non-blank, non-comment) lines of the scope.
    pub ploc: u32,
    /// Index of the enclosing scope (the root names itself).
    pub parent: usize,
}

/// The scopes of one file as an arena. Node 0 is the root; every other node
/// comes after its parent, and siblings stand in source order.
pub struct ScopeTree {
    pub nodes: Vec<ScopeNode>,
}

/// The complexity of a scope and its descendants, in the chosen measure.
pub open spec fn comp_sum(n: ScopeNode, c: Complexity) -> u32 {
    match c {
        Complexity::Cyclomatic => n.cyclomatic_sum,
        Complexity::Cognitive => n.cognitive_sum,
    }
}

/// The complexity of a scope alone, in the chosen measure.
pub open spec fn comp_self(n: ScopeNode, c: Complexity) -> u32 {
    match c {
        Complexity::Cyclomatic => n.cyclomatic,
        Complexity::Cognitive => n.cognitive,
    }
}

/// Whether a scope's range holds the 1-based line `line`.
pub open spec fn contains_line(n: ScopeNode, line: int) -> bool {
    n.start_line <= line <= n.end_line
}

impl ScopeTree {
    /// Node 0 exists and every other node's parent comes before it.
    pub open spec fn wf(&self) -> bool {
        &&& self.nodes@.len() > 0
        &&& forall|i: int| 0 < i < self.nodes@.len() ==> #[trigger] self.nodes@[i].parent < i
    }
}

/// Indices below `n` of the function scopes, in index order.
pub open spec fn function_indices(nodes: Seq<ScopeNode>, n: int) -> Seq<usize>
    decreases n,
{
    if n <= 0 {
        Seq::empty()
    } else if nodes[n - 1].kind == ScopeKind::Function {
        function_indices(nodes, n - 1).push((n - 1) as usize)
    } else {
        function_indices(nodes, n - 1)
    }
}

/// The first child of `p` at index `j` or later whose range holds `line`,
/// or the number of nodes where there is none.
pub open spec fn first_child_from(nodes: Seq<ScopeNode>, p: int, line: int, j: int) -> int
    decreases nodes.len() - j,
{
    if j < 0 || j >= nodes.len() {
        nodes.len() as int
    } else if nodes[j].parent == p && contains_line(nodes[j], line) {
        j
    } else {
        first_child_from(nodes, p, line, j + 1)
    }
}

/// The smallest scope under node `n` that holds `line`: descend, at each
/// level, into the first child (in source order) whose range holds the line,
/// and stop where none does.
pub open spec fn min_scope(nodes: Seq<ScopeNode>, n: int, line: int) -> int
    decreases nodes.len() - n,
{
    if n < 0 || n >= nodes.len() {
        n
    } else {
        let c = first_child_from(nodes, n, line, n + 1);
        if n < c < nodes.len() {
            min_scope(nodes, c, line)
        } else {
            n
        }
    }
}

proof fn lemma_first_child_bounds(nodes: Seq<ScopeNode>, p: int, line: int, j: int)
    requires
        j >= 0,
    ensures
        j <= nodes.len() ==> j <= first_child_from(nodes, p, line, j) <= nodes.len(),
    decreases nodes.len() - j,
{
    if j < nodes.len() && !(nodes[j].parent == p && contains_line(nodes[j], line)) {
        lemma_first_child_bounds(nodes, p, line, j + 1);
    }
}

proof fn lemma_min_scope_bounds(nodes: Seq<ScopeNode>, n: int, line: int)
    requires
        0 <= n < nodes.len(),
    ensures
        n <= min_scope(nodes, n, line) < nodes.len(),
    decreases nodes.len() - n,
{
    let c = first_child_from(nodes, n, line, n + 1);
    if n < c < nodes.len() {
        lemma_min_scope_bounds(nodes, c, line);
    }
}

/// The character of a decimal digit.
pub open spec fn digit_char(d: nat) -> char {
    if d == 0 {
        '0'
    } else if d == 1 {
        '1'
    } else if d == 2 {
        '2'
    } else if d == 3 {
        '3'
    } else if d == 4 {
        '4'
    } else if d == 5 {
        '5'
    } else if d == 6 {
        '6'
    } else if d == 7 {
        '7'
    } else if d == 8 {
        '8'
    } else {
        '9'
    }
}

/// The decimal numeral of `n`, without leading zeros.
pub open spec fn decimal(n: nat) -> Seq<char>
    decreases n,
{
    if n < 10 {
        seq![digit_char(n)]
    } else {
        decimal(n / 10) + seq![digit_char(n % 10)]
    }
}

/// The segment that names one scope inside a qualified name:
/// `name(start,end)`.
pub open spec fn segment(name: Seq<char>, start: nat, end: nat) -> Seq<char> {
    name + "("@ + decimal(start) + ","@ + decimal(end) + ")"@
}

/// The name of a scope, empty where the analysis gave none.
pub open spec fn name_of(n: ScopeNode) -> Seq<char> {
    match n.name {
        Some(s) => s@,
        None => Seq::empty(),
    }
}

/// The qualified name of node `i`: the segments of the scopes from the
/// outermost one under the root down to `i`, joined by `/`.
pub open spec fn qualified_name_of(nodes: Seq<ScopeNode>, i: int) -> Seq<char>
    decreases i,
{
    if i <= 0 || i >= nodes.len() {
        Seq::empty()
    } else {
        let n = nodes[i];
        let seg = segment(name_of(n), n.start_line as nat, n.end_line as nat);
        if 0 < n.parent < i {
            qualified_name_of(nodes, n.parent as int) + "/"@ + seg
        } else {
            seg
        }
    }
}

/// How a function is shown: `name (start, end)`.
pub open spec fn display_name_of(name: Seq<char>, start: nat, end: nat) -> Seq<char> {
    name + " ("@ + decimal(start) + ", "@ + decimal(end) + ")"@
}

/// The digit `d` as a one-character string.
fn digit_str(d: usize) -> (r: &'static str)
    requires
        d < 10,
    ensures
        r@ == seq![digit_char(d as nat)],
{
    proof {
        reveal_strlit("0");
        reveal_strlit("1");
        reveal_strlit("2");
        reveal_strlit("3");
        reveal_strlit("4");
        reveal_strlit("5");
        reveal_strlit("6");
        reveal_strlit("7");
        reveal_strlit("8");
        reveal_strlit("9");
    }
    if d == 0 {
        "0"
    } else if d == 1 {
        "1"
    } else if d == 2 {
        "2"
    } else if d == 3 {
        "3"
    } else if d == 4 {
        "4"
    } else if d == 5 {
        "5"
    } else if d == 6 {
        "6"
    } else if d == 7 {
        "7"
    } else if d == 8 {
        "8"
    } else {
        assert(d == 9);
        "9"
    }
}

/// The decimal numeral of `n`.
pub fn to_decimal(n: usize) -> (r: String)
    ensures
        r@ == decimal(n as nat),
    decreases n,
{
    if n < 10 {
        String::from_str(digit_str(n))
    } else {
        to_decimal(n / 10).concat(digit_str(n % 10))
    }
}

impl ScopeTree {
    /// A tree that holds only its root.
    pub fn new(root: ScopeNode) -> (r: ScopeTree)
        ensures
            r.wf(),
            r.nodes@ == seq![root],
    {
        let mut nodes: Vec<ScopeNode> = Vec::new();
        nodes.push(root);
        ScopeTree { nodes }
    }

    /// Adds `node` as the last child of `parent`; returns its index.
    pub fn add_child(&mut self, parent: usize, node: ScopeNode) -> (r: usize)
        requires
            old(self).wf(),
            parent < old(self).nodes@.len(),
            old(self).nodes@.len() < usize::MAX,
        ensures
            final(self).wf(),
            r == old(self).nodes@.len(),
            final(self).nodes@.len() == old(self).nodes@.len() + 1,
            final(self).nodes@[r as int].parent == parent,
            forall|i: int| 0 <= i < r ==> final(self).nodes@[i] == old(self).nodes@[i],
            ({
                let n = final(self).nodes@[r as int];
                n.name == node.name && n.kind == node.kind && n.start_line == node.start_line
                    && n.end_line == node.end_line && n.cyclomatic == node.cyclomatic
                    && n.cyclomatic_sum == node.cyclomatic_sum && n.cognitive == node.cognitive
                    && n.cognitive_sum == node.cognitive_sum && n.ploc == node.ploc
            }),
    {
        let r = self.nodes.len();
        let mut node = node;
        node.parent = parent;
        self.nodes.push(node);
        r
    }

    /// Index of the first child of `p` at or after `j` whose range holds
    /// `line`, or the number of nodes.
    fn first_child(&self, p: usize, line: usize, j: usize) -> (r: usize)
        requires
            j <= self.nodes@.len(),
        ensures
            r == first_child_from(self.nodes@, p as int, line as int, j as int),
    {
        let mut k: usize = j;
        while k < self.nodes.len()
            invariant
                j <= k <= self.nodes@.len(),
                first_child_from(self.nodes@, p as int, line as int, j as int) == first_child_from(
                    self.nodes@,
                    p as int,
                    line as int,
                    k as int,
                ),
            decreases self.nodes@.len() - k,
        {
            let n = &self.nodes[k];
            if n.parent == p && n.start_line <= line && line <= n.end_line {
                return k;
            }
            k = k + 1;
        }
        k
    }

    /// The smallest scope under node `n` whose range holds the 1-based
    /// `line` (`n` itself where no child holds it).
    pub fn minimum_enclosing_scope(&self, n: usize, line: usize) -> (r: usize)
        requires
            self.wf(),
            n < self.nodes@.len(),
        ensures
            r == min_scope(self.nodes@, n as int, line as int),
            n <= r < self.nodes@.len(),
    {
        let mut cur: usize = n;
        let len = self.nodes.len();
        proof {
            lemma_min_scope_bounds(self.nodes@, n as int, line as int);
        }
        loop
            invariant
                n <= cur < self.nodes@.len() == len,
                min_scope(self.nodes@, n as int, line as int) == min_scope(
                    self.nodes@,
                    cur as int,
                    line as int,
                ),
            decreases self.nodes@.len() - cur,
        {
            let c = self.first_child(cur, line, cur + 1);
            proof {
                lemma_first_child_bounds(self.nodes@, cur as int, line as int, cur as int + 1);
            }
            if c >= self.nodes.len() {
                return cur;
            }
            cur = c;
        }
    }

    /// Indices of every function scope, in index order.
    pub fn function_scopes(&self) -> (r: Vec<usize>)
        ensures
            r@ == function_indices(self.nodes@, self.nodes@.len() as int),
            forall|k: int| 0 <= k < r@.len() ==> #[trigger] r@[k] < self.nodes@.len(),
    {
        let mut out: Vec<usize> = Vec::new();
        let mut i: usize = 0;
        while i < self.nodes.len()
            invariant
                i <= self.nodes@.len(),
                out@ == function_indices(self.nodes@, i as int),
                forall|k: int| 0 <= k < out@.len() ==> #[trigger] out@[k] < i,
            decreases self.nodes@.len() - i,
        {
            if self.nodes[i].kind == ScopeKind::Function {
                out.push(i);
            }
            i = i + 1;
        }
        out
    }
}

/// `name(start,end)`.
fn segment_string(name: &String, start: usize, end: usize) -> (r: String)
    ensures
        r@ == segment(name@, start as nat, end as nat),
{
    proof {
        reveal_strlit("(");
        reveal_strlit(",");
        reveal_strlit(")");
    }
    let s = to_decimal(start);
    let e = to_decimal(end);
    name.clone().concat("(").concat(s.as_str()).concat(",").concat(e.as_str()).concat(")")
}

/// `name (start, end)`: how a function is shown.
pub fn display_name(name: &String, start: usize, end: usize) -> (r: String)
    ensures
        r@ == display_name_of(name@, start as nat, end as nat),
{
    proof {
        reveal_strlit(" (");
        reveal_strlit(", ");
        reveal_strlit(")");
    }
    let s = to_decimal(start);
    let e = to_decimal(end);
    name.clone().concat(" (").concat(s.as_str()).concat(", ").concat(e.as_str()).concat(")")
}

impl ScopeTree {
    /// The name of node `i`, empty where the analysis gave none.
    fn name_string(&self, i: usize) -> (r: String)
        requires
            i < self.nodes@.len(),
        ensures
            r@ == name_of(self.nodes@[i as int]),
    {
        match &self.nodes[i].name {
            Some(s) => s.clone(),
            None => String::new(),
        }
    }

    /// The qualified name of node `i`, such as `Outer(36,148)/Inner(47,74)`.
    pub fn qualified_name(&self, i: usize) -> (r: String)
        requires
            i < self.nodes@.len(),
        ensures
            r@ == qualified_name_of(self.nodes@, i as int),
        decreases i,
    {
        proof {
            reveal_strlit("/");
        }
        if i == 0 {
            return String::new();
        }
        let name = self.name_string(i);
        let n = &self.nodes[i];
        let seg = segment_string(&name, n.start_line, n.end_line);
        if 0 < n.parent && n.parent < i {
            self.qualified_name(n.parent).concat("/").concat(seg.as_str())
        } else {
            seg
        }
    }

    /// How function `i` is shown, `name (start, end)`; fails where the
    /// analysis gave the scope no name.
    pub fn function_label(&self, i: usize) -> (r: Result<String, Error>)
        requires
            i < self.nodes@.len(),
        ensures
            match self.nodes@[i as int].name {
                Some(s) => r matches Ok(l) && l@ == display_name_of(
                    s@,
                    self.nodes@[i as int].start_line as nat,
                    self.nodes@[i as int].end_line as nat,
                ),
                None => r == Err::<String, Error>(Error::PathConversionError()),
            },
    {
        let n = &self.nodes[i];
        match &n.name {
            Some(s) => Ok(display_name(s, n.start_line, n.end_line)),
            None => Err(Error::PathConversionError()),
        }
    }
}

impl ScopeTree {
    /// Every function scope, in index order, with its qualified name.
    pub fn enumerate_function_scopes(&self) -> (r: Vec<(usize, String)>)
        ensures
            r@.len() == function_indices(self.nodes@, self.nodes@.len() as int).len(),
            forall|k: int|
                0 <= k < r@.len() ==> (#[trigger] r@[k]).0 == function_indices(
                    self.nodes@,
                    self.nodes@.len() as int,
                )[k] && r@[k].1@ == qualified_name_of(self.nodes@, r@[k].0 as int),
    {
        let idx = self.function_scopes();
        let mut out: Vec<(usize, String)> = Vec::new();
        let mut j: usize = 0;
        while j < idx.len()
            invariant
                idx@ == function_indices(self.nodes@, self.nodes@.len() as int),
                forall|k: int| 0 <= k < idx@.len() ==> #[trigger] idx@[k] < self.nodes@.len(),
                j <= idx@.len(),
                out@.len() == j,
                forall|k: int|
                    0 <= k < j ==> (#[trigger] out@[k]).0 == idx@[k] && out@[k].1@
                        == qualified_name_of(self.nodes@, out@[k].0 as int),
            decreases idx@.len() - j,
        {
            let i = idx[j];
            out.push((i, self.qualified_name(i)));
            j = j + 1;
        }
        out
    }
}

} // verus!
