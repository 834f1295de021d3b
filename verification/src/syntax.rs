//! A concrete syntax tree held as plain values: the nodes in preorder, each
//! with its kind, the field it fills in its parent, its character range in
//! the source, its row/column positions and the index of its parent.
use vstd::prelude::*;
use crate::text::{chars_eq, chars_of, eq_lit, string_of_range};

verus! {

/// One node of a syntax tree.
#[derive(Debug, Clone)]
pub struct SyntaxNode {
    /// Grammar kind (`function_item`, `identifier`, ...).
    pub kind: String,
    /// Name of the field this node fills in its parent, if any.
    pub field: Option<String>,
    /// Whether the node is named in the grammar.
    pub named: bool,
    /// First character of the node in the source.
    pub start: usize,
    /// One past the last character of the node.
    pub end: usize,
    /// 0-based row where the node starts.
    pub start_row: usize,
    /// 0-based column where the node starts.
    pub start_col: usize,
    /// 0-based row where the node ends.
    pub end_row: usize,
    /// 0-based column where the node ends.
    pub end_col: usize,
    /// Index of the parent node; none for the root.
    pub parent: Option<usize>,
}

/// A syntax tree over a source text; `nodes[0]` is the root and the nodes
/// are in preorder.
#[derive(Debug, Clone)]
pub struct SyntaxTree {
    /// The source text.
    pub source: Vec<char>,
    /// The nodes in preorder.
    pub nodes: Vec<SyntaxNode>,
}

impl SyntaxTree {
    /// Number of nodes.
    pub open spec fn len(&self) -> int {
        self.nodes@.len() as int
    }

    /// Kind of node `i`.
    pub open spec fn kind(&self, i: int) -> Seq<char> {
        self.nodes@[i].kind@
    }

    /// Parent of node `i`.
    pub open spec fn parent(&self, i: int) -> Option<usize> {
        self.nodes@[i].parent
    }

    /// Text of node `i`.
    pub open spec fn text(&self, i: int) -> Seq<char> {
        self.source@.subrange(self.nodes@[i].start as int, self.nodes@[i].end as int)
    }

    /// Field of node `i` in its parent, as characters.
    pub open spec fn field_is(&self, i: int, name: Seq<char>) -> bool {
        self.nodes@[i].field matches Some(f) && f@ == name
    }

    /// Well-formedness: a root without parent first; every other node's parent
    /// precedes it; every range lies inside the source; no node ends on a row
    /// before the one it starts on.
    pub open spec fn wf(&self) -> bool {
        &&& 0 < self.nodes@.len() < usize::MAX
        &&& self.source@.len() < usize::MAX
        &&& self.nodes@[0].parent is None
        &&& forall|i: int|
            0 < i < self.nodes@.len() ==> ((#[trigger] self.nodes@[i]).parent matches Some(p) && p
                < i)
        &&& forall|i: int|
            0 <= i < self.nodes@.len() ==> (#[trigger] self.nodes@[i]).start <= self.nodes@[i].end
                <= self.source@.len()
        &&& forall|i: int|
            0 <= i < self.nodes@.len() ==> {
                &&& (#[trigger] self.nodes@[i]).start_row < usize::MAX
                &&& self.nodes@[i].start_col < usize::MAX
                &&& self.nodes@[i].end_row < usize::MAX
                &&& self.nodes@[i].end_col < usize::MAX
                &&& self.nodes@[i].start_row <= self.nodes@[i].end_row
            }
    }

    /// Each node's character range lies within its parent's.
    pub open spec fn spans_nest(&self) -> bool {
        forall|i: int|
            0 < i < self.nodes@.len() ==> ((#[trigger] self.nodes@[i]).parent matches Some(p) && 0 <= p
                < self.nodes@.len() && self.nodes@[p as int].start <= self.nodes@[i].start
                && self.nodes@[i].end <= self.nodes@[p as int].end)
    }

    /// Whether `c` is a child of `p`.
    pub open spec fn is_child(&self, p: int, c: int) -> bool {
        self.nodes@[c].parent == Some(p as usize)
    }

    /// Children of `p` among the first `k` nodes, in order.
    pub open spec fn children_upto(&self, p: int, k: int) -> Seq<usize>
        decreases k,
    {
        if k <= 0 {
            seq![]
        } else {
            let r = self.children_upto(p, k - 1);
            if self.is_child(p, k - 1) {
                r.push((k - 1) as usize)
            } else {
                r
            }
        }
    }


    /// Every listed child of `p` is a node whose parent is `p`, and comes after it.
    pub proof fn lemma_children(&self, p: int, k: int)
        requires
            self.wf(),
            k <= self.len(),
            0 <= p < self.len(),
        ensures
            forall|j: int|
                0 <= j < self.children_upto(p, k).len() ==> {
                    &&& (#[trigger] self.children_upto(p, k)[j]) < k
                    &&& self.is_child(p, self.children_upto(p, k)[j] as int)
                    &&& p < self.children_upto(p, k)[j]
                },
        decreases k,
    {
        if k > 0 {
            self.lemma_children(p, k - 1);
            let r = self.children_upto(p, k - 1);
            if self.is_child(p, k - 1) {
                assert forall|j: int| 0 <= j < r.push((k - 1) as usize).len() implies {
                    &&& (#[trigger] r.push((k - 1) as usize)[j]) < k
                    &&& self.is_child(p, r.push((k - 1) as usize)[j] as int)
                    &&& p < r.push((k - 1) as usize)[j]
                } by {
                    if j < r.len() {
                        assert(r.push((k - 1) as usize)[j] == r[j]);
                    } else {
                        assert(self.nodes@[k - 1].parent == Some(p as usize));
                        if k - 1 == 0 {
                            assert(self.nodes@[0].parent is None);
                        } else {
                            assert(self.nodes@[k - 1].parent matches Some(q) && q < k - 1);
                        }
                    }
                }
            }
        }
    }

    /// Children of `p`, in order.
    pub open spec fn children(&self, p: int) -> Seq<usize> {
        self.children_upto(p, self.len())
    }

    /// The first node of `cs` whose field is `name`.
    pub open spec fn first_with_field(&self, cs: Seq<usize>, name: Seq<char>) -> Option<usize>
        decreases cs.len(),
    {
        if cs.len() == 0 {
            None
        } else if self.field_is(cs[0] as int, name) {
            Some(cs[0])
        } else {
            self.first_with_field(cs.drop_first(), name)
        }
    }

    /// `Node::child_by_field_name`.
    pub open spec fn child_by_field(&self, p: int, name: Seq<char>) -> Option<usize> {
        self.first_with_field(self.children(p), name)
    }

    /// The nearest strict ancestor of `i` whose kind is `kind`.
    pub open spec fn ancestor_of_kind(&self, i: int, kind: Seq<char>) -> Option<usize>
        decreases i,
    {
        if 0 <= i < self.len() {
            match self.parent(i) {
                None => None,
                Some(p) => if p < i {
                    if self.kind(p as int) == kind {
                        Some(p)
                    } else {
                        self.ancestor_of_kind(p as int, kind)
                    }
                } else {
                    None
                },
            }
        } else {
            None
        }
    }

    /// Text of node `i`.
    pub fn node_text(&self, i: usize) -> (r: String)
        requires
            self.wf(),
            i < self.len(),
        ensures
            r@ == self.text(i as int),
    {
        let n = &self.nodes[i];
        string_of_range(self.source.as_slice(), n.start, n.end)
    }

    /// Whether the kind of node `i` is `lit`.
    pub fn kind_is(&self, i: usize, lit: &str) -> (r: bool)
        requires
            i < self.len(),
        ensures
            r == (self.kind(i as int) == lit@),
    {
        let k = chars_of(self.nodes[i].kind.as_str());
        eq_lit(k.as_slice(), lit)
    }

    /// Children of `p`, in order.
    pub fn children_of(&self, p: usize) -> (r: Vec<usize>)
        requires
            self.wf(),
        ensures
            r@ == self.children(p as int),
            forall|j: int| 0 <= j < r@.len() ==> (#[trigger] r@[j]) < self.len(),
    {
        let mut out: Vec<usize> = Vec::new();
        let mut k: usize = 0;
        while k < self.nodes.len()
            invariant
                self.wf(),
                k <= self.nodes.len(),
                out@ == self.children_upto(p as int, k as int),
                forall|j: int| 0 <= j < out@.len() ==> (#[trigger] out@[j]) < k,
            decreases self.nodes.len() - k,
        {
            if self.nodes[k].parent == Some(p) {
                out.push(k);
            }
            k = k + 1;
        }
        out
    }

    /// Whether the field of node `i` is `name`.
    pub fn field_of_is(&self, i: usize, name: &str) -> (r: bool)
        requires
            i < self.len(),
        ensures
            r == self.field_is(i as int, name@),
    {
        match &self.nodes[i].field {
            Some(f) => {
                let fc = chars_of(f.as_str());
                eq_lit(fc.as_slice(), name)
            },
            None => false,
        }
    }

    /// `Node::child_by_field_name`: the first child of `p` in field `name`.
    pub fn child_by_field_name(&self, p: usize, name: &str) -> (r: Option<usize>)
        requires
            self.wf(),
        ensures
            r == self.child_by_field(p as int, name@),
            r matches Some(c) ==> c < self.len(),
    {
        let cs = self.children_of(p);
        let mut i: usize = 0;
        assert(cs@.skip(0) =~= cs@);
        while i < cs.len()
            invariant
                self.wf(),
                cs@ == self.children(p as int),
                forall|j: int| 0 <= j < cs@.len() ==> (#[trigger] cs@[j]) < self.len(),
                i <= cs.len(),
                self.first_with_field(cs@, name@) == self.first_with_field(cs@.skip(i as int), name@),
            decreases cs.len() - i,
        {
            let c = cs[i];
            assert(cs@.skip(i as int)[0] == c);
            if self.field_of_is(c, name) {
                return Some(c);
            }
            assert(cs@.skip(i as int).drop_first() =~= cs@.skip(i + 1));
            i = i + 1;
        }
        None
    }

    /// `find_parent_by_type`: the nearest strict ancestor of `i` of kind `kind`.
    pub fn find_parent_by_type(&self, i: usize, kind: &str) -> (r: Option<usize>)
        requires
            self.wf(),
            i < self.len(),
        ensures
            r == self.ancestor_of_kind(i as int, kind@),
            r matches Some(p) ==> p < self.len(),
    {
        let mut cur = i;
        while cur > 0
            invariant
                self.wf(),
                cur < self.len(),
                self.ancestor_of_kind(i as int, kind@) == self.ancestor_of_kind(cur as int, kind@),
            decreases cur,
        {
            let p = match self.nodes[cur].parent {
                Some(p) => p,
                None => return None,
            };
            if self.kind_is(p, kind) {
                return Some(p);
            }
            cur = p;
        }
        None
    }
}

} // verus!

verus! {

/// Position of the first `x` in `cs`, or -1.
pub open spec fn index_in(cs: Seq<usize>, x: usize) -> int
    decreases cs.len(),
{
    if cs.len() == 0 {
        -1
    } else if cs[0] == x {
        0
    } else {
        let r = index_in(cs.drop_first(), x);
        if r < 0 {
            -1
        } else {
            r + 1
        }
    }
}

pub proof fn lemma_index_in(cs: Seq<usize>, x: usize, k: int)
    requires
        0 <= k < cs.len(),
        cs[k] == x,
        forall|j: int| 0 <= j < k ==> cs[j] != x,
    ensures
        index_in(cs, x) == k,
    decreases cs.len(),
{
    if k > 0 {
        lemma_index_in(cs.drop_first(), x, k - 1);
    }
}

pub proof fn lemma_index_in_none(cs: Seq<usize>, x: usize)
    requires
        forall|j: int| 0 <= j < cs.len() ==> cs[j] != x,
    ensures
        index_in(cs, x) == -1,
    decreases cs.len(),
{
    if cs.len() > 0 {
        lemma_index_in_none(cs.drop_first(), x);
    }
}

impl SyntaxTree {
    /// The children of `n` come after it.
    pub proof fn lemma_children_follow(&self, n: int)
        requires
            self.wf(),
            0 <= n < self.len(),
        ensures
            forall|j: int|
                0 <= j < self.children(n).len() ==> n < #[trigger] self.children(n)[j] < self.len(),
    {
        self.lemma_children(n, self.len());
        assert forall|j: int| 0 <= j < self.children(n).len() implies n < #[trigger] self.children(
            n,
        )[j] < self.len() by {
            let c = self.children(n)[j];
            assert(self.is_child(n, c as int));
            if c == 0 {
                assert(self.nodes@[0].parent is None);
            }
        }
    }

    /// The siblings before `i` (the children of its parent that precede it),
    /// in order; empty for the root.
    pub open spec fn siblings_before(&self, i: int) -> Seq<usize> {
        match self.parent(i) {
            None => seq![],
            Some(p) => {
                let cs = self.children(p as int);
                let k = index_in(cs, i as usize);
                if k >= 0 {
                    cs.take(k)
                } else {
                    seq![]
                }
            },
        }
    }

    /// The siblings of `i` that precede it (see `siblings_before`).
    pub fn prev_siblings(&self, i: usize) -> (r: Vec<usize>)
        requires
            self.wf(),
            i < self.len(),
        ensures
            r@ == self.siblings_before(i as int),
            forall|j: int| 0 <= j < r@.len() ==> (#[trigger] r@[j]) < self.len(),
    {
        let p = match self.nodes[i].parent {
            None => return Vec::new(),
            Some(p) => p,
        };
        let cs = self.children_of(p);
        let mut k: usize = 0;
        while k < cs.len()
            invariant
                self.wf(),
                self.nodes@[i as int].parent == Some(p),
                cs@ == self.children(p as int),
                forall|j: int| 0 <= j < cs@.len() ==> (#[trigger] cs@[j]) < self.len(),
                k <= cs.len(),
                forall|j: int| 0 <= j < k ==> cs@[j] != i,
            decreases cs.len() - k,
        {
            if cs[k] == i {
                proof {
                    lemma_index_in(cs@, i, k as int);
                }
                let mut out: Vec<usize> = Vec::new();
                let mut j: usize = 0;
                while j < k
                    invariant
                        j <= k < cs.len(),
                        out@ == cs@.take(j as int),
                        self.nodes@[i as int].parent == Some(p),
                        cs@ == self.children(p as int),
                        index_in(cs@, i) == k as int,
                    decreases k - j,
                {
                    out.push(cs[j]);
                    assert(cs@.take(j as int).push(cs@[j as int]) =~= cs@.take(j + 1));
                    j = j + 1;
                }
                return out;
            }
            k = k + 1;
        }
        proof {
            lemma_index_in_none(cs@, i);
        }
        Vec::new()
    }
}

} // verus!
