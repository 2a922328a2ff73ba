use vstd::prelude::*;
use crate::node::{MdNode, NodeKind, Position, node_count, children_count};

verus! {

/// One row of a flattened tree: the node's id, its parent's id, and the
/// node's own data (its children have rows of their own).
#[derive(Debug)]
pub struct FlatRow {
    pub id: usize,
    pub parent_id: usize,
    pub kind: NodeKind,
    pub position: Option<Position>,
}

/// The mathematical content of a row.
pub struct RowSpec {
    pub id: nat,
    pub parent_id: nat,
    pub kind: NodeKind,
    pub position: Option<Position>,
}

impl View for FlatRow {
    type V = RowSpec;

    open spec fn view(&self) -> RowSpec {
        RowSpec {
            id: self.id as nat,
            parent_id: self.parent_id as nat,
            kind: self.kind,
            position: self.position,
        }
    }
}

pub open spec fn rows_view(rows: Seq<FlatRow>) -> Seq<RowSpec> {
    rows.map_values(|r: FlatRow| r@)
}

/// The row of node `n` when it gets id `id` under a parent with id `parent`.
pub open spec fn row_of(n: MdNode, id: nat, parent: nat) -> RowSpec {
    RowSpec { id, parent_id: parent, kind: n.kind, position: n.position }
}

/// The rows of the tree rooted at `n` in preorder, ids counted up from `id`.
pub open spec fn flat(n: MdNode, id: nat, parent: nat) -> Seq<RowSpec>
    decreases n, n.children@.len() + 1,
{
    seq![row_of(n, id, parent)] + flat_children(n, 0, id + 1, id)
}

/// The rows of the subtrees of the children `i..` of `n`, one after the
/// other, ids counted up from `id`; `parent` is the id of `n`.
pub open spec fn flat_children(n: MdNode, i: int, id: nat, parent: nat) -> Seq<RowSpec>
    decreases n, n.children@.len() - i,
{
    if i < 0 || i >= n.children@.len() {
        seq![]
    } else {
        let h = flat(n.children@[i], id, parent);
        h + flat_children(n, i + 1, id + h.len(), parent)
    }
}

/// The rows of the trees still waiting on a work stack (its top is its last
/// element, each entry holding its parent's id), ids counted up from `id`.
pub open spec fn flat_stack(s: Seq<(MdNode, usize)>, id: nat) -> Seq<RowSpec>
    decreases s.len(),
{
    if s.len() == 0 {
        seq![]
    } else {
        let h = flat(s.last().0, id, s.last().1 as nat);
        h + flat_stack(s.drop_last(), id + h.len())
    }
}

/// Entries for the nodes `cs` under parent `p`, laid out so that `cs[0]` is
/// on top.
pub open spec fn scheduled(cs: Seq<MdNode>, p: usize) -> Seq<(MdNode, usize)> {
    Seq::new(cs.len(), |j: int| (cs[cs.len() - 1 - j], p))
}

/// The rows of a whole document: root first with id 0 and itself as parent.
pub open spec fn flattened(root: MdNode) -> Seq<RowSpec> {
    flat(root, 0, 0)
}

proof fn lemma_flat_nonempty(n: MdNode, id: nat, parent: nat)
    ensures
        flat(n, id, parent).len() >= 1,
        flat(n, id, parent)[0] == row_of(n, id, parent),
{
}

proof fn lemma_scheduled_children(
    rest: Seq<(MdNode, usize)>,
    n: MdNode,
    i: int,
    id: nat,
    p: usize,
)
    requires
        0 <= i <= n.children@.len(),
    ensures
        flat_stack(rest + scheduled(n.children@.subrange(i, n.children@.len() as int), p), id)
            == flat_children(n, i, id, p as nat) + flat_stack(
            rest,
            id + flat_children(n, i, id, p as nat).len(),
        ),
    decreases n.children@.len() - i,
{
    let cs = n.children@;
    let s = rest + scheduled(cs.subrange(i, cs.len() as int), p);
    if i == cs.len() {
        assert(s =~= rest);
        assert(flat_children(n, i, id, p as nat) =~= seq![]);
    } else {
        let h = flat(cs[i], id, p as nat);
        assert(s.last() == (cs[i], p));
        assert(s.drop_last() =~= rest + scheduled(cs.subrange(i + 1, cs.len() as int), p));
        lemma_scheduled_children(rest, n, i + 1, id + h.len(), p);
        let t = flat_children(n, i + 1, id + h.len(), p as nat);
        assert(flat_children(n, i, id, p as nat) == h + t);
        assert(flat_stack(s, id) == h + flat_stack(s.drop_last(), id + h.len()));
        assert(h + (t + flat_stack(rest, id + h.len() + t.len())) =~= (h + t) + flat_stack(
            rest,
            id + h.len() + t.len(),
        ));
    }
}

proof fn lemma_flat_facts(n: MdNode, id: nat, parent: nat)
    ensures
        flat(n, id, parent).len() == node_count(n),
        forall|j: int|
            0 <= j < flat(n, id, parent).len() ==> #[trigger] flat(n, id, parent)[j].id == id + j,
        forall|j: int|
            0 < j < flat(n, id, parent).len() ==> id <= #[trigger] flat(n, id, parent)[j].parent_id
                < id + j,
    decreases n, n.children@.len() + 1,
{
    lemma_children_facts(n, 0, id + 1, id);
    let fc = flat_children(n, 0, id + 1, id);
    let f = flat(n, id, parent);
    assert(f == seq![row_of(n, id, parent)] + fc);
    assert forall|j: int| 0 < j < f.len() implies f[j] == fc[j - 1] by {}
}

proof fn lemma_children_facts(n: MdNode, i: int, id: nat, parent: nat)
    requires
        0 <= i <= n.children@.len(),
        parent < id,
    ensures
        flat_children(n, i, id, parent).len() == children_count(n, i, n.children@.len() as int),
        forall|j: int|
            0 <= j < flat_children(n, i, id, parent).len() ==> #[trigger] flat_children(
                n,
                i,
                id,
                parent,
            )[j].id == id + j,
        forall|j: int|
            0 <= j < flat_children(n, i, id, parent).len() ==> parent <= #[trigger] flat_children(
                n,
                i,
                id,
                parent,
            )[j].parent_id < id + j,
    decreases n, n.children@.len() - i,
{
    if i < n.children@.len() {
        let c = n.children@[i];
        assert(decreases_to!(n => n.children));
        assert(decreases_to!(n.children => n.children@));
        assert(decreases_to!(n.children@ => n.children@[i]));
        lemma_flat_facts(c, id, parent);
        let h = flat(c, id, parent);
        lemma_children_facts(n, i + 1, id + h.len(), parent);
        let t = flat_children(n, i + 1, id + h.len(), parent);
        let f = flat_children(n, i, id, parent);
        assert(f == h + t);
        assert forall|j: int| h.len() <= j < f.len() implies f[j] == t[j - h.len()] by {}
        assert forall|j: int| 0 <= j < h.len() implies f[j] == h[j] by {}
    }
}

proof fn lemma_children_block(n: MdNode, i: int, k: int, id: nat, parent: nat)
    requires
        0 <= i <= k < n.children@.len(),
        parent < id,
    ensures
        ({
            let o = children_count(n, i, k) as int;
            &&& o + node_count(n.children@[k]) <= flat_children(n, i, id, parent).len()
            &&& flat_children(n, i, id, parent).subrange(o, o + node_count(n.children@[k])) == flat(
                n.children@[k],
                (id + o) as nat,
                parent,
            )
        }),
    decreases k - i,
{
    let c = n.children@[i];
    lemma_flat_facts(c, id, parent);
    let h = flat(c, id, parent);
    lemma_children_facts(n, i + 1, id + h.len(), parent);
    let t = flat_children(n, i + 1, id + h.len(), parent);
    let f = flat_children(n, i, id, parent);
    assert(f == h + t);
    if i == k {
        assert(children_count(n, i, k) == 0);
        assert(f.subrange(0, h.len() as int) =~= h);
    } else {
        lemma_children_block(n, i + 1, k, id + h.len(), parent);
        let o = children_count(n, i + 1, k) as int;
        assert(children_count(n, i, k) == h.len() + o);
        let m = node_count(n.children@[k]) as int;
        assert(f.subrange(h.len() + o, h.len() + o + m) =~= t.subrange(o, o + m));
    }
}

/// A document flattens to exactly as many rows as its tree has nodes, the
/// root included.
pub proof fn row_count_is_node_count(root: MdNode)
    ensures
        flattened(root).len() == node_count(root),
{
    lemma_flat_facts(root, 0, 0);
}

/// Row ids are the positions of the rows: unique and strictly increasing in
/// emission order; the first row is the root's, with id 0 and parent 0.
pub proof fn ids_follow_emission_order(root: MdNode)
    ensures
        flattened(root).len() >= 1,
        flattened(root)[0] == row_of(root, 0, 0),
        flattened(root)[0].parent_id == 0,
        forall|j: int| 0 <= j < flattened(root).len() ==> #[trigger] flattened(root)[j].id == j,
        forall|j: int, k: int|
            0 <= j < k < flattened(root).len() ==> flattened(root)[j].id < flattened(root)[k].id,
{
    lemma_flat_facts(root, 0, 0);
    lemma_flat_nonempty(root, 0, 0);
}

/// Every row other than the root's names as parent a row that was emitted
/// before it.
pub proof fn parent_precedes_child(root: MdNode)
    ensures
        forall|j: int|
            0 < j < flattened(root).len() ==> #[trigger] flattened(root)[j].parent_id < j,
{
    lemma_flat_facts(root, 0, 0);
}

/// Preorder: in the rows of the tree rooted at `n` (ids from `id`), the
/// subtree of its child `k` forms one contiguous block. The block starts
/// right after `n`'s own row and the blocks of the earlier children, its
/// first row is the child's, with `n`'s id as parent, and the next child's
/// block follows it.
pub proof fn subtree_is_contiguous_block(n: MdNode, id: nat, parent: nat, k: int)
    requires
        0 <= k < n.children@.len(),
    ensures
        ({
            let o: int = 1 + children_count(n, 0, k) as int;
            let c = n.children@[k];
            &&& o + node_count(c) <= flat(n, id, parent).len()
            &&& flat(n, id, parent).subrange(o, o + node_count(c)) == flat(c, (id + o) as nat, id)
            &&& flat(n, id, parent)[o] == row_of(c, (id + o) as nat, id)
            &&& k + 1 < n.children@.len() ==> o + node_count(c) == 1 + children_count(n, 0, k + 1)
        }),
{
    lemma_children_block(n, 0, k, id + 1, id);
    let o: int = 1 + children_count(n, 0, k) as int;
    let c = n.children@[k];
    let fc = flat_children(n, 0, id + 1, id);
    let f = flat(n, id, parent);
    assert(f == seq![row_of(n, id, parent)] + fc);
    assert(f.subrange(o, o + node_count(c)) =~= fc.subrange(o - 1, o - 1 + node_count(c)));
    lemma_flat_nonempty(c, (id + o) as nat, id);
    assert(f[o] == f.subrange(o, o + node_count(c))[0]);
    if k + 1 < n.children@.len() {
        lemma_count_step(n, 0, k);
    }
}

proof fn lemma_count_step(n: MdNode, i: int, k: int)
    requires
        0 <= i <= k < n.children@.len(),
    ensures
        children_count(n, i, k + 1) == children_count(n, i, k) + node_count(n.children@[k]),
    decreases k - i,
{
    if i < k {
        lemma_count_step(n, i + 1, k);
    } else {
        assert(children_count(n, k + 1, k + 1) == 0);
        assert(children_count(n, k, k) == 0);
    }
}

/// Whether the child indexes `path` lead from `n` down to a node of its tree.
pub open spec fn valid_path(n: MdNode, path: Seq<int>) -> bool
    decreases path.len(),
{
    path.len() == 0 || (0 <= path[0] < n.children@.len() && valid_path(
        n.children@[path[0]],
        path.drop_first(),
    ))
}

/// The node that the child indexes `path` lead to from `n`.
pub open spec fn node_at(n: MdNode, path: Seq<int>) -> MdNode
    decreases path.len(),
{
    if path.len() == 0 || !(0 <= path[0] < n.children@.len()) {
        n
    } else {
        node_at(n.children@[path[0]], path.drop_first())
    }
}

/// The position, among the rows of the tree rooted at `n`, of the row of
/// the node that `path` leads to: its own row, the rows of the subtrees of
/// its earlier siblings, and those of its ancestors' earlier siblings come
/// before it.
pub open spec fn row_index(n: MdNode, path: Seq<int>) -> int
    decreases path.len(),
{
    if path.len() == 0 || !(0 <= path[0] < n.children@.len()) {
        0
    } else {
        1 + children_count(n, 0, path[0]) + row_index(n.children@[path[0]], path.drop_first())
    }
}

proof fn lemma_path_block(n: MdNode, id: nat, parent: nat, path: Seq<int>)
    requires
        valid_path(n, path),
    ensures
        ({
            let r = row_index(n, path);
            let m = node_at(n, path);
            let pr = if path.len() == 0 {
                parent
            } else {
                (id + row_index(n, path.drop_last())) as nat
            };
            &&& 0 <= r
            &&& r + node_count(m) <= flat(n, id, parent).len()
            &&& flat(n, id, parent).subrange(r, r + node_count(m)) == flat(m, (id + r) as nat, pr)
        }),
    decreases path.len(),
{
    lemma_flat_facts(n, id, parent);
    if path.len() == 0 {
        assert(flat(n, id, parent).subrange(0, node_count(n) as int) =~= flat(n, id, parent));
    } else {
        let k = path[0];
        let c = n.children@[k];
        let rest = path.drop_first();
        let o: int = 1 + children_count(n, 0, k) as int;
        subtree_is_contiguous_block(n, id, parent, k);
        lemma_path_block(c, (id + o) as nat, id, rest);
        lemma_flat_facts(c, (id + o) as nat, id);
        let rr = row_index(c, rest);
        let m = node_at(c, rest);
        assert(row_index(n, path) == o + rr);
        assert(node_at(n, path) == m);
        let f = flat(n, id, parent);
        assert(f.subrange(o + rr, o + rr + node_count(m)) =~= f.subrange(
            o,
            o + node_count(c),
        ).subrange(rr, rr + node_count(m)));
        if rest.len() > 0 {
            let q = path.drop_last();
            assert(q[0] == k);
            assert(q.drop_first() =~= rest.drop_last());
            assert(row_index(n, q) == o + row_index(c, rest.drop_last()));
        } else {
            assert(path.drop_last().len() == 0);
        }
    }
}

proof fn lemma_path_push(n: MdNode, q: Seq<int>, k: int)
    requires
        valid_path(n, q),
        0 <= k < node_at(n, q).children@.len(),
    ensures
        valid_path(n, q.push(k)),
        node_at(n, q.push(k)) == node_at(n, q).children@[k],
        row_index(n, q.push(k)) == row_index(n, q) + 1 + children_count(node_at(n, q), 0, k),
        q.push(k).drop_last() == q,
    decreases q.len(),
{
    assert(q.push(k).drop_last() =~= q);
    if q.len() == 0 {
        assert(q.push(k).drop_first() =~= Seq::<int>::empty());
        assert(q.push(k)[0] == k);
        assert(node_at(n, q) == n);
        assert(row_index(n, q) == 0);
        assert(valid_path(n.children@[k], Seq::<int>::empty()));
        assert(node_at(n.children@[k], Seq::<int>::empty()) == n.children@[k]);
        assert(row_index(n.children@[k], Seq::<int>::empty()) == 0);
    } else {
        let c = n.children@[q[0]];
        lemma_path_push(c, q.drop_first(), k);
        assert(q.push(k).drop_first() =~= q.drop_first().push(k));
        assert(q.push(k)[0] == q[0]);
        assert(node_at(n, q) == node_at(c, q.drop_first()));
        assert(node_at(n, q.push(k)) == node_at(c, q.drop_first().push(k)));
        assert(valid_path(n, q.push(k)));
    }
}

proof fn lemma_path_prefix(n: MdNode, path: Seq<int>)
    requires
        valid_path(n, path),
        path.len() > 0,
    ensures
        valid_path(n, path.drop_last()),
        0 <= path.last() < node_at(n, path.drop_last()).children@.len(),
        node_at(n, path) == node_at(n, path.drop_last()).children@[path.last()],
    decreases path.len(),
{
    let q = path.drop_last();
    if path.len() == 1 {
        assert(q =~= Seq::<int>::empty());
        assert(path.drop_first() =~= Seq::<int>::empty());
        assert(path.last() == path[0]);
        assert(node_at(n, q) == n);
        assert(node_at(n, path) == node_at(n.children@[path[0]], Seq::<int>::empty()));
    } else {
        let c = n.children@[path[0]];
        let rest = path.drop_first();
        lemma_path_prefix(c, rest);
        assert(q[0] == path[0]);
        assert(q.drop_first() =~= rest.drop_last());
        assert(rest.last() == path.last());
    }
}

/// Every node of a document, reached from the root by the child indexes
/// `path`, has the rows of its subtree as one contiguous block: its own row
/// first, then exactly the rows of its descendants. Its row names as parent
/// the row of the node that `path` without its last index leads to, which
/// is its true parent in the tree (the root is its own parent).
pub proof fn every_subtree_is_a_block(root: MdNode, path: Seq<int>)
    requires
        valid_path(root, path),
    ensures
        ({
            let r = row_index(root, path);
            let m = node_at(root, path);
            let pr: nat = if path.len() == 0 {
                0
            } else {
                row_index(root, path.drop_last()) as nat
            };
            &&& 0 <= r
            &&& r + node_count(m) <= flattened(root).len()
            &&& flattened(root).subrange(r, r + node_count(m)) == flat(m, r as nat, pr)
            &&& flattened(root)[r] == row_of(m, r as nat, pr)
            &&& path.len() > 0 ==> {
                &&& valid_path(root, path.drop_last())
                &&& node_at(root, path.drop_last()).children@[path.last()] == m
                &&& flattened(root)[pr as int].id == pr
                &&& pr < r
            }
        }),
{
    lemma_path_block(root, 0, 0, path);
    let r = row_index(root, path);
    let m = node_at(root, path);
    lemma_flat_nonempty(m, r as nat, if path.len() == 0 {
        0
    } else {
        row_index(root, path.drop_last()) as nat
    });
    lemma_flat_facts(root, 0, 0);
    if path.len() > 0 {
        lemma_path_prefix(root, path);
        lemma_path_block(root, 0, 0, path.drop_last());
        let q = path.drop_last();
        let pm = node_at(root, q);
        lemma_path_push(root, q, path.last());
        assert(q.push(path.last()) =~= path);
        assert(flattened(root)[row_index(root, q)].id == row_index(root, q));
    }
}

/// Siblings come left to right: the first child's row follows its parent's
/// row at once, and each next child's row follows the whole block of the
/// child before it.
pub proof fn siblings_follow_in_order(root: MdNode, path: Seq<int>, k: int)
    requires
        valid_path(root, path),
        0 <= k < node_at(root, path).children@.len(),
    ensures
        valid_path(root, path.push(k)),
        k == 0 ==> row_index(root, path.push(k)) == row_index(root, path) + 1,
        k + 1 < node_at(root, path).children@.len() ==> row_index(root, path.push(k + 1))
            == row_index(root, path.push(k)) + node_count(node_at(root, path.push(k))),
{
    lemma_path_push(root, path, k);
    assert(children_count(node_at(root, path), 0, 0) == 0);
    if k + 1 < node_at(root, path).children@.len() {
        lemma_path_push(root, path, k + 1);
        lemma_count_step(node_at(root, path), 0, k);
    }
}

proof fn lemma_find_child(n: MdNode, k: int, i: int) -> (r: int)
    requires
        0 <= k <= n.children@.len(),
        children_count(n, 0, k) <= i < children_count(n, 0, n.children@.len() as int),
    ensures
        k <= r < n.children@.len(),
        children_count(n, 0, r) <= i < children_count(n, 0, r) + node_count(n.children@[r]),
    decreases n.children@.len() - k,
{
    if k == n.children@.len() {
        k
    } else {
        lemma_count_step(n, 0, k);
        if i < children_count(n, 0, k) + node_count(n.children@[k]) {
            k
        } else {
            lemma_find_child(n, k + 1, i)
        }
    }
}

/// Every row of a document is the row of one of its nodes: the node that
/// the returned child indexes lead to from the root.
pub proof fn every_row_is_a_node(root: MdNode, i: int) -> (path: Seq<int>)
    requires
        0 <= i < flattened(root).len(),
    ensures
        valid_path(root, path),
        row_index(root, path) == i,
{
    lemma_flat_facts(root, 0, 0);
    lemma_node_path(root, i)
}

proof fn lemma_node_path(n: MdNode, i: int) -> (path: Seq<int>)
    requires
        0 <= i < node_count(n),
    ensures
        valid_path(n, path),
        row_index(n, path) == i,
    decreases i,
{
    if i == 0 {
        Seq::<int>::empty()
    } else {
        assert(children_count(n, 0, 0) == 0);
        let r = lemma_find_child(n, 0, i - 1);
        let c = n.children@[r];
        let rest = lemma_node_path(c, i - 1 - children_count(n, 0, r));
        let path = seq![r] + rest;
        assert(path.drop_first() =~= rest);
        assert(path[0] == r);
        path
    }
}

/// Flattening depends on the tree alone: the same tree gives the same rows.
pub proof fn flattening_is_deterministic(a: MdNode, b: MdNode)
    requires
        a == b,
    ensures
        flattened(a) == flattened(b),
{
}

/// Flattens the tree rooted at `root` into one row per node, in preorder
/// (a node before its descendants, children left to right), with ids
/// 0, 1, 2, ... in that order; the root is its own parent.
pub fn all_nodes(root: MdNode) -> (r: Vec<FlatRow>)
    ensures
        rows_view(r@) == flattened(root),
        r@.len() == node_count(root),
        r@.len() >= 1,
        r@[0].parent_id == 0,
        forall|j: int| 0 <= j < r@.len() ==> #[trigger] r@[j].id == j,
        forall|j: int| 0 < j < r@.len() ==> #[trigger] r@[j].parent_id < j,
{
    let mut rows: Vec<FlatRow> = Vec::new();
    let mut stack: Vec<(MdNode, usize)> = Vec::new();
    let ghost total = flattened(root);
    stack.push((root, 0));
    proof {
        assert(stack@.drop_last() =~= Seq::<(MdNode, usize)>::empty());
        assert(stack@.last() == (root, 0usize));
        assert(flat_stack(stack@.drop_last(), total.len()) =~= Seq::<RowSpec>::empty());
        assert(flat_stack(stack@, 0) =~= total);
        assert(rows_view(rows@) =~= Seq::<RowSpec>::empty());
        assert(rows_view(rows@) + flat_stack(stack@, 0) =~= total);
        lemma_flat_nonempty(root, 0, 0);
    }
    while stack.len() > 0
        invariant
            rows_view(rows@) + flat_stack(stack@, rows@.len() as nat) == total,
            total.len() >= rows@.len(),
        decreases total.len() - rows@.len(),
    {
        let ghost before = stack@;
        let entry = stack.pop().unwrap();
        let (n, p) = entry;
        let ghost gn = n;
        let ghost rest = stack@;
        let id = rows.len();
        proof {
            assert(before.last() == (gn, p));
            assert(before.drop_last() == rest);
        }
        let MdNode { kind, position, children } = n;
        let mut children = children;
        rows.push(FlatRow { id, parent_id: p, kind, position });
        while children.len() > 0
            invariant
                children@.len() <= gn.children@.len(),
                children@ == gn.children@.subrange(0, children@.len() as int),
                stack@ == rest + scheduled(
                    gn.children@.subrange(children@.len() as int, gn.children@.len() as int),
                    id,
                ),
            decreases children@.len(),
        {
            let ghost k = children@.len() as int;
            let c = children.pop().unwrap();
            stack.push((c, id));
            proof {
                assert(c == gn.children@[k - 1]);
                assert(stack@ =~= rest + scheduled(
                    gn.children@.subrange(k - 1, gn.children@.len() as int),
                    id,
                ));
            }
        }
        proof {
            assert(gn.children@.subrange(0, gn.children@.len() as int) =~= gn.children@);
            lemma_scheduled_children(rest, gn, 0, (id + 1) as nat, id);
            let fc = flat_children(gn, 0, (id + 1) as nat, id as nat);
            let old_rows = rows_view(rows@.drop_last());
            assert(rows@.drop_last() =~= rows@.subrange(0, id as int));
            assert(rows_view(rows@) =~= old_rows.push(row_of(gn, id as nat, p as nat)));
            assert(flat(gn, id as nat, p as nat) == seq![row_of(gn, id as nat, p as nat)] + fc);
            assert(flat_stack(before, id as nat) == flat(gn, id as nat, p as nat) + flat_stack(
                rest,
                (id + flat(gn, id as nat, p as nat).len()) as nat,
            ));
            assert(rows_view(rows@) + flat_stack(stack@, rows@.len() as nat) =~= old_rows
                + flat_stack(before, id as nat));
        }
    }
    proof {
        assert(flat_stack(stack@, rows@.len() as nat) =~= Seq::<RowSpec>::empty());
        assert(rows_view(rows@) =~= total);
        row_count_is_node_count(root);
        ids_follow_emission_order(root);
        parent_precedes_child(root);
        assert forall|j: int| 0 <= j < rows@.len() implies #[trigger] rows@[j].id == j by {
            assert(rows_view(rows@)[j] == rows@[j]@);
            assert(total[j].id == j);
        }
        assert forall|j: int| 0 < j < rows@.len() implies #[trigger] rows@[j].parent_id < j by {
            assert(rows_view(rows@)[j] == rows@[j]@);
            assert(total[j].parent_id < j);
        }
        assert(rows_view(rows@)[0] == rows@[0]@);
    }
    rows
}

} // verus!
