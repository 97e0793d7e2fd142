use crate::location::{Location, LocationView};
use crate::parser::node::{name_view, value_opt_view, Node, NodePtr, NodeView};
use crate::parser::node_kind::NodeKind;
use crate::parser::value::Value;
use vstd::prelude::*;

verus! {

/// A syntax tree: every node of one script, each found by its handle. The
/// node with handle 0 is the root. A node owns its children; the link to its
/// parent is a handle too and owns nothing.
#[derive(Debug)]
pub struct AST {
    nodes: Vec<Node>,
}

/// Whether the links of the nodes `t` form one tree under the node 0:
/// the root has no parent, every other node names as its parent an earlier
/// node that lists it among its children, every listed child names the
/// lister as its parent, and no node is listed twice.
pub open spec fn tree_wf(t: Seq<NodeView>) -> bool {
    &&& t.len() > 0
    &&& t[0].parent is None
    &&& forall|i: int|
        0 < i < t.len() ==> ((#[trigger] t[i].parent) matches Some(p) && p < i
            && t[p as int].children.contains(i as usize))
    &&& forall|i: int, k: int|
        0 <= i < t.len() && 0 <= k < t[i].children.len() ==> i < (#[trigger] t[i].children[k])
            < t.len() && t[t[i].children[k] as int].parent == Some(i as usize)
    &&& forall|i: int, j: int, k: int|
        0 <= i < t.len() && 0 <= j < k < t[i].children.len() ==> (#[trigger] t[i].children[j])
            < (#[trigger] t[i].children[k])
}

/// The tree `t` with one more node: `n`, taken without its links and added
/// as the last child of `parent`.
pub open spec fn with_node(t: Seq<NodeView>, parent: NodePtr, n: NodeView) -> Seq<NodeView> {
    let owner = t[parent as int];
    t.update(
        parent as int,
        NodeView { children: owner.children.push(t.len() as usize), ..owner },
    ).push(NodeView { parent: Some(parent), children: Seq::empty(), ..n })
}

/// The tree `t` with one more node: a node of the given kind and place,
/// without name or value, added as the last child of `parent`.
pub open spec fn with_child(
    t: Seq<NodeView>,
    parent: NodePtr,
    kind: NodeKind,
    location: LocationView,
) -> Seq<NodeView> {
    with_node(t, parent, NodeView::detached(kind, location))
}

/// Adding a child to a node of a well-formed tree gives a well-formed tree.
pub proof fn lemma_with_node_wf(t: Seq<NodeView>, parent: NodePtr, n: NodeView)
    requires
        tree_wf(t),
        parent < t.len(),
        t.len() < usize::MAX,
    ensures
        tree_wf(with_node(t, parent, n)),
{
    let u = with_node(t, parent, n);
    let n = t.len() as int;
    assert(u.len() == n + 1);
    assert forall|i: int| 0 < i < u.len() implies ((#[trigger] u[i].parent) matches Some(p) && p
        < i && u[p as int].children.contains(i as usize)) by {
        if i == n {
            assert(u[parent as int].children[t[parent as int].children.len() as int] == n);
        } else {
            let p = t[i].parent->0;
            assert(t[p as int].children.contains(i as usize));
            let k = choose|k: int|
                0 <= k < t[p as int].children.len() && t[p as int].children[k] == i as usize;
            assert(u[p as int].children[k] == i as usize);
        }
    }
    assert forall|i: int, k: int|
        0 <= i < u.len() && 0 <= k < u[i].children.len() implies i < (#[trigger] u[i].children[k])
        < u.len() && u[u[i].children[k] as int].parent == Some(i as usize) by {
        if i < n && k < t[i].children.len() {
            assert(t[i].children[k] == u[i].children[k]);
        }
    }
    assert forall|i: int, j: int, k: int|
        0 <= i < u.len() && 0 <= j < k < u[i].children.len() implies (#[trigger] u[i].children[j])
        < (#[trigger] u[i].children[k]) by {
        if i < n {
            assert(t[i].children[j] == u[i].children[j]);
            if k < t[i].children.len() {
                assert(t[i].children[k] == u[i].children[k]);
            }
        }
    }
}

/// Changing what a node holds, but not its links, keeps a tree well formed.
pub proof fn lemma_same_links_wf(t: Seq<NodeView>, id: NodePtr, n: NodeView)
    requires
        tree_wf(t),
        id < t.len(),
        n.parent == t[id as int].parent,
        n.children == t[id as int].children,
    ensures
        tree_wf(t.update(id as int, n)),
{
    let u = t.update(id as int, n);
    assert forall|i: int| 0 < i < u.len() implies ((#[trigger] u[i].parent) matches Some(p) && p
        < i && u[p as int].children.contains(i as usize)) by {
        let p = t[i].parent->0;
        assert(t[p as int].children.contains(i as usize));
        assert(u[p as int].children == t[p as int].children);
    }
    assert forall|i: int, k: int|
        0 <= i < u.len() && 0 <= k < u[i].children.len() implies i < (#[trigger] u[i].children[k])
        < u.len() && u[u[i].children[k] as int].parent == Some(i as usize) by {
        assert(t[i].children[k] == u[i].children[k]);
    }
    assert forall|i: int, j: int, k: int|
        0 <= i < u.len() && 0 <= j < k < u[i].children.len() implies (#[trigger] u[i].children[j])
        < (#[trigger] u[i].children[k]) by {
        assert(t[i].children[j] == u[i].children[j]);
        assert(t[i].children[k] == u[i].children[k]);
    }
}

/// The first handle of `s` that satisfies `p`, if one does.
pub open spec fn first_where(s: Seq<NodePtr>, p: spec_fn(NodePtr) -> bool) -> Option<NodePtr>
    decreases s.len(),
{
    if s.len() == 0 {
        None
    } else if p(s[0]) {
        Some(s[0])
    } else {
        first_where(s.drop_first(), p)
    }
}

/// `first_where` gives the handle at place `i` when it satisfies `p` and
/// none before it does.
pub proof fn lemma_first_where_found(s: Seq<NodePtr>, p: spec_fn(NodePtr) -> bool, i: int)
    requires
        0 <= i < s.len(),
        p(s[i]),
        forall|j: int| 0 <= j < i ==> !p(#[trigger] s[j]),
    ensures
        first_where(s, p) == Some(s[i]),
    decreases i,
{
    if i > 0 {
        let t = s.drop_first();
        assert forall|j: int| 0 <= j < i - 1 implies !p(#[trigger] t[j]) by {
            assert(t[j] == s[j + 1]);
        }
        lemma_first_where_found(t, p, i - 1);
    }
}

/// `first_where` gives nothing when no handle satisfies `p`.
pub proof fn lemma_first_where_none(s: Seq<NodePtr>, p: spec_fn(NodePtr) -> bool)
    requires
        forall|j: int| 0 <= j < s.len() ==> !p(#[trigger] s[j]),
    ensures
        first_where(s, p) is None,
    decreases s.len(),
{
    if s.len() > 0 {
        let t = s.drop_first();
        assert forall|j: int| 0 <= j < t.len() implies !p(#[trigger] t[j]) by {
            assert(t[j] == s[j + 1]);
        }
        lemma_first_where_none(t, p);
    }
}

/// Whether the node `c` of the tree `t` has the kind `k`.
pub open spec fn has_kind(t: Seq<NodeView>, k: NodeKind) -> spec_fn(NodePtr) -> bool {
    |c: NodePtr| c < t.len() && t[c as int].kind == k
}

/// Whether the node `c` of the tree `t` has the name `name`.
pub open spec fn has_name(t: Seq<NodeView>, name: Seq<char>) -> spec_fn(NodePtr) -> bool {
    |c: NodePtr| c < t.len() && t[c as int].name == Some(name)
}

/// The handles of the ancestors of the node `id`: its parent first, the
/// root last.
pub open spec fn ancestors_of(t: Seq<NodeView>, id: NodePtr) -> Seq<NodePtr>
    decreases id,
{
    match t[id as int].parent {
        Some(p) => if p < id {
            seq![p] + ancestors_of(t, p)
        } else {
            Seq::empty()
        },
        None => Seq::empty(),
    }
}

/// Whether the node `c` stands in the part of the tree `t` that hangs under
/// `top`, `top` itself included.
pub open spec fn is_descendant(t: Seq<NodeView>, top: NodePtr, c: NodePtr) -> bool {
    c < t.len() && (c == top || ancestors_of(t, c).contains(top))
}

/// The ancestors of a node other than the root are its parent and the
/// parent's ancestors.
pub proof fn lemma_ancestors_unfold(t: Seq<NodeView>, c: NodePtr)
    requires
        tree_wf(t),
        0 < c < t.len(),
    ensures
        t[c as int].parent is Some,
        t[c as int].parent->0 < c,
        ancestors_of(t, c) == seq![t[c as int].parent->0] + ancestors_of(
            t,
            t[c as int].parent->0,
        ),
        forall|x: NodePtr|
            ancestors_of(t, c).contains(x) <==> (x == t[c as int].parent->0 || ancestors_of(
                t,
                t[c as int].parent->0,
            ).contains(x)),
{
    let p = t[c as int].parent->0;
    let rest = ancestors_of(t, p);
    let all = seq![p] + rest;
    assert forall|x: NodePtr| all.contains(x) <==> (x == p || rest.contains(x)) by {
        if all.contains(x) {
            let i = choose|i: int| 0 <= i < all.len() && all[i] == x;
            if i > 0 {
                assert(rest[i - 1] == x);
            }
        }
        if x == p {
            assert(all[0] == x);
        }
        if rest.contains(x) {
            let i = choose|i: int| 0 <= i < rest.len() && rest[i] == x;
            assert(all[i + 1] == x);
        }
    }
}

/// The root has no ancestors.
pub proof fn lemma_root_has_no_ancestors(t: Seq<NodeView>)
    requires
        tree_wf(t),
    ensures
        ancestors_of(t, 0) == Seq::<NodePtr>::empty(),
{
}

/// What hangs under a node, the node aside, hangs under one of its
/// children.
pub proof fn lemma_descendant_under_child(t: Seq<NodeView>, node: NodePtr, c: NodePtr) -> (k: int)
    requires
        tree_wf(t),
        node < t.len(),
        is_descendant(t, node, c),
        c != node,
    ensures
        0 <= k < t[node as int].children.len(),
        is_descendant(t, t[node as int].children[k], c),
    decreases c,
{
    if c == 0 {
        lemma_root_has_no_ancestors(t);
        0
    } else {
        lemma_ancestors_unfold(t, c);
        let p = t[c as int].parent->0;
        if p == node {
            assert(t[p as int].children.contains(c));
            choose|k: int| 0 <= k < t[node as int].children.len() && t[node as int].children[k] == c
        } else {
            let k = lemma_descendant_under_child(t, node, p);
            let child = t[node as int].children[k];
            if p != child {
                assert(ancestors_of(t, c).contains(child));
            }
            k
        }
    }
}

/// One line of the listing of a tree.
#[derive(Copy, Clone, PartialEq, Eq, Structural, Debug)]
pub enum DumpLine {
    /// The head of a node that is no leaf; its children follow.
    Open { indent: usize, node: NodePtr },
    /// A leaf.
    Leaf { indent: usize, node: NodePtr },
    /// The end of the node that was opened last at this depth.
    Close { indent: usize },
}

/// The listing of the node `node` of the tree `t` and of what hangs under
/// it, `indent` steps deep: the node's own line, the listings of its
/// children one step deeper, and a closing line unless the node is a leaf.
pub open spec fn dump_lines(t: Seq<NodeView>, node: NodePtr, indent: usize) -> Seq<DumpLine>
    decreases t.len() - node, t[node as int].children.len() + 1,
{
    if t[node as int].kind == NodeKind::Leaf {
        seq![DumpLine::Leaf { indent, node }] + dump_children(
            t,
            node,
            t[node as int].children.len(),
            indent,
        )
    } else {
        seq![DumpLine::Open { indent, node }] + dump_children(
            t,
            node,
            t[node as int].children.len(),
            indent,
        ) + seq![DumpLine::Close { indent }]
    }
}

/// The listings of the first `k` children of `node`, one after the other.
pub open spec fn dump_children(t: Seq<NodeView>, node: NodePtr, k: nat, indent: usize) -> Seq<
    DumpLine,
>
    decreases t.len() - node, k,
{
    if k == 0 {
        Seq::empty()
    } else {
        let c = t[node as int].children[k - 1];
        dump_children(t, node, (k - 1) as nat, indent) + if node < c < t.len() {
            dump_lines(t, c, (indent + 1) as usize)
        } else {
            Seq::empty()
        }
    }
}

/// The nodes that hang under `node`, `node` first, in the order in which a
/// walk that goes to the depth first and from left to right meets them.
pub open spec fn preorder(t: Seq<NodeView>, node: NodePtr) -> Seq<NodePtr>
    decreases t.len() - node, t[node as int].children.len() + 1,
{
    seq![node] + preorder_children(t, node, t[node as int].children.len())
}

/// The nodes that hang under the first `k` children of `node`, in the order
/// of the walk.
pub open spec fn preorder_children(t: Seq<NodeView>, node: NodePtr, k: nat) -> Seq<NodePtr>
    decreases t.len() - node, k,
{
    if k == 0 {
        Seq::empty()
    } else {
        let c = t[node as int].children[k - 1];
        preorder_children(t, node, (k - 1) as nat) + if node < c < t.len() {
            preorder(t, c)
        } else {
            Seq::empty()
        }
    }
}

/// The walk under the first `m` children of a node begins with the walk
/// under the first `k` of them; the lemma hands back what follows.
pub proof fn lemma_preorder_children_rest(t: Seq<NodeView>, node: NodePtr, k: nat, m: nat) -> (rest:
    Seq<NodePtr>)
    requires
        k <= m,
    ensures
        preorder_children(t, node, m) == preorder_children(t, node, k) + rest,
    decreases m,
{
    if k == m {
        assert(preorder_children(t, node, k) + Seq::<NodePtr>::empty() =~= preorder_children(
            t,
            node,
            k,
        ));
        Seq::empty()
    } else {
        let inner = lemma_preorder_children_rest(t, node, k, (m - 1) as nat);
        let c = t[node as int].children[m - 1];
        let last = if node < c < t.len() {
            preorder(t, c)
        } else {
            Seq::empty()
        };
        assert(preorder_children(t, node, k) + (inner + last) =~= (preorder_children(t, node, k)
            + inner) + last);
        inner + last
    }
}

/// What the walk meets under one of the first `m` children of a node, it
/// meets under those `m` children.
pub proof fn lemma_preorder_children_contains(
    t: Seq<NodeView>,
    node: NodePtr,
    m: nat,
    k: int,
    c: NodePtr,
)
    requires
        tree_wf(t),
        node < t.len(),
        0 <= k < m <= t[node as int].children.len(),
        preorder(t, t[node as int].children[k]).contains(c),
    ensures
        preorder_children(t, node, m).contains(c),
    decreases m,
{
    let head = preorder_children(t, node, (m - 1) as nat);
    let last = t[node as int].children[m - 1];
    let tail = preorder(t, last);
    assert(preorder_children(t, node, m) == head + tail);
    if k == m - 1 {
        let i = choose|i: int| 0 <= i < tail.len() && tail[i] == c;
        assert((head + tail)[head.len() + i] == c);
    } else {
        lemma_preorder_children_contains(t, node, (m - 1) as nat, k, c);
        let i = choose|i: int| 0 <= i < head.len() && head[i] == c;
        assert((head + tail)[i] == c);
    }
}

/// The walk from a node meets every node that hangs under it.
pub proof fn lemma_preorder_contains(t: Seq<NodeView>, node: NodePtr, c: NodePtr)
    requires
        tree_wf(t),
        node < t.len(),
        is_descendant(t, node, c),
    ensures
        preorder(t, node).contains(c),
    decreases t.len() - node,
{
    let below = preorder_children(t, node, t[node as int].children.len());
    let all = seq![node] + below;
    if c == node {
        assert(all[0] == c);
    } else {
        let k = lemma_descendant_under_child(t, node, c);
        let child = t[node as int].children[k];
        lemma_preorder_contains(t, child, c);
        lemma_preorder_children_contains(t, node, t[node as int].children.len(), k, c);
        let i = choose|i: int| 0 <= i < below.len() && below[i] == c;
        assert(all[i + 1] == c);
    }
}

/// Every node of a tree hangs under its root.
pub proof fn lemma_root_is_over_all(t: Seq<NodeView>, c: NodePtr)
    requires
        tree_wf(t),
        c < t.len(),
    ensures
        is_descendant(t, 0, c),
    decreases c,
{
    if c != 0 {
        lemma_ancestors_unfold(t, c);
        let p = t[c as int].parent->0;
        if p != 0 {
            lemma_root_is_over_all(t, p);
        }
    }
}

/// The walk from the root meets every node of the tree.
pub proof fn lemma_preorder_is_complete(t: Seq<NodeView>, c: NodePtr)
    requires
        tree_wf(t),
        c < t.len(),
    ensures
        preorder(t, 0).contains(c),
{
    lemma_root_is_over_all(t, c);
    lemma_preorder_contains(t, 0, c);
}

/// The walk from a node meets only nodes of the tree.
pub proof fn lemma_preorder_in_tree(t: Seq<NodeView>, node: NodePtr)
    requires
        tree_wf(t),
        node < t.len(),
    ensures
        forall|i: int|
            0 <= i < preorder(t, node).len() ==> #[trigger] preorder(t, node)[i] < t.len(),
    decreases t.len() - node, t[node as int].children.len() + 1,
{
    let below = preorder_children(t, node, t[node as int].children.len());
    lemma_preorder_children_in_tree(t, node, t[node as int].children.len());
    assert forall|i: int| 0 <= i < preorder(t, node).len() implies #[trigger] preorder(
        t,
        node,
    )[i] < t.len() by {
        if i > 0 {
            assert(preorder(t, node)[i] == below[i - 1]);
        }
    }
}

/// The walk under the first `k` children of a node meets only nodes of the
/// tree.
pub proof fn lemma_preorder_children_in_tree(t: Seq<NodeView>, node: NodePtr, k: nat)
    requires
        tree_wf(t),
        node < t.len(),
        k <= t[node as int].children.len(),
    ensures
        forall|i: int|
            0 <= i < preorder_children(t, node, k).len() ==> #[trigger] preorder_children(
                t,
                node,
                k,
            )[i] < t.len(),
    decreases t.len() - node, k,
{
    if k > 0 {
        let c = t[node as int].children[k - 1];
        let head = preorder_children(t, node, (k - 1) as nat);
        let tail = preorder(t, c);
        lemma_preorder_children_in_tree(t, node, (k - 1) as nat);
        lemma_preorder_in_tree(t, c);
        assert(preorder_children(t, node, k) == head + tail);
        assert forall|i: int| 0 <= i < (head + tail).len() implies #[trigger] (head + tail)[i]
            < t.len() by {
            if i < head.len() {
                assert((head + tail)[i] == head[i]);
            } else {
                assert((head + tail)[i] == tail[i - head.len()]);
            }
        }
    }
}

impl View for AST {
    type V = Seq<NodeView>;

    closed spec fn view(&self) -> Seq<NodeView> {
        self.nodes@.map_values(|n: Node| n@)
    }
}

impl Default for AST {
    /// A tree that holds only a root of kind `Global`.
    fn default() -> (t: AST)
        ensures
            t@ == seq![NodeView::detached(NodeKind::Global, LocationView::start())],
            t.wf(),
    {
        AST::new(Node::default())
    }
}

impl AST {
    /// Whether the links of this tree's nodes are consistent.
    pub open spec fn wf(&self) -> bool {
        tree_wf(self@)
    }

    /// A tree that holds only `root`, taken without its links.
    pub fn new(root: Node) -> (t: AST)
        ensures
            t@ == seq![NodeView { parent: None, children: Seq::empty(), ..root@ }],
            t.wf(),
    {
        let mut root = root;
        root.set_parent(None);
        root.clear_children();
        let mut nodes: Vec<Node> = Vec::new();
        nodes.push(root);
        let t = AST { nodes };
        assert(t@ =~= seq![root@]);
        t
    }

    /// The handle of the root.
    pub fn root(&self) -> (r: NodePtr)
        ensures
            r == 0,
    {
        0
    }

    /// The number of nodes.
    pub fn len(&self) -> (n: usize)
        ensures
            n == self@.len(),
    {
        self.nodes.len()
    }

    /// The node with handle `id`.
    pub fn node(&self, id: NodePtr) -> (n: &Node)
        requires
            id < self@.len(),
        ensures
            n@ == self@[id as int],
    {
        &self.nodes[id]
    }

    /// The node with handle `id`, if the tree has one.
    pub fn get(&self, id: NodePtr) -> (n: Option<&Node>)
        ensures
            id < self@.len() ==> (n matches Some(x) && x@ == self@[id as int]),
            id >= self@.len() ==> n is None,
    {
        if id < self.nodes.len() {
            Some(&self.nodes[id])
        } else {
            None
        }
    }

    /// Adds a node of the given kind and place as the last child of `parent`
    /// and returns its handle.
    pub fn create_child(&mut self, parent: NodePtr, kind: NodeKind, loc: Location) -> (id: NodePtr)
        requires
            old(self).wf(),
            parent < old(self)@.len(),
        ensures
            id == old(self)@.len(),
            final(self)@ == with_child(old(self)@, parent, kind, loc@),
            final(self).wf(),
    {
        let id = self.nodes.len();
        let mut n = Node::new(kind, loc);
        n.set_parent(Some(parent));
        self.nodes[parent].push_child(id);
        self.nodes.push(n);
        proof {
            assert(self.nodes@.len() == self.nodes.len());
            assert(self@ =~= with_child(old(self)@, parent, kind, loc@));
            lemma_with_node_wf(old(self)@, parent, NodeView::detached(kind, loc@));
        }
        id
    }

    /// Adds `child`, taken without its links, as the last child of `parent`
    /// and returns its handle.
    pub fn add_child(&mut self, parent: NodePtr, child: Node) -> (id: NodePtr)
        requires
            old(self).wf(),
            parent < old(self)@.len(),
        ensures
            id == old(self)@.len(),
            final(self)@ == with_node(old(self)@, parent, child@),
            final(self).wf(),
    {
        let id = self.nodes.len();
        let mut n = child;
        n.set_parent(Some(parent));
        n.clear_children();
        self.nodes[parent].push_child(id);
        self.nodes.push(n);
        proof {
            assert(self.nodes@.len() == self.nodes.len());
            assert(self@ =~= with_node(old(self)@, parent, child@));
            lemma_with_node_wf(old(self)@, parent, child@);
        }
        id
    }

    /// Calls `f` on each child of the root, in order.
    pub fn walk<F: Fn(NodePtr)>(&self, f: F)
        requires
            forall|c: NodePtr| #[trigger] call_requires(f, (c,)),
        ensures
            self@.len() > 0 ==> forall|k: int|
                0 <= k < self@[0].children.len() ==> call_ensures(
                    f,
                    (#[trigger] self@[0].children[k],),
                    (),
                ),
    {
        if self.nodes.len() == 0 {
            return ;
        }
        let children = self.nodes[0].children();
        let mut i: usize = 0;
        while i < children.len()
            invariant
                self@.len() > 0,
                children@ == self@[0].children,
                i <= children.len(),
                forall|c: NodePtr| #[trigger] call_requires(f, (c,)),
                forall|k: int| 0 <= k < i ==> call_ensures(f, (#[trigger] children@[k],), ()),
            decreases children.len() - i,
        {
            f(children[i]);
            i += 1;
        }
    }

    /// Lists the node `node` and what hangs under it, `indent` steps deep.
    pub fn dump(&self, node: NodePtr, indent: usize) -> (lines: Vec<DumpLine>)
        requires
            self.wf(),
            node < self@.len(),
            indent + (self@.len() - node) <= usize::MAX,
        ensures
            lines@ == dump_lines(self@, node, indent),
        decreases self@.len() - node,
    {
        let ghost t = self@;
        let n = &self.nodes[node];
        let leaf = *n.kind() == NodeKind::Leaf;
        let mut lines: Vec<DumpLine> = Vec::new();
        if leaf {
            lines.push(DumpLine::Leaf { indent, node });
        } else {
            lines.push(DumpLine::Open { indent, node });
        }
        let ghost head = lines@;
        let children = n.children();
        let mut i: usize = 0;
        proof {
            assert(head + dump_children(t, node, 0, indent) =~= head);
        }
        while i < children.len()
            invariant
                self.wf(),
                t == self@,
                node < t.len(),
                indent + (t.len() - node) <= usize::MAX,
                children@ == t[node as int].children,
                i <= children.len(),
                lines@ == head + dump_children(t, node, i as nat, indent),
            decreases children.len() - i,
        {
            let c = children[i];
            assert(c == t[node as int].children[i as int]);
            let mut below = self.dump(c, indent + 1);
            proof {
                assert(dump_children(t, node, (i + 1) as nat, indent) == dump_children(
                    t,
                    node,
                    i as nat,
                    indent,
                ) + dump_lines(t, c, (indent + 1) as usize));
                assert(head + (dump_children(t, node, i as nat, indent) + below@) =~= (head
                    + dump_children(t, node, i as nat, indent)) + below@);
            }
            lines.append(&mut below);
            i += 1;
        }
        if !leaf {
            lines.push(DumpLine::Close { indent });
        }
        lines
    }

    /// The name of the node `id`, to read or to change.
    pub fn name_mut(&mut self, id: NodePtr) -> (r: &mut Option<String>)
        requires
            id < old(self)@.len(),
        ensures
            name_view(*r) == old(self)@[id as int].name,
            final(self)@ == old(self)@.update(
                id as int,
                NodeView { name: name_view(*final(r)), ..old(self)@[id as int] },
            ),
            old(self).wf() ==> final(self).wf(),
    {
        let ghost before = self@;
        let r = self.nodes[id].name_mut();
        proof {
            let n = NodeView { name: name_view(*final(r)), ..before[id as int] };
            assert(after_borrow(self)@ =~= before.update(id as int, n));
            if tree_wf(before) {
                lemma_same_links_wf(before, id, n);
            }
        }
        r
    }

    /// The kind of the node `id`, to read or to change.
    pub fn kind_mut(&mut self, id: NodePtr) -> (r: &mut NodeKind)
        requires
            id < old(self)@.len(),
        ensures
            *r == old(self)@[id as int].kind,
            final(self)@ == old(self)@.update(
                id as int,
                NodeView { kind: *final(r), ..old(self)@[id as int] },
            ),
            old(self).wf() ==> final(self).wf(),
    {
        let ghost before = self@;
        let r = self.nodes[id].kind_mut();
        proof {
            let n = NodeView { kind: *final(r), ..before[id as int] };
            assert(after_borrow(self)@ =~= before.update(id as int, n));
            if tree_wf(before) {
                lemma_same_links_wf(before, id, n);
            }
        }
        r
    }

    /// The value of the node `id`, to read or to change.
    pub fn value_mut(&mut self, id: NodePtr) -> (r: &mut Option<Value>)
        requires
            id < old(self)@.len(),
        ensures
            value_opt_view(*r) == old(self)@[id as int].value,
            final(self)@ == old(self)@.update(
                id as int,
                NodeView { value: value_opt_view(*final(r)), ..old(self)@[id as int] },
            ),
            old(self).wf() ==> final(self).wf(),
    {
        let ghost before = self@;
        let r = self.nodes[id].value_mut();
        proof {
            let n = NodeView { value: value_opt_view(*final(r)), ..before[id as int] };
            assert(after_borrow(self)@ =~= before.update(id as int, n));
            if tree_wf(before) {
                lemma_same_links_wf(before, id, n);
            }
        }
        r
    }

    /// The place of the node `id`, to read or to change.
    pub fn location_mut(&mut self, id: NodePtr) -> (r: &mut Location)
        requires
            id < old(self)@.len(),
        ensures
            r@ == old(self)@[id as int].location,
            final(self)@ == old(self)@.update(
                id as int,
                NodeView { location: final(r)@, ..old(self)@[id as int] },
            ),
            old(self).wf() ==> final(self).wf(),
    {
        let ghost before = self@;
        let r = self.nodes[id].location_mut();
        proof {
            let n = NodeView { location: final(r)@, ..before[id as int] };
            assert(after_borrow(self)@ =~= before.update(id as int, n));
            if tree_wf(before) {
                lemma_same_links_wf(before, id, n);
            }
        }
        r
    }

    /// The handle of the child of `id` at place `idx`, if there is one.
    pub fn get_child(&self, id: NodePtr, idx: usize) -> (r: Option<NodePtr>)
        requires
            id < self@.len(),
        ensures
            r == if idx < self@[id as int].children.len() {
                Some(self@[id as int].children[idx as int])
            } else {
                None
            },
    {
        self.nodes[id].get_child(idx)
    }

    /// The kind of the parent of `id`, if it has a parent.
    pub fn parent_kind(&self, id: NodePtr) -> (r: Option<NodeKind>)
        requires
            self.wf(),
            id < self@.len(),
        ensures
            r == match self@[id as int].parent {
                Some(p) => Some(self@[p as int].kind),
                None => None,
            },
    {
        match *self.nodes[id].parent() {
            Some(p) => {
                assert(self@[id as int].parent == Some(p));
                Some(*self.nodes[p].kind())
            },
            None => None,
        }
    }

    /// The first child of `id` that has the kind `k`.
    pub fn child_by_kind(&self, id: NodePtr, k: NodeKind) -> (r: Option<NodePtr>)
        requires
            self.wf(),
            id < self@.len(),
        ensures
            r == first_where(self@[id as int].children, has_kind(self@, k)),
            r matches Some(c) ==> self@[id as int].children.contains(c) && c < self@.len()
                && self@[c as int].kind == k,
            r is None ==> forall|j: int|
                0 <= j < self@[id as int].children.len() ==> self@[(
                #[trigger] self@[id as int].children[j]) as int].kind != k,
    {
        let children = self.nodes[id].children();
        let ghost p = has_kind(self@, k);
        let mut i: usize = 0;
        while i < children.len()
            invariant
                self.wf(),
                id < self@.len(),
                children@ == self@[id as int].children,
                p == has_kind(self@, k),
                i <= children.len(),
                forall|j: int| 0 <= j < i ==> !p(#[trigger] children@[j]),
            decreases children.len() - i,
        {
            let c = children[i];
            assert(c == self@[id as int].children[i as int]);
            if *self.nodes[c].kind() == k {
                proof {
                    lemma_first_where_found(children@, p, i as int);
                }
                return Some(c);
            }
            i += 1;
        }
        proof {
            lemma_first_where_none(children@, p);
            assert forall|j: int| 0 <= j < self@[id as int].children.len() implies self@[(
            #[trigger] self@[id as int].children[j]) as int].kind != k by {
                assert(!p(children@[j]));
            }
        }
        None
    }

    /// Every child of `id` that has the kind `k`, in order.
    pub fn children_by_kind(&self, id: NodePtr, k: NodeKind) -> (r: Vec<NodePtr>)
        requires
            self.wf(),
            id < self@.len(),
        ensures
            r@ == self@[id as int].children.filter(has_kind(self@, k)),
    {
        let children = self.nodes[id].children();
        let ghost p = has_kind(self@, k);
        let mut r: Vec<NodePtr> = Vec::new();
        let mut i: usize = 0;
        proof {
            assert(children@.take(0) =~= Seq::empty());
            reveal(Seq::filter);
        }
        while i < children.len()
            invariant
                self.wf(),
                id < self@.len(),
                children@ == self@[id as int].children,
                p == has_kind(self@, k),
                i <= children.len(),
                r@ == children@.take(i as int).filter(p),
            decreases children.len() - i,
        {
            let c = children[i];
            assert(c == self@[id as int].children[i as int]);
            proof {
                let next = children@.take(i + 1);
                assert(next.drop_last() =~= children@.take(i as int));
                assert(next.last() == c);
                reveal(Seq::filter);
            }
            if *self.nodes[c].kind() == k {
                r.push(c);
            }
            i += 1;
        }
        assert(children@.take(children.len() as int) =~= children@);
        r
    }

    /// The first child of `id` that has the name `n`.
    pub fn child_by_name(&self, id: NodePtr, n: &str) -> (r: Option<NodePtr>)
        requires
            self.wf(),
            id < self@.len(),
        ensures
            r == first_where(self@[id as int].children, has_name(self@, n@)),
            r matches Some(c) ==> self@[id as int].children.contains(c) && c < self@.len()
                && self@[c as int].name == Some(n@),
            r is None ==> forall|j: int|
                0 <= j < self@[id as int].children.len() ==> self@[(
                #[trigger] self@[id as int].children[j]) as int].name != Some(n@),
    {
        let wanted = String::from_str(n);
        let children = self.nodes[id].children();
        let ghost p = has_name(self@, n@);
        let mut i: usize = 0;
        while i < children.len()
            invariant
                self.wf(),
                id < self@.len(),
                children@ == self@[id as int].children,
                p == has_name(self@, n@),
                wanted@ == n@,
                i <= children.len(),
                forall|j: int| 0 <= j < i ==> !p(#[trigger] children@[j]),
            decreases children.len() - i,
        {
            let c = children[i];
            assert(c == self@[id as int].children[i as int]);
            let found = match self.nodes[c].name() {
                Some(s) => *s == wanted,
                None => false,
            };
            if found {
                proof {
                    lemma_first_where_found(children@, p, i as int);
                }
                return Some(c);
            }
            i += 1;
        }
        proof {
            lemma_first_where_none(children@, p);
            assert forall|j: int| 0 <= j < self@[id as int].children.len() implies self@[(
            #[trigger] self@[id as int].children[j]) as int].name != Some(n@) by {
                assert(!p(children@[j]));
            }
        }
        None
    }

    /// The topmost ancestor of `id`: nothing for a node without a parent,
    /// else the root.
    pub fn root_of(&self, id: NodePtr) -> (r: Option<NodePtr>)
        requires
            self.wf(),
            id < self@.len(),
        ensures
            r == if id == 0 {
                None
            } else {
                Some(0usize)
            },
            (r is None) == (self@[id as int].parent is None),
    {
        let mut top: NodePtr = match *self.nodes[id].parent() {
            Some(p) => p,
            None => {
                return None;
            },
        };
        loop
            invariant
                self.wf(),
                top < self@.len(),
                id != 0,
            ensures
                top == 0,
            decreases top,
        {
            match *self.nodes[top].parent() {
                Some(p) => {
                    assert(self@[top as int].parent == Some(p));
                    top = p;
                },
                None => {
                    assert(self@[top as int].parent is None);
                    break;
                },
            }
        }
        Some(top)
    }

    /// The ancestors of `id`: its parent first, the root last.
    pub fn ancestors(&self, id: NodePtr) -> (r: Vec<NodePtr>)
        requires
            self.wf(),
            id < self@.len(),
        ensures
            r@ == ancestors_of(self@, id),
            forall|j: int| 0 <= j < r@.len() ==> #[trigger] r@[j] < self@.len(),
    {
        let mut r: Vec<NodePtr> = Vec::new();
        let mut cur: NodePtr = id;
        loop
            invariant
                self.wf(),
                cur < self@.len(),
                r@ + ancestors_of(self@, cur) == ancestors_of(self@, id),
                forall|j: int| 0 <= j < r@.len() ==> #[trigger] r@[j] < self@.len(),
            ensures
                r@ == ancestors_of(self@, id),
                forall|j: int| 0 <= j < r@.len() ==> #[trigger] r@[j] < self@.len(),
            decreases cur,
        {
            match *self.nodes[cur].parent() {
                Some(p) => {
                    assert(self@[cur as int].parent == Some(p));
                    proof {
                        assert(ancestors_of(self@, cur) == seq![p] + ancestors_of(self@, p));
                        assert(r@.push(p) + ancestors_of(self@, p) =~= r@ + ancestors_of(
                            self@,
                            cur,
                        ));
                    }
                    r.push(p);
                    cur = p;
                },
                None => {
                    assert(self@[cur as int].parent is None);
                    assert(ancestors_of(self@, cur) =~= Seq::empty());
                    assert(r@ + Seq::<NodePtr>::empty() =~= r@);
                    break;
                },
            }
        }
        r
    }
}

impl Clone for AST {
    fn clone(&self) -> (t: AST)
        ensures
            t@ == self@,
    {
        let mut nodes: Vec<Node> = Vec::new();
        let mut i: usize = 0;
        while i < self.nodes.len()
            invariant
                i <= self.nodes.len(),
                nodes.len() == i,
                forall|j: int| 0 <= j < i ==> (#[trigger] nodes@[j])@ == self.nodes@[j]@,
            decreases self.nodes.len() - i,
        {
            nodes.push(self.nodes[i].clone());
            i += 1;
        }
        let t = AST { nodes };
        assert(t@ =~= self@);
        t
    }
}

} // verus!
