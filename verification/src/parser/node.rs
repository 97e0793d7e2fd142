use crate::location::{Location, LocationView};
use crate::parser::node_kind::NodeKind;
use crate::parser::value::{Value, ValueView};
use vstd::prelude::*;

verus! {

/// The handle of a node: its place in the tree that owns it.
pub type NodePtr = usize;

/// One node of a syntax tree. The links to its parent and to its children
/// are handles into the tree that owns the node.
#[derive(Debug, PartialEq)]
pub struct Node {
    parent: Option<NodePtr>,
    kind: NodeKind,
    name: Option<String>,
    location: Location,
    children: Vec<NodePtr>,
    value: Option<Value>,
}

/// The mathematical content of a [`Node`].
pub struct NodeView {
    pub parent: Option<NodePtr>,
    pub kind: NodeKind,
    pub name: Option<Seq<char>>,
    pub location: LocationView,
    pub children: Seq<NodePtr>,
    pub value: Option<ValueView>,
}

/// The content of an optional name.
pub open spec fn name_view(name: Option<String>) -> Option<Seq<char>> {
    match name {
        Some(n) => Some(n@),
        None => None,
    }
}

/// The content of an optional value.
pub open spec fn value_opt_view(value: Option<Value>) -> Option<ValueView> {
    match value {
        Some(v) => Some(v@),
        None => None,
    }
}

impl View for Node {
    type V = NodeView;

    closed spec fn view(&self) -> NodeView {
        NodeView {
            parent: self.parent,
            kind: self.kind,
            name: name_view(self.name),
            location: self.location@,
            children: self.children@,
            value: value_opt_view(self.value),
        }
    }
}

impl NodeView {
    /// A node of the given kind and place with no name, no value and no links.
    pub open spec fn detached(kind: NodeKind, location: LocationView) -> NodeView {
        NodeView {
            parent: None,
            kind,
            name: None,
            location,
            children: Seq::empty(),
            value: None,
        }
    }
}

impl Default for Node {
    fn default() -> (n: Node)
        ensures
            n@ == NodeView::detached(NodeKind::Global, LocationView::start()),
    {
        Node::new(NodeKind::Global, Location::default())
    }
}

impl Clone for Node {
    fn clone(&self) -> (n: Node)
        ensures
            n@ == self@,
    {
        let name = match &self.name {
            Some(s) => Some(s.clone()),
            None => None,
        };
        let value = match &self.value {
            Some(v) => Some(v.clone()),
            None => None,
        };
        let mut children: Vec<NodePtr> = Vec::new();
        let mut i: usize = 0;
        while i < self.children.len()
            invariant
                i <= self.children.len(),
                children@ == self.children@.take(i as int),
            decreases self.children.len() - i,
        {
            children.push(self.children[i]);
            assert(self.children@.take(i + 1) =~= self.children@.take(i as int).push(
                self.children@[i as int],
            ));
            i += 1;
        }
        assert(self.children@.take(self.children.len() as int) =~= self.children@);
        Node {
            parent: self.parent,
            kind: self.kind,
            name,
            location: self.location.clone(),
            children,
            value,
        }
    }
}

impl Node {
    /// A node of the given kind and place with no name, no value and no links.
    pub fn new(kind: NodeKind, loc: Location) -> (n: Node)
        ensures
            n@ == NodeView::detached(kind, loc@),
    {
        Node { parent: None, kind, name: None, location: loc, children: Vec::new(), value: None }
    }

    /// The name, if the node has one.
    pub fn name(&self) -> (r: &Option<String>)
        ensures
            name_view(*r) == self@.name,
    {
        &self.name
    }

    /// The name, to read or to change.
    pub fn name_mut(&mut self) -> (r: &mut Option<String>)
        ensures
            name_view(*r) == old(self)@.name,
            final(self)@ == (NodeView { name: name_view(*final(r)), ..old(self)@ }),
    {
        &mut self.name
    }

    /// What the node stands for.
    pub fn kind(&self) -> (r: &NodeKind)
        ensures
            *r == self@.kind,
    {
        &self.kind
    }

    /// The kind, to read or to change.
    pub fn kind_mut(&mut self) -> (r: &mut NodeKind)
        ensures
            *r == old(self)@.kind,
            final(self)@ == (NodeView { kind: *final(r), ..old(self)@ }),
    {
        &mut self.kind
    }

    /// Where in its script the node was opened.
    pub fn location(&self) -> (r: &Location)
        ensures
            r@ == self@.location,
    {
        &self.location
    }

    /// The place, to read or to change.
    pub fn location_mut(&mut self) -> (r: &mut Location)
        ensures
            r@ == old(self)@.location,
            final(self)@ == (NodeView { location: final(r)@, ..old(self)@ }),
    {
        &mut self.location
    }

    /// The value, if the node has one.
    pub fn value(&self) -> (r: &Option<Value>)
        ensures
            value_opt_view(*r) == self@.value,
    {
        &self.value
    }

    /// The value, to read or to change.
    pub fn value_mut(&mut self) -> (r: &mut Option<Value>)
        ensures
            value_opt_view(*r) == old(self)@.value,
            final(self)@ == (NodeView { value: value_opt_view(*final(r)), ..old(self)@ }),
    {
        &mut self.value
    }

    /// The handle of the node that owns this one, if it has an owner.
    pub fn parent(&self) -> (r: &Option<NodePtr>)
        ensures
            *r == self@.parent,
    {
        &self.parent
    }

    /// The handles of the nodes that this one owns, in order.
    pub fn children(&self) -> (r: &Vec<NodePtr>)
        ensures
            r@ == self@.children,
    {
        &self.children
    }

    /// The handle of the child at place `idx`, if there is one.
    pub fn get_child(&self, idx: usize) -> (r: Option<NodePtr>)
        ensures
            r == if idx < self@.children.len() {
                Some(self@.children[idx as int])
            } else {
                None
            },
    {
        if idx < self.children.len() {
            Some(self.children[idx])
        } else {
            None
        }
    }

    pub(crate) fn set_parent(&mut self, parent: Option<NodePtr>)
        ensures
            final(self)@ == (NodeView { parent, ..old(self)@ }),
    {
        self.parent = parent;
    }

    pub(crate) fn push_child(&mut self, child: NodePtr)
        ensures
            final(self)@ == (NodeView { children: old(self)@.children.push(child), ..old(self)@ }),
    {
        self.children.push(child);
    }

    pub(crate) fn clear_children(&mut self)
        ensures
            final(self)@ == (NodeView { children: Seq::empty(), ..old(self)@ }),
    {
        self.children = Vec::new();
    }
}

} // verus!
