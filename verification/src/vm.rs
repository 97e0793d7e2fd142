use crate::error::{Error, ErrorView};
use crate::parser::ast::{
    ancestors_of, has_kind, lemma_preorder_children_rest, lemma_preorder_is_complete, preorder,
    preorder_children, tree_wf, AST,
};
use crate::parser::model::{Outcome, ParserView};
use crate::parser::node::{name_view, NodePtr, NodeView};
use crate::parser::node_kind::NodeKind;
use crate::parser::parser::Parser;
use crate::parser::value::{Value, ValueView};
use crate::script::{Script, ScriptState, ScriptView};
use crate::text::{append_chars, chars_of, string_of};
use vstd::prelude::*;

verus! {

/// A virtual machine: the scripts it was given, the syntax trees of those it
/// has parsed, and the native functions that calls can reach, each under its
/// own name. A native function is a callable of the host that takes the
/// values of a call's arguments.
pub struct Vm<F: Fn(Vec<Value>) -> Result<Value, Error>> {
    version: String,
    scripts: Vec<Script>,
    asts: Vec<AST>,
    native_names: Vec<String>,
    native_funcs: Vec<F>,
}

/// The mathematical content of a [`Vm`], the callables aside.
pub struct VmView {
    pub version: Seq<char>,
    pub scripts: Seq<ScriptView>,
    pub asts: Seq<Seq<NodeView>>,
    pub natives: Seq<Seq<char>>,
}

impl VmView {
    /// The registry after a native function was registered under `name`, or
    /// nothing where the name is taken already.
    pub open spec fn register(self, name: Seq<char>) -> Option<VmView> {
        if self.natives.contains(name) {
            None
        } else {
            Some(VmView { natives: self.natives.push(name), ..self })
        }
    }
}

/// After a native function was registered under a name, a second
/// registration under that name is refused.
pub proof fn lemma_second_registration_refused(v: VmView, name: Seq<char>)
    requires
        v.register(name) is Some,
    ensures
        v.register(name)->0.register(name) is None,
{
    let w = v.register(name)->0;
    assert(w.natives[v.natives.len() as int] == name);
}

/// The message of the error for a second native function under one name.
pub open spec fn already_registered(name: Seq<char>) -> Seq<char> {
    "native function '"@ + name + "' already registered"@
}

impl<F: Fn(Vec<Value>) -> Result<Value, Error>> View for Vm<F> {
    type V = VmView;

    closed spec fn view(&self) -> VmView {
        VmView {
            version: self.version@,
            scripts: self.scripts@.map_values(|s: Script| s@),
            asts: self.asts@.map_values(|t: AST| t@),
            natives: self.native_names@.map_values(|n: String| n@),
        }
    }
}

impl<F: Fn(Vec<Value>) -> Result<Value, Error>> Vm<F> {
    /// The callables of the native functions, in the order of their names.
    pub closed spec fn funcs(&self) -> Seq<F> {
        self.native_funcs@
    }

    /// Whether every tree is well formed, no two native functions share a
    /// name, each name has its callable, and each callable accepts every
    /// list of arguments.
    pub open spec fn wf(&self) -> bool {
        &&& forall|i: int| 0 <= i < self@.asts.len() ==> tree_wf(
            #[trigger] self@.asts[i],
        )
        &&& self@.natives.no_duplicates()
        &&& self.funcs().len() == self@.natives.len()
        &&& forall|i: int, args: Vec<Value>|
            0 <= i < self.funcs().len() ==> #[trigger] call_requires(self.funcs()[i], (args,))
    }

    /// A machine of the given version without scripts, trees or native
    /// functions.
    pub fn new(version: &str) -> (vm: Vm<F>)
        ensures
            vm@ == (VmView {
                version: version@,
                scripts: Seq::empty(),
                asts: Seq::empty(),
                natives: Seq::empty(),
            }),
            vm.funcs() == Seq::<F>::empty(),
            vm.wf(),
    {
        let vm = Vm {
            version: String::from_str(version),
            scripts: Vec::new(),
            asts: Vec::new(),
            native_names: Vec::new(),
            native_funcs: Vec::new(),
        };
        assert(vm@.scripts =~= Seq::empty());
        assert(vm@.asts =~= Seq::empty());
        assert(vm@.natives =~= Seq::empty());
        vm
    }

    /// A machine of the given version that knows two native functions,
    /// `println` and `print`, in this order.
    pub fn with_console(version: &str, println: F, print: F) -> (vm: Vm<F>)
        requires
            forall|args: Vec<Value>| call_requires(println, (args,)),
            forall|args: Vec<Value>| call_requires(print, (args,)),
        ensures
            vm@ == (VmView {
                version: version@,
                scripts: Seq::empty(),
                asts: Seq::empty(),
                natives: seq!["println"@, "print"@],
            }),
            vm.funcs() == seq![println, print],
            vm.wf(),
    {
        let mut vm = Vm::new(version);
        proof {
            reveal_strlit("println");
            reveal_strlit("print");
            assert("println"@.len() != "print"@.len());
        }
        let first = vm.add_native_func("println", println);
        assert(first is Ok);
        proof {
            let names = vm@.natives;
            assert(names =~= seq!["println"@]);
            assert(!names.contains("print"@)) by {
                if names.contains("print"@) {
                    let i = choose|i: int| 0 <= i < names.len() && names[i] == "print"@;
                    assert(names[i] == "println"@);
                }
            }
        }
        let second = vm.add_native_func("print", print);
        assert(second is Ok);
        proof {
            assert(vm@.natives =~= seq!["println"@, "print"@]);
            assert(vm.funcs() =~= seq![println, print]);
        }
        vm
    }

    /// The place of the native function named `k`, if there is one.
    pub fn native_index(&self, k: &str) -> (r: Option<usize>)
        ensures
            match r {
                Some(i) => {
                    &&& i < self@.natives.len()
                    &&& self@.natives[i as int] == k@
                    &&& forall|j: int| 0 <= j < i ==> self@.natives[j] != k@
                },
                None => !self@.natives.contains(k@),
            },
    {
        let wanted = String::from_str(k);
        let mut i: usize = 0;
        while i < self.native_names.len()
            invariant
                i <= self.native_names.len(),
                wanted@ == k@,
                forall|j: int| 0 <= j < i ==> self@.natives[j] != k@,
            decreases self.native_names.len() - i,
        {
            if self.native_names[i] == wanted {
                return Some(i);
            }
            i += 1;
        }
        None
    }

    /// Registers the callable `f` as the native function named `k`. A name
    /// that is taken already is refused, and the machine stays as it was.
    pub fn add_native_func(&mut self, k: &str, f: F) -> (r: Result<(), Error>)
        requires
            old(self).wf(),
            forall|args: Vec<Value>| call_requires(f, (args,)),
        ensures
            final(self).wf(),
            match r {
                Ok(()) => {
                    &&& old(self)@.register(k@) == Some(final(self)@)
                    &&& final(self).funcs() == old(self).funcs().push(f)
                },
                Err(e) => {
                    &&& old(self)@.register(k@) is None
                    &&& e@ == ErrorView::Unknown(already_registered(k@), None)
                    &&& final(self)@ == old(self)@
                    &&& final(self).funcs() == old(self).funcs()
                },
            },
    {
        if self.native_index(k).is_some() {
            let mut msg = chars_of("native function '");
            let name = chars_of(k);
            append_chars(&mut msg, &name);
            let tail = chars_of("' already registered");
            append_chars(&mut msg, &tail);
            return Err(Error::Unknown(string_of(&msg), None));
        }
        self.native_names.push(String::from_str(k));
        self.native_funcs.push(f);
        proof {
            assert(self@.natives =~= old(self)@.natives.push(k@));
            assert(self@.scripts =~= old(self)@.scripts);
            assert(self@.asts =~= old(self)@.asts);
        }
        Ok(())
    }

    /// The version of the machine.
    pub fn version(&self) -> (r: &String)
        ensures
            r@ == self@.version,
    {
        &self.version
    }

    /// The version, to read or to change.
    pub fn version_mut(&mut self) -> (r: &mut String)
        ensures
            r@ == old(self)@.version,
            final(self)@ == (VmView { version: final(r)@, ..old(self)@ }),
            final(self).funcs() == old(self).funcs(),
    {
        &mut self.version
    }

    /// The scripts, in the order in which they were given.
    pub fn scripts(&self) -> (r: &Vec<Script>)
        ensures
            r@.map_values(|s: Script| s@) == self@.scripts,
    {
        &self.scripts
    }

    /// The trees of the parsed scripts, in the order in which they were
    /// parsed.
    pub fn asts(&self) -> (r: &Vec<AST>)
        ensures
            r@.map_values(|t: AST| t@) == self@.asts,
    {
        &self.asts
    }

    /// Adds a script after the others and hands it back, to read or to
    /// change.
    pub fn add_script(&mut self, s: Script) -> (r: &mut Script)
        ensures
            r@ == s@,
            final(self)@ == (VmView { scripts: old(self)@.scripts.push(final(r)@), ..old(self)@ }),
            final(self).funcs() == old(self).funcs(),
    {
        let ghost before = self@;
        self.scripts.push(s);
        let n = self.scripts.len() - 1;
        proof {
            assert(self@.scripts =~= before.scripts.push(s@));
        }
        let r = &mut self.scripts[n];
        proof {
            assert(after_borrow(self)@.scripts =~= before.scripts.push(final(r)@));
            assert(after_borrow(self)@.asts =~= before.asts);
            assert(after_borrow(self)@.natives =~= before.natives);
        }
        r
    }

    /// Forgets the scripts.
    pub fn reset(&mut self)
        ensures
            final(self)@ == (VmView { scripts: Seq::empty(), ..old(self)@ }),
            final(self).funcs() == old(self).funcs(),
    {
        self.scripts = Vec::new();
        proof {
            assert(self@.scripts =~= Seq::empty());
        }
    }
}

/// A node of one of the machine's trees: the place of the tree among the
/// trees, and the handle of the node in it.
#[derive(Copy, Clone, PartialEq, Eq, Structural, Debug)]
pub struct NodeRef {
    pub tree: usize,
    pub node: NodePtr,
}

/// Whether `r` names a node of one of the trees `asts`.
pub open spec fn in_trees(asts: Seq<Seq<NodeView>>, r: NodeRef) -> bool {
    r.tree < asts.len() && r.node < asts[r.tree as int].len()
}

/// The children of the roots of all the trees `asts`, tree after tree.
pub open spec fn top_level(asts: Seq<Seq<NodeView>>) -> Seq<NodeRef>
    decreases asts.len(),
{
    if asts.len() == 0 {
        Seq::empty()
    } else {
        top_level(asts.drop_last()) + asts.last()[0].children.map_values(
            |c: NodePtr| NodeRef { tree: (asts.len() - 1) as usize, node: c },
        )
    }
}

/// The nodes among which a call at `from` looks for its function: the
/// ancestors of `from`, nearest first, then the children of the roots of all
/// the trees.
pub open spec fn reachable(asts: Seq<Seq<NodeView>>, from: NodeRef) -> Seq<NodeRef> {
    ancestors_of(asts[from.tree as int], from.node).map_values(
        |n: NodePtr| NodeRef { tree: from.tree, node: n },
    ) + top_level(asts)
}

/// Whether `r` is a function declared under the name `name`.
pub open spec fn declares(asts: Seq<Seq<NodeView>>, r: NodeRef, name: Option<Seq<char>>) -> bool {
    &&& in_trees(asts, r)
    &&& asts[r.tree as int][r.node as int].kind == NodeKind::Function
    &&& asts[r.tree as int][r.node as int].name == name
}

/// Whether a function with the name of the call `call` can be reached from
/// it.
pub open spec fn is_declared(asts: Seq<Seq<NodeView>>, call: NodeRef) -> bool {
    exists|i: int|
        0 <= i < reachable(asts, call).len() && declares(
            asts,
            #[trigger] reachable(asts, call)[i],
            asts[call.tree as int][call.node as int].name,
        )
}

/// What a call stands for.
pub enum Resolution {
    /// A function declared in a script.
    Declared,
    /// The native function at the given place of the registry.
    Native(int),
    /// Nothing that is known.
    Unknown,
}

impl VmView {
    /// What the call `call` stands for: a declared function that it can
    /// reach, else the native function of its name, else nothing.
    pub open spec fn resolve(self, call: NodeRef) -> Resolution {
        if is_declared(self.asts, call) {
            Resolution::Declared
        } else {
            match self.asts[call.tree as int][call.node as int].name {
                Some(n) => if self.natives.contains(n) {
                    Resolution::Native(self.natives.index_of(n))
                } else {
                    Resolution::Unknown
                },
                None => Resolution::Unknown,
            }
        }
    }
}

/// The value that a parameter node hands to a native function.
pub open spec fn argument(n: NodeView) -> ValueView {
    match n.value {
        Some(v) => v,
        None => ValueView::Nil,
    }
}

/// The values that the call `call` of the tree `t` hands to a native
/// function: those of its parameters, in order.
pub open spec fn call_args(t: Seq<NodeView>, call: NodePtr) -> Seq<ValueView> {
    t[call as int].children.filter(has_kind(t, NodeKind::FunctionParam)).map_values(
        |c: NodePtr| argument(t[c as int]),
    )
}

/// The content of a list of values.
pub open spec fn values_view(args: Vec<Value>) -> Seq<ValueView> {
    args@.map_values(|v: Value| v@)
}

/// The error for a call that stands for nothing that is known.
pub open spec fn unknown_function(n: NodeView) -> ErrorView {
    ErrorView::Unknown(
        "Unknown function "@ + match n.name {
            Some(name) => "'"@ + name + "'"@,
            None => "<unnamed>"@,
        },
        Some(n.location),
    )
}

/// Tells whether two optional names are the same.
fn same_name(a: &Option<String>, b: &Option<String>) -> (r: bool)
    ensures
        r == (name_view(*a) == name_view(*b)),
{
    match (a, b) {
        (Some(x), Some(y)) => *x == *y,
        (None, None) => true,
        _ => false,
    }
}

impl<F: Fn(Vec<Value>) -> Result<Value, Error>> Vm<F> {
    /// The nodes among which a call at `from` looks for its function.
    pub fn reachable_nodes(&self, from: NodeRef) -> (r: Vec<NodeRef>)
        requires
            self.wf(),
            in_trees(self@.asts, from),
        ensures
            r@ == reachable(self@.asts, from),
            forall|j: int| 0 <= j < r@.len() ==> in_trees(self@.asts, #[trigger] r@[j]),
    {
        let ghost asts = self@.asts;
        let ancestors = self.asts[from.tree].ancestors(from.node);
        let ghost up = ancestors@.map_values(|n: NodePtr| NodeRef { tree: from.tree, node: n });
        let mut ret: Vec<NodeRef> = Vec::new();
        let mut i: usize = 0;
        while i < ancestors.len()
            invariant
                i <= ancestors.len(),
                up == ancestors@.map_values(|n: NodePtr| NodeRef { tree: from.tree, node: n }),
                ret@ == up.take(i as int),
            decreases ancestors.len() - i,
        {
            ret.push(NodeRef { tree: from.tree, node: ancestors[i] });
            assert(up.take(i + 1) =~= up.take(i as int).push(up[i as int]));
            i += 1;
        }
        assert(up.take(ancestors.len() as int) =~= up);
        let mut t: usize = 0;
        proof {
            assert(asts.take(0) =~= Seq::empty());
            assert(up + top_level(asts.take(0)) =~= up);
        }
        while t < self.asts.len()
            invariant
                self.wf(),
                asts == self@.asts,
                in_trees(asts, from),
                t <= self.asts.len(),
                up == ancestors_of(asts[from.tree as int], from.node).map_values(
                    |n: NodePtr| NodeRef { tree: from.tree, node: n },
                ),
                ret@ == up + top_level(asts.take(t as int)),
                forall|j: int| 0 <= j < ret@.len() ==> in_trees(asts, #[trigger] ret@[j]),
            decreases self.asts.len() - t,
        {
            let tree = &self.asts[t];
            assert(tree@ == asts[t as int]);
            let children = tree.node(0).children();
            let ghost level = children@.map_values(|c: NodePtr| NodeRef { tree: t, node: c });
            let ghost before = ret@;
            let mut k: usize = 0;
            while k < children.len()
                invariant
                    k <= children.len(),
                    t < asts.len(),
                    tree_wf(asts[t as int]),
                    children@ == asts[t as int][0].children,
                    level == children@.map_values(|c: NodePtr| NodeRef { tree: t, node: c }),
                    ret@ == before + level.take(k as int),
                    forall|j: int| 0 <= j < ret@.len() ==> in_trees(asts, #[trigger] ret@[j]),
                decreases children.len() - k,
            {
                let c = children[k];
                assert(c == asts[t as int][0].children[k as int]);
                ret.push(NodeRef { tree: t, node: c });
                assert(before + level.take(k + 1) =~= (before + level.take(k as int)).push(
                    level[k as int],
                ));
                k += 1;
            }
            proof {
                assert(level.take(children.len() as int) =~= level);
                let next = asts.take(t + 1);
                assert(next.drop_last() =~= asts.take(t as int));
                assert(next.last() == asts[t as int]);
                assert(ret@ =~= up + top_level(next));
            }
            t += 1;
        }
        assert(asts.take(self.asts.len() as int) =~= asts);
        ret
    }

    /// Tells whether a function with the name of the call `call` can be
    /// reached from it.
    fn find_declared(&self, call: NodeRef) -> (found: bool)
        requires
            self.wf(),
            in_trees(self@.asts, call),
        ensures
            found == is_declared(self@.asts, call),
    {
        let scope = self.reachable_nodes(call);
        let name = self.asts[call.tree].node(call.node).name();
        let ghost asts = self@.asts;
        let ghost wanted = asts[call.tree as int][call.node as int].name;
        let mut i: usize = 0;
        while i < scope.len()
            invariant
                i <= scope.len(),
                asts == self@.asts,
                scope@ == reachable(asts, call),
                name_view(*name) == wanted,
                wanted == asts[call.tree as int][call.node as int].name,
                forall|j: int| 0 <= j < scope@.len() ==> in_trees(asts, #[trigger] scope@[j]),
                forall|j: int| 0 <= j < i ==> !declares(asts, #[trigger] scope@[j], wanted),
            decreases scope.len() - i,
        {
            let r = scope[i];
            assert(in_trees(asts, scope@[i as int]));
            let node = self.asts[r.tree].node(r.node);
            assert(node@ == asts[r.tree as int][r.node as int]);
            if *node.kind() == NodeKind::Function && same_name(node.name(), name) {
                assert(declares(asts, reachable(asts, call)[i as int], wanted));
                return true;
            }
            i += 1;
        }
        false
    }

    /// The values that the call `call` hands to a native function.
    fn collect_args(&self, call: NodeRef) -> (args: Vec<Value>)
        requires
            self.wf(),
            in_trees(self@.asts, call),
        ensures
            values_view(args) == call_args(self@.asts[call.tree as int], call.node),
    {
        let tree = &self.asts[call.tree];
        let ghost t = tree@;
        assert(t == self@.asts[call.tree as int]);
        let params = tree.children_by_kind(call.node, NodeKind::FunctionParam);
        let ghost wanted = params@.map_values(|c: NodePtr| argument(t[c as int]));
        let mut args: Vec<Value> = Vec::new();
        let mut i: usize = 0;
        while i < params.len()
            invariant
                i <= params.len(),
                t == tree@,
                tree.wf(),
                call.node < t.len(),
                params@ == t[call.node as int].children.filter(
                    has_kind(t, NodeKind::FunctionParam),
                ),
                wanted == params@.map_values(|c: NodePtr| argument(t[c as int])),
                values_view(args) == wanted.take(i as int),
            decreases params.len() - i,
        {
            let c = params[i];
            proof {
                let children = t[call.node as int].children;
                let p = has_kind(t, NodeKind::FunctionParam);
                children.lemma_filter_pred(p, i as int);
                assert(c < t.len());
            }
            let value = match tree.node(c).value() {
                Some(v) => v.clone(),
                None => Value::Nil,
            };
            assert(value@ == argument(t[c as int]));
            let ghost before = values_view(args);
            args.push(value);
            assert(values_view(args) =~= before.push(value@));
            assert(wanted.take(i + 1) =~= wanted.take(i as int).push(wanted[i as int]));
            i += 1;
        }
        assert(wanted.take(params.len() as int) =~= wanted);
        args
    }

    /// The error for the call `call` when it stands for nothing that is
    /// known.
    fn unknown_call(&self, call: NodeRef) -> (e: Error)
        requires
            in_trees(self@.asts, call),
        ensures
            e@ == unknown_function(self@.asts[call.tree as int][call.node as int]),
    {
        let node = self.asts[call.tree].node(call.node);
        let mut msg = chars_of("Unknown function ");
        match node.name() {
            Some(n) => {
                let quote = chars_of("'");
                append_chars(&mut msg, &quote);
                let name = chars_of(n.as_str());
                append_chars(&mut msg, &name);
                append_chars(&mut msg, &quote);
                assert(msg@ =~= "Unknown function "@ + ("'"@ + n@ + "'"@));
            },
            None => {
                let unnamed = chars_of("<unnamed>");
                append_chars(&mut msg, &unnamed);
            },
        }
        Error::Unknown(string_of(&msg), Some(node.location().clone()))
    }

    /// Carries out the call `call`. A call of a declared function that it
    /// can reach does nothing and gives no value. Any other call goes to the
    /// native function of its name, with the values of its parameters, and
    /// gives what that function gives. A call that stands for neither fails.
    pub fn execute_function_call(&self, call: NodeRef) -> (r: Result<Value, Error>)
        requires
            self.wf(),
            in_trees(self@.asts, call),
        ensures
            match self@.resolve(call) {
                Resolution::Declared => r matches Ok(v) && v@ == ValueView::Nil,
                Resolution::Native(i) => 0 <= i < self.funcs().len() && exists|args: Vec<Value>|
                    values_view(args) == call_args(self@.asts[call.tree as int], call.node)
                        && call_ensures(self.funcs()[i], (args,), r),
                Resolution::Unknown => r matches Err(e) && e@ == unknown_function(
                    self@.asts[call.tree as int][call.node as int],
                ),
            },
    {
        if self.find_declared(call) {
            return Ok(Value::Nil);
        }
        let found = match self.asts[call.tree].node(call.node).name() {
            Some(n) => self.native_index(n.as_str()),
            None => None,
        };
        match found {
            Some(i) => {
                proof {
                    let n = self@.asts[call.tree as int][call.node as int].name->0;
                    assert(self@.natives[i as int] == n);
                    let k = self@.natives.index_of(n);
                    assert(self@.natives[k] == n);
                    assert(k == i);
                }
                let args = self.collect_args(call);
                let r = (self.native_funcs[i])(args);
                r
            },
            None => Err(self.unknown_call(call)),
        }
    }

    /// Whether the call `call` failed with the error `e`: it stands for
    /// nothing that is known and `e` says so, or the native function that it
    /// stands for gave `e`.
    pub open spec fn call_failed(&self, call: NodeRef, e: Error) -> bool {
        match self@.resolve(call) {
            Resolution::Declared => false,
            Resolution::Native(i) => 0 <= i < self.funcs().len() && exists|args: Vec<Value>|
                values_view(args) == call_args(self@.asts[call.tree as int], call.node)
                    && call_ensures(self.funcs()[i], (args,), Err::<Value, Error>(e)),
            Resolution::Unknown => e@ == unknown_function(
                self@.asts[call.tree as int][call.node as int],
            ),
        }
    }

    /// Whether the call `call` was carried out: it stands for a declared
    /// function, or the native function that it stands for gave a value.
    pub open spec fn call_done(&self, call: NodeRef) -> bool {
        match self@.resolve(call) {
            Resolution::Declared => true,
            Resolution::Native(i) => 0 <= i < self.funcs().len() && exists|
                args: Vec<Value>,
                v: Value,
            |
                values_view(args) == call_args(self@.asts[call.tree as int], call.node)
                    && call_ensures(self.funcs()[i], (args,), Ok::<Value, Error>(v)),
            Resolution::Unknown => false,
        }
    }

    /// Whether `c` is a call of the tree at place `tree`.
    pub open spec fn is_call(&self, tree: usize, c: NodePtr) -> bool {
        c < self@.asts[tree as int].len() && self@.asts[tree as int][c as int].kind
            == NodeKind::Call
    }

    /// Whether every call among the nodes `order` of the tree at place
    /// `tree` was carried out.
    pub open spec fn walk_done(&self, tree: usize, order: Seq<NodePtr>) -> bool {
        forall|i: int|
            0 <= i < order.len() && self.is_call(tree, #[trigger] order[i]) ==> self.call_done(
                NodeRef { tree, node: order[i] },
            )
    }

    /// Whether a walk through the nodes `order` of the tree at place `tree`
    /// stopped with the error `e`: every call before the first one that
    /// failed was carried out, and that one failed with `e`.
    pub open spec fn walk_failed(&self, tree: usize, order: Seq<NodePtr>, e: Error) -> bool {
        exists|i: int|
            {
                &&& 0 <= i < order.len()
                &&& self.is_call(tree, #[trigger] order[i])
                &&& self.call_failed(NodeRef { tree, node: order[i] }, e)
                &&& self.walk_done(tree, order.take(i))
            }
    }

    /// A walk through two runs of nodes is done when the walk through each
    /// is done.
    pub proof fn lemma_walk_done_concat(&self, tree: usize, a: Seq<NodePtr>, b: Seq<NodePtr>)
        requires
            self.walk_done(tree, a),
            self.walk_done(tree, b),
        ensures
            self.walk_done(tree, a + b),
    {
        assert forall|i: int|
            0 <= i < (a + b).len() && self.is_call(tree, #[trigger] (a + b)[i])
                implies self.call_done(NodeRef { tree, node: (a + b)[i] }) by {
            if i < a.len() {
                assert((a + b)[i] == a[i]);
            } else {
                assert((a + b)[i] == b[i - a.len()]);
            }
        }
    }

    /// A walk that fails in a run of nodes fails in the same way when it goes
    /// through a run that was done before it, and whatever follows it.
    pub proof fn lemma_walk_failed_concat(
        &self,
        tree: usize,
        a: Seq<NodePtr>,
        b: Seq<NodePtr>,
        c: Seq<NodePtr>,
        e: Error,
    )
        requires
            self.walk_done(tree, a),
            self.walk_failed(tree, b, e),
        ensures
            self.walk_failed(tree, a + b + c, e),
    {
        let i = choose|i: int|
            {
                &&& 0 <= i < b.len()
                &&& self.is_call(tree, #[trigger] b[i])
                &&& self.call_failed(NodeRef { tree, node: b[i] }, e)
                &&& self.walk_done(tree, b.take(i))
            };
        let all = a + b + c;
        let k = a.len() + i;
        assert(all[k] == b[i]);
        assert(all.take(k) =~= a + b.take(i));
        self.lemma_walk_done_concat(tree, a, b.take(i));
    }

    /// Carries out the node `node` and then, in order, what hangs under it.
    /// The first call that fails stops the walk, and its error is returned;
    /// every call that the walk met before was carried out. The walk
    /// succeeds only if every call under `node` was carried out; none of
    /// them, then, stands for something unknown.
    pub fn execute_node(&self, node: NodeRef) -> (r: Result<(), Error>)
        requires
            self.wf(),
            in_trees(self@.asts, node),
        ensures
            match r {
                Ok(()) => self.walk_done(
                    node.tree,
                    preorder(self@.asts[node.tree as int], node.node),
                ),
                Err(e) => self.walk_failed(
                    node.tree,
                    preorder(self@.asts[node.tree as int], node.node),
                    e,
                ),
            },
        decreases self@.asts[node.tree as int].len() - node.node,
    {
        let tree = &self.asts[node.tree];
        let ghost t = tree@;
        let ghost whole = preorder(t, node.node);
        let ghost first = seq![node.node];
        assert(t == self@.asts[node.tree as int]);
        if *tree.node(node.node).kind() == NodeKind::Call {
            match self.execute_function_call(node) {
                Ok(_) => {},
                Err(e) => {
                    proof {
                        assert(whole[0] == node.node);
                        assert(whole.take(0) =~= Seq::empty());
                    }
                    return Err(e);
                },
            }
        }
        let children = tree.node(node.node).children();
        let mut i: usize = 0;
        proof {
            assert(first + preorder_children(t, node.node, 0) =~= first);
        }
        while i < children.len()
            invariant
                self.wf(),
                in_trees(self@.asts, node),
                t == self@.asts[node.tree as int],
                children@ == t[node.node as int].children,
                i <= children.len(),
                first == seq![node.node],
                whole == preorder(t, node.node),
                self.walk_done(node.tree, first + preorder_children(t, node.node, i as nat)),
            decreases children.len() - i,
        {
            let child = NodeRef { tree: node.tree, node: children[i] };
            assert(child.node == t[node.node as int].children[i as int]);
            let ghost before = first + preorder_children(t, node.node, i as nat);
            let ghost under = preorder(t, child.node);
            proof {
                assert(preorder_children(t, node.node, (i + 1) as nat) == preorder_children(
                    t,
                    node.node,
                    i as nat,
                ) + under);
                assert(first + preorder_children(t, node.node, (i + 1) as nat) =~= before
                    + under);
            }
            match self.execute_node(child) {
                Ok(()) => {
                    proof {
                        self.lemma_walk_done_concat(node.tree, before, under);
                    }
                },
                Err(e) => {
                    proof {
                        let rest = lemma_preorder_children_rest(
                            t,
                            node.node,
                            (i + 1) as nat,
                            children@.len(),
                        );
                        assert(whole =~= before + under + rest);
                        self.lemma_walk_failed_concat(node.tree, before, under, rest, e);
                    }
                    return Err(e);
                },
            }
            i += 1;
        }
        Ok(())
    }
}

/// Whether the loader `read` can give the content `content` for the path
/// `path`.
pub open spec fn loaded_by<L: Fn(String) -> Result<String, Error>>(
    read: L,
    path: Seq<char>,
    content: Seq<char>,
) -> bool {
    exists|p: String, c: String|
        p@ == path && c@ == content && #[trigger] call_ensures(
            read,
            (p,),
            Ok::<String, Error>(c),
        )
}

/// Whether the loader `read` can fail with `e` for the path `path`.
pub open spec fn load_fails<L: Fn(String) -> Result<String, Error>>(
    read: L,
    path: Seq<char>,
    e: ErrorView,
) -> bool {
    exists|p: String, f: Error|
        p@ == path && f@ == e && #[trigger] call_ensures(read, (p,), Err::<String, Error>(f))
}

/// What the scan of the script `before` with the content `content` leaves.
pub open spec fn scan_of(before: ScriptView, content: Seq<char>) -> Outcome {
    ParserView::begin(Seq::empty(), before.name).scan(content)
}

/// Whether `after` and `tree` are what parsing the script `before` with the
/// content `content` gives.
pub open spec fn parsed_from(
    before: ScriptView,
    content: Seq<char>,
    after: ScriptView,
    tree: Seq<NodeView>,
) -> bool {
    &&& scan_of(before, content).error is None
    &&& tree == scan_of(before, content).state.tree
    &&& after == (ScriptView { content: Some(content), state: ScriptState::PARSED, ..before })
}

/// Whether the script `before` was prepared for its run with success: a
/// script in its initial state was loaded, a loaded script was parsed into
/// `tree`, and any other script was left alone.
pub open spec fn script_ready<L: Fn(String) -> Result<String, Error>>(
    read: L,
    before: ScriptView,
    after: ScriptView,
    tree: Option<Seq<NodeView>>,
) -> bool {
    match before.state {
        ScriptState::INITIAL => exists|c: Seq<char>|
            #[trigger] loaded_by(read, before.path, c) && tree is Some && parsed_from(
                before,
                c,
                after,
                tree->0,
            ),
        ScriptState::LOADED => before.content is Some && tree is Some && parsed_from(
            before,
            before.content->0,
            after,
            tree->0,
        ),
        _ => tree is None && after == before,
    }
}

/// Whether preparing the script `before` failed with `e`: it could not be
/// loaded, it has no content, or its scan stopped on `e`.
pub open spec fn script_fails<L: Fn(String) -> Result<String, Error>>(
    read: L,
    before: ScriptView,
    after: ScriptView,
    e: ErrorView,
) -> bool {
    match before.state {
        ScriptState::INITIAL => {
            ||| load_fails(read, before.path, e) && after == before
            ||| exists|c: Seq<char>|
                #[trigger] loaded_by(read, before.path, c) && after == before.loaded(c)
                    && scan_of(before, c).error == Some(e)
        },
        ScriptState::LOADED => after == before && match before.content {
            Some(c) => scan_of(before, c).error == Some(e),
            None => e == ErrorView::IO("script has no content"@),
        },
        _ => false,
    }
}

/// The trees among `trees`, in order.
pub open spec fn new_trees(trees: Seq<Option<Seq<NodeView>>>) -> Seq<Seq<NodeView>>
    decreases trees.len(),
{
    if trees.len() == 0 {
        Seq::empty()
    } else {
        match trees.last() {
            Some(t) => new_trees(trees.drop_last()).push(t),
            None => new_trees(trees.drop_last()),
        }
    }
}

/// Whether the first `n` scripts of `before` were prepared with success,
/// which left `after` and added `trees` to the machine's trees, and the
/// other scripts are as they were.
pub open spec fn scripts_ready<L: Fn(String) -> Result<String, Error>>(
    read: L,
    before: VmView,
    after: VmView,
    n: int,
    trees: Seq<Option<Seq<NodeView>>>,
) -> bool {
    &&& 0 <= n <= before.scripts.len()
    &&& after.scripts.len() == before.scripts.len()
    &&& trees.len() == n
    &&& after.version == before.version
    &&& after.natives == before.natives
    &&& after.asts == before.asts + new_trees(trees)
    &&& forall|i: int|
        0 <= i < n ==> script_ready(
            read,
            before.scripts[i],
            #[trigger] after.scripts[i],
            trees[i],
        )
    &&& forall|i: int|
        n <= i < before.scripts.len() ==> #[trigger] after.scripts[i] == before.scripts[i]
}

/// Whether the scripts of `before` were all prepared with success, which
/// left `after`.
pub open spec fn prepared<L: Fn(String) -> Result<String, Error>>(
    read: L,
    before: VmView,
    after: VmView,
) -> bool {
    exists|trees: Seq<Option<Seq<NodeView>>>| #[trigger]
        scripts_ready(read, before, after, before.scripts.len() as int, trees)
}

/// Whether the scripts of `before` were prepared in order up to one that
/// failed with `e`, which left `after`.
pub open spec fn preparation_fails<L: Fn(String) -> Result<String, Error>>(
    read: L,
    before: VmView,
    after: VmView,
    e: ErrorView,
) -> bool {
    exists|n: int, trees: Seq<Option<Seq<NodeView>>>, failing: ScriptView|
        {
            &&& 0 <= n < before.scripts.len()
            &&& #[trigger] scripts_ready(
                read,
                before,
                VmView { scripts: after.scripts.update(n, before.scripts[n]), ..after },
                n,
                trees,
            )
            &&& failing == after.scripts[n]
            &&& #[trigger] script_fails(read, before.scripts[n], failing, e)
        }
}

/// Whether the content of each script of `v` is short enough for its
/// characters to be counted.
pub open spec fn contents_fit(v: VmView) -> bool {
    forall|i: int|
        0 <= i < v.scripts.len() ==> ((#[trigger] v.scripts[i]).content matches Some(c) ==> c.len()
            < u64::MAX)
}

/// Whether the loader `read` accepts every path and gives only contents
/// short enough for their characters to be counted.
pub open spec fn loader_fits<L: Fn(String) -> Result<String, Error>>(read: L) -> bool {
    &&& forall|p: String| #[trigger] call_requires(read, (p,))
    &&& forall|p: String, c: String| #[trigger]
        call_ensures(read, (p,), Ok::<String, Error>(c)) ==> c@.len() < u64::MAX
}

/// The content of an optional tree.
pub open spec fn tree_view(tree: Option<AST>) -> Option<Seq<NodeView>> {
    match tree {
        Some(t) => Some(t@),
        None => None,
    }
}

/// Prepares one script for its run: loads it if it is in its initial state,
/// then parses it if it is loaded.
fn prepare_script<L: Fn(String) -> Result<String, Error>>(script: &mut Script, read: &L) -> (r:
    Result<Option<AST>, Error>)
    requires
        loader_fits(*read),
        old(script)@.content matches Some(c) ==> c.len() < u64::MAX,
    ensures
        match r {
            Ok(tree) => script_ready(*read, old(script)@, final(script)@, tree_view(tree)) && (
            tree matches Some(t) ==> t.wf()),
            Err(e) => script_fails(*read, old(script)@, final(script)@, e@),
        },
{
    let mut parser = Parser::default();
    if *script.state() == ScriptState::INITIAL {
        let path = script.path().clone();
        match (*read)(path) {
            Ok(content) => {
                assert(loaded_by(*read, old(script)@.path, content@));
                let _ = script.load(Ok(content));
                match parser.parse(script) {
                    Ok(ast) => {
                        assert(parsed_from(old(script)@, content@, script@, ast@));
                        Ok(Some(ast))
                    },
                    Err(e) => Err(e),
                }
            },
            Err(e) => {
                assert(load_fails(*read, old(script)@.path, e@));
                Err(e)
            },
        }
    } else if *script.state() == ScriptState::LOADED {
        match parser.parse(script) {
            Ok(ast) => Ok(Some(ast)),
            Err(e) => Err(e),
        }
    } else {
        Ok(None)
    }
}

impl<F: Fn(Vec<Value>) -> Result<Value, Error>> Vm<F> {
    /// Prepares every script for its run, in order: loads those in their
    /// initial state with `read`, parses those that are loaded and adds
    /// their trees to the machine's. Stops at the first script that fails.
    pub fn prepare<L: Fn(String) -> Result<String, Error>>(&mut self, read: &L) -> (r: Result<
        (),
        Error,
    >)
        requires
            old(self).wf(),
            contents_fit(old(self)@),
            loader_fits(*read),
        ensures
            final(self).wf(),
            final(self).funcs() == old(self).funcs(),
            match r {
                Ok(()) => prepared(*read, old(self)@, final(self)@),
                Err(e) => preparation_fails(*read, old(self)@, final(self)@, e@),
            },
    {
        let ghost before = self@;
        let ghost mut trees: Seq<Option<Seq<NodeView>>> = Seq::empty();
        let mut i: usize = 0;
        proof {
            assert(before.asts + new_trees(trees) =~= before.asts);
        }
        while i < self.scripts.len()
            invariant
                before == old(self)@,
                self.wf(),
                self.funcs() == old(self).funcs(),
                contents_fit(before),
                loader_fits(*read),
                i <= self.scripts.len(),
                scripts_ready(*read, before, self@, i as int, trees),
            decreases self.scripts.len() - i,
        {
            let ghost mid = self@;
            assert(self@.scripts[i as int] == before.scripts[i as int]);
            match prepare_script(&mut self.scripts[i], read) {
                Ok(tree) => {
                    let ghost tv = tree_view(tree);
                    let ghost loaded = self@;
                    proof {
                        assert(loaded.asts =~= mid.asts);
                        assert(loaded.natives =~= mid.natives);
                    }
                    match tree {
                        Some(t) => {
                            self.asts.push(t);
                            proof {
                                assert(self@.asts =~= loaded.asts.push(t@));
                                assert(self@.natives =~= loaded.natives);
                                assert(self@.scripts =~= loaded.scripts);
                            }
                        },
                        None => {},
                    }
                    proof {
                        let next = trees.push(tv);
                        assert(next.drop_last() =~= trees);
                        assert(next.last() == tv);
                        assert(self@.asts =~= before.asts + new_trees(next));
                        assert forall|k: int| 0 <= k < i + 1 implies script_ready(
                            *read,
                            before.scripts[k],
                            #[trigger] self@.scripts[k],
                            next[k],
                        ) by {
                            if k < i {
                                assert(self@.scripts[k] == mid.scripts[k]);
                            }
                        }
                        assert forall|k: int| i + 1 <= k < before.scripts.len() implies #[trigger]
                            self@.scripts[k] == before.scripts[k] by {
                            assert(self@.scripts[k] == mid.scripts[k]);
                        }
                        trees = next;
                    }
                },
                Err(e) => {
                    proof {
                        let restored = VmView {
                            scripts: self@.scripts.update(i as int, before.scripts[i as int]),
                            ..self@
                        };
                        assert(restored.scripts =~= mid.scripts);
                        assert(self@.asts =~= mid.asts);
                        assert(self@.natives =~= mid.natives);
                        assert(scripts_ready(*read, before, restored, i as int, trees));
                        assert(script_fails(
                            *read,
                            before.scripts[i as int],
                            self@.scripts[i as int],
                            e@,
                        ));
                    }
                    return Err(e);
                },
            }
            i += 1;
        }
        Ok(())
    }

    /// Whether every call of the first `n` trees was carried out.
    pub open spec fn trees_done(&self, n: int) -> bool {
        forall|t: usize|
            t < n ==> #[trigger] self.walk_done(t, preorder(self@.asts[t as int], 0))
    }

    /// Whether every call of every tree was carried out.
    pub open spec fn all_calls_done(&self) -> bool {
        self.trees_done(self@.asts.len() as int)
    }

    /// Whether the walk through the trees, one after the other, stopped with
    /// the error `e`: every call before the first one that failed was
    /// carried out, and that one failed with `e`.
    pub open spec fn some_call_failed(&self, e: Error) -> bool {
        exists|t: usize|
            {
                &&& t < self@.asts.len()
                &&& #[trigger] self.walk_failed(t, preorder(self@.asts[t as int], 0), e)
                &&& self.trees_done(t as int)
            }
    }

    /// Carries out every tree, in order, from its root. The first call that
    /// fails stops the run, and its error is returned. The run succeeds only
    /// if every call was carried out.
    pub fn execute(&self) -> (r: Result<(), Error>)
        requires
            self.wf(),
        ensures
            match r {
                Ok(()) => self.all_calls_done(),
                Err(e) => self.some_call_failed(e),
            },
    {
        let mut t: usize = 0;
        while t < self.asts.len()
            invariant
                self.wf(),
                t <= self.asts.len(),
                self.trees_done(t as int),
            decreases self.asts.len() - t,
        {
            let root = NodeRef { tree: t, node: 0 };
            assert(tree_wf(self@.asts[t as int]));
            match self.execute_node(root) {
                Ok(()) => {},
                Err(e) => {
                    return Err(e);
                },
            }
            t += 1;
        }
        Ok(())
    }

    /// Prepares every script, then carries out every tree. Whatever fails
    /// first stops the run, and its error is returned.
    pub fn run<L: Fn(String) -> Result<String, Error>>(&mut self, read: &L) -> (r: Result<
        (),
        Error,
    >)
        requires
            old(self).wf(),
            contents_fit(old(self)@),
            loader_fits(*read),
        ensures
            final(self).wf(),
            final(self).funcs() == old(self).funcs(),
            match r {
                Ok(()) => prepared(*read, old(self)@, final(self)@) && final(self).all_calls_done(),
                Err(e) => {
                    ||| preparation_fails(*read, old(self)@, final(self)@, e@)
                    ||| prepared(*read, old(self)@, final(self)@) && final(self).some_call_failed(
                        e,
                    )
                },
            },
    {
        match self.prepare(read) {
            Ok(()) => {},
            Err(e) => {
                return Err(e);
            },
        }
        self.execute()
    }
}

impl<F: Fn(Vec<Value>) -> Result<Value, Error>> Vm<F> {
    /// The scripts, to read or to change.
    pub fn scripts_mut(&mut self) -> (r: &mut Vec<Script>)
        ensures
            r@.map_values(|s: Script| s@) == old(self)@.scripts,
            final(self)@ == (VmView {
                scripts: final(r)@.map_values(|s: Script| s@),
                ..old(self)@
            }),
            final(self).funcs() == old(self).funcs(),
    {
        &mut self.scripts
    }

    /// The place of the first script named `name`, if there is one.
    pub fn script_index(&self, name: &str) -> (r: Option<usize>)
        ensures
            match r {
                Some(i) => {
                    &&& i < self@.scripts.len()
                    &&& self@.scripts[i as int].name == name@
                    &&& forall|j: int| 0 <= j < i ==> (#[trigger] self@.scripts[j]).name != name@
                },
                None => forall|j: int|
                    0 <= j < self@.scripts.len() ==> (#[trigger] self@.scripts[j]).name != name@,
            },
    {
        let wanted = String::from_str(name);
        let mut i: usize = 0;
        while i < self.scripts.len()
            invariant
                i <= self.scripts.len(),
                wanted@ == name@,
                forall|j: int| 0 <= j < i ==> (#[trigger] self@.scripts[j]).name != name@,
            decreases self.scripts.len() - i,
        {
            if *self.scripts[i].name() == wanted {
                return Some(i);
            }
            i += 1;
        }
        None
    }

    /// The first script named `name`, if there is one.
    pub fn script(&self, name: &str) -> (r: Option<&Script>)
        ensures
            match r {
                Some(s) => exists|i: int|
                    {
                        &&& 0 <= i < self@.scripts.len()
                        &&& s@ == #[trigger] self@.scripts[i]
                        &&& s@.name == name@
                        &&& forall|j: int|
                            0 <= j < i ==> (#[trigger] self@.scripts[j]).name != name@
                    },
                None => forall|j: int|
                    0 <= j < self@.scripts.len() ==> (#[trigger] self@.scripts[j]).name != name@,
            },
    {
        match self.script_index(name) {
            Some(i) => Some(&self.scripts[i]),
            None => None,
        }
    }

    /// The first script named `name`, if there is one, to read or to change.
    pub fn script_mut(&mut self, name: &str) -> (r: Option<&mut Script>)
        ensures
            final(self).funcs() == old(self).funcs(),
            match r {
                Some(s) => exists|i: int|
                    {
                        &&& 0 <= i < old(self)@.scripts.len()
                        &&& s@ == #[trigger] old(self)@.scripts[i]
                        &&& s@.name == name@
                        &&& forall|j: int|
                            0 <= j < i ==> (#[trigger] old(self)@.scripts[j]).name != name@
                        &&& final(self)@ == (VmView {
                            scripts: old(self)@.scripts.update(i, final(s)@),
                            ..old(self)@
                        })
                    },
                None => final(self)@ == old(self)@ && forall|j: int|
                    0 <= j < old(self)@.scripts.len() ==> (#[trigger] old(self)@.scripts[j]).name
                        != name@,
            },
    {
        match self.script_index(name) {
            Some(i) => {
                let ghost before = self@;
                let s = &mut self.scripts[i];
                proof {
                    assert(after_borrow(self)@.scripts =~= before.scripts.update(
                        i as int,
                        final(s)@,
                    ));
                    assert(after_borrow(self)@.asts =~= before.asts);
                    assert(after_borrow(self)@.natives =~= before.natives);
                }
                Some(s)
            },
            None => None,
        }
    }

    /// Adds the script of the given path and name with what reading the path
    /// gave: the script, loaded, comes after the others; a failed read is
    /// handed on and leaves the machine as it was.
    pub fn load(&mut self, path: &str, name: &str, read: Result<String, Error>) -> (r: Result<
        &mut Script,
        Error,
    >)
        ensures
            final(self).funcs() == old(self).funcs(),
            match read {
                Ok(content) => r matches Ok(s) && s@ == (ScriptView {
                    name: name@,
                    path: path@,
                    content: Some(content@),
                    state: ScriptState::LOADED,
                }) && final(self)@ == (VmView {
                    scripts: old(self)@.scripts.push(final(s)@),
                    ..old(self)@
                }),
                Err(e) => r matches Err(f) && f@ == e@ && final(self)@ == old(self)@,
            },
    {
        let script = match Script::import(path, name, read) {
            Ok(s) => s,
            Err(e) => {
                return Err(e);
            },
        };
        let ghost before = self@;
        self.scripts.push(script);
        let n = self.scripts.len() - 1;
        let ghost pushed = self@;
        proof {
            assert(pushed.scripts =~= before.scripts.push(script@));
        }
        let s = &mut self.scripts[n];
        proof {
            assert(after_borrow(self)@.scripts =~= before.scripts.push(final(s)@));
            assert(after_borrow(self)@.asts =~= before.asts);
            assert(after_borrow(self)@.natives =~= before.natives);
        }
        Ok(s)
    }
}

/// A call whose name no function within its reach declares and no native
/// function bears cannot be carried out: it fails, and the error names the
/// call and its place.
pub proof fn lemma_unknown_call_fails<F: Fn(Vec<Value>) -> Result<Value, Error>>(
    vm: &Vm<F>,
    call: NodeRef,
)
    requires
        !is_declared(vm@.asts, call),
        vm@.asts[call.tree as int][call.node as int].name matches Some(n) ==> !vm@.natives.contains(
            n,
        ),
    ensures
        vm@.resolve(call) is Unknown,
        !vm.call_done(call),
        forall|e: Error| #[trigger]
            vm.call_failed(call, e) ==> e@ == unknown_function(
                vm@.asts[call.tree as int][call.node as int],
            ),
{
}

/// A machine with a call that cannot be carried out has not carried out all
/// its calls, wherever in its tree the call stands.
pub proof fn lemma_unknown_call_stops_the_run<F: Fn(Vec<Value>) -> Result<Value, Error>>(
    vm: &Vm<F>,
    t: usize,
    c: NodePtr,
)
    requires
        vm.wf(),
        t < vm@.asts.len(),
        vm.is_call(t, c),
        vm@.resolve(NodeRef { tree: t, node: c }) is Unknown,
    ensures
        !vm.all_calls_done(),
{
    let order = preorder(vm@.asts[t as int], 0);
    lemma_preorder_is_complete(vm@.asts[t as int], c);
    let i = choose|i: int| 0 <= i < order.len() && order[i] == c;
    if vm.all_calls_done() {
        assert(vm.walk_done(t, order));
        assert(vm.is_call(t, order[i]));
    }
}

} // verus!
