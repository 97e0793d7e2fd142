use crate::error::ErrorView;
use crate::location::LocationView;
use crate::parser::ast::{
    first_where, has_kind, lemma_same_links_wf, lemma_with_node_wf, with_child, with_node,
};
use crate::parser::keyword::Keyword;
use crate::parser::node::{NodePtr, NodeView};
use crate::parser::node_kind::NodeKind;
use crate::parser::options::ParserOption;
use crate::parser::symbol::Symbol;
use crate::parser::value::ValueView;
use crate::text::trimmed;
use vstd::prelude::*;

verus! {

/// The state of a scan: where it stands in the script, the tree built so
/// far, the node that new nodes are added to, the characters gathered since
/// the last symbol, the quote that is open, the keywords seen in the current
/// statement, and the options.
pub struct ParserView {
    pub location: LocationView,
    pub tree: Seq<NodeView>,
    pub cur: NodePtr,
    pub accu: Seq<char>,
    pub quote: Option<char>,
    pub keywords: Seq<Keyword>,
    pub options: Seq<ParserOption>,
}

/// What a step of the scan leaves: the state, and the error on which the
/// scan stops, if there is one.
pub struct Outcome {
    pub state: ParserView,
    pub error: Option<ErrorView>,
}

/// A step that succeeded and left `state`.
pub open spec fn done(state: ParserView) -> Outcome {
    Outcome { state, error: None }
}

/// A step that failed with `error` and left `state`.
pub open spec fn failed(state: ParserView, error: ErrorView) -> Outcome {
    Outcome { state, error: Some(error) }
}

/// The error for a symbol that cannot stand where it was found.
pub open spec fn unexpected(what: Seq<char>, s: ParserView) -> ErrorView {
    ErrorView::Syntax(what, s.location)
}

impl ParserView {
    /// The state before any character, with the given options: an unnamed
    /// script at its start and a tree that holds only the root.
    pub open spec fn fresh(options: Seq<ParserOption>) -> ParserView {
        ParserView {
            location: LocationView::start(),
            tree: seq![NodeView::detached(NodeKind::Global, LocationView::start())],
            cur: 0,
            accu: Seq::empty(),
            quote: None,
            keywords: Seq::empty(),
            options,
        }
    }

    /// The state in which the scan of the script `name` begins.
    pub open spec fn begin(options: Seq<ParserOption>, name: Seq<char>) -> ParserView {
        let location = LocationView { file: name, ..LocationView::start() };
        ParserView {
            location,
            tree: seq![NodeView::detached(NodeKind::Global, location)],
            ..ParserView::fresh(options)
        }
    }

    /// Whether the tree is well formed with a root of kind `Global`, and the
    /// current node is one of its nodes.
    pub open spec fn wf(self) -> bool {
        &&& crate::parser::ast::tree_wf(self.tree)
        &&& self.cur < self.tree.len()
        &&& self.tree[0].kind == NodeKind::Global
    }

    /// The kind of the current node.
    pub open spec fn cur_kind(self) -> NodeKind {
        self.tree[self.cur as int].kind
    }

    /// Whether nothing but white space has been gathered.
    pub open spec fn accu_blank(self) -> bool {
        trimmed(self.accu).len() == 0
    }

    /// Opens a node of the given kind under the current node and makes it
    /// the current node.
    pub open spec fn push_scope(self, kind: NodeKind) -> ParserView {
        ParserView {
            tree: with_child(self.tree, self.cur, kind, self.location),
            cur: self.tree.len() as usize,
            ..self
        }
    }

    /// Gives the node `id` the name `name`.
    pub open spec fn set_name(self, id: NodePtr, name: Seq<char>) -> ParserView {
        ParserView {
            tree: self.tree.update(
                id as int,
                NodeView { name: Some(name), ..self.tree[id as int] },
            ),
            ..self
        }
    }

    /// Gives the node `id` the kind `kind`.
    pub open spec fn set_kind(self, id: NodePtr, kind: NodeKind) -> ParserView {
        ParserView {
            tree: self.tree.update(id as int, NodeView { kind, ..self.tree[id as int] }),
            ..self
        }
    }

    /// Gives the node `id` the string `text` as its value.
    pub open spec fn set_text_value(self, id: NodePtr, text: Seq<char>) -> ParserView {
        ParserView {
            tree: self.tree.update(
                id as int,
                NodeView { value: Some(ValueView::String(text)), ..self.tree[id as int] },
            ),
            ..self
        }
    }

    /// Forgets the gathered characters.
    pub open spec fn clear_accu(self) -> ParserView {
        ParserView { accu: Seq::empty(), ..self }
    }

    /// Adds to the current node a parameter named by the gathered
    /// characters, and forgets them.
    pub open spec fn push_fn_param(self) -> ParserView {
        let id = self.tree.len() as usize;
        ParserView {
            tree: with_child(self.tree, self.cur, NodeKind::FunctionParam, self.location),
            ..self
        }.set_name(id, self.accu).clear_accu()
    }

    /// Adds to the current node a parameter whose value is the string of the
    /// gathered characters, and forgets them.
    pub open spec fn push_call_param(self) -> ParserView {
        let id = self.tree.len() as usize;
        ParserView {
            tree: with_child(self.tree, self.cur, NodeKind::FunctionParam, self.location),
            ..self
        }.set_text_value(id, self.accu).clear_accu()
    }

    /// Closes the current node: its parent becomes the current node. Fails
    /// at the root, and where characters other than white space are left.
    pub open spec fn pop_scope(self) -> Outcome {
        match self.tree[self.cur as int].parent {
            None => failed(self, ErrorView::Unknown("no active scope"@, None)),
            Some(p) => if !self.accu_blank() {
                failed(
                    self,
                    ErrorView::Syntax("unprocessed expression: "@ + self.accu, self.location),
                )
            } else {
                done(ParserView { cur: p, ..self })
            },
        }
    }

    /// Closes the current node whatever has been gathered. Fails at the
    /// root.
    pub open spec fn leave_scope(self) -> Outcome {
        match self.tree[self.cur as int].parent {
            None => failed(self, ErrorView::Unknown("no active scope"@, None)),
            Some(p) => done(ParserView { cur: p, ..self }),
        }
    }

    /// Whether the current node has a child of the given kind.
    pub open spec fn cur_has_child(self, kind: NodeKind) -> bool {
        first_where(self.tree[self.cur as int].children, has_kind(self.tree, kind)) is Some
    }

    /// What `(` does. Under a function it names the function by the gathered
    /// characters, if there are any, and opens its parameter list, which
    /// fails if the function has one already. Elsewhere it opens a call
    /// named by the gathered characters without the white space around them,
    /// which fails if nothing is left of them.
    pub open spec fn lparen(self) -> Outcome {
        if self.cur_kind() == NodeKind::Function {
            let named = if self.accu.len() > 0 {
                self.set_name(self.cur, self.accu).clear_accu()
            } else {
                self
            };
            if named.cur_has_child(NodeKind::FunctionParams) {
                failed(named, unexpected("unexpected '('"@, named))
            } else {
                done(named.push_scope(NodeKind::FunctionParams))
            }
        } else {
            let t = ParserView { accu: trimmed(self.accu), ..self };
            if t.accu.len() == 0 {
                failed(t, unexpected("unexpected '('"@, t))
            } else {
                let opened = t.push_scope(NodeKind::Call);
                done(opened.set_name(opened.cur, t.accu).clear_accu())
            }
        }
    }

    /// What `)` does. In a parameter list it adds the gathered characters as
    /// a named parameter, unless they are blank; in a call it adds them,
    /// without the white space around them, as a value, unless nothing is
    /// left of them. Then it closes the current node.
    pub open spec fn rparen(self) -> Outcome {
        if self.cur_kind() == NodeKind::FunctionParams {
            if !self.accu_blank() {
                self.push_fn_param().pop_scope()
            } else {
                self.pop_scope()
            }
        } else if self.cur_kind() == NodeKind::Call {
            let t = ParserView { accu: trimmed(self.accu), ..self };
            if t.accu.len() > 0 {
                t.push_call_param().pop_scope()
            } else {
                t.pop_scope()
            }
        } else {
            self.pop_scope()
        }
    }

    /// What `{` does: it forgets the keywords and opens the body of the
    /// current function, or a plain block under any other node.
    pub open spec fn lbrace(self) -> Outcome {
        let kind = if self.cur_kind() == NodeKind::Function {
            NodeKind::FunctionImpl
        } else {
            NodeKind::Leaf
        };
        done(ParserView { keywords: Seq::empty(), ..self }.push_scope(kind))
    }

    /// What `}` does: it closes a function's body and, with it, the
    /// function, whatever has been gathered; any other node it closes as `)`
    /// does.
    pub open spec fn rbrace(self) -> Outcome {
        if self.cur_kind() == NodeKind::FunctionImpl {
            let body = self.leave_scope();
            if body.error is Some {
                body
            } else {
                body.state.leave_scope()
            }
        } else {
            self.pop_scope()
        }
    }

    /// What `,` does: in a parameter list it adds the gathered characters as
    /// a named parameter and fails if they are blank; in a call it adds them
    /// as a value; elsewhere it fails.
    pub open spec fn comma(self) -> Outcome {
        if self.cur_kind() == NodeKind::FunctionParams {
            if self.accu_blank() {
                failed(self, unexpected("unexpected ','"@, self))
            } else {
                done(self.push_fn_param())
            }
        } else if self.cur_kind() == NodeKind::Call {
            done(self.push_call_param())
        } else {
            failed(self, unexpected("unexpected ','"@, self))
        }
    }

    /// What `;` does: a function that has no body becomes a call, and the
    /// keywords are forgotten.
    pub open spec fn semicolon(self) -> Outcome {
        let s = if self.cur_kind() == NodeKind::Function && !self.cur_has_child(
            NodeKind::FunctionImpl,
        ) {
            self.set_kind(self.cur, NodeKind::Call)
        } else {
            self
        };
        done(ParserView { keywords: Seq::empty(), ..s })
    }

    /// What a quote character does: it opens a quote where none is open and
    /// closes the quote that it opened.
    pub open spec fn toggle_quote(self, ch: char) -> Outcome {
        if self.quote == Some(ch) {
            done(ParserView { quote: None, ..self })
        } else if self.quote is None {
            done(ParserView { quote: Some(ch), ..self })
        } else {
            done(self)
        }
    }

    /// What the end of a line does: the next line begins, at column 0.
    pub open spec fn eol(self) -> Outcome {
        done(
            ParserView {
                location: LocationView {
                    line: (self.location.line + 1) as u64,
                    column: 0,
                    ..self.location
                },
                ..self
            },
        )
    }

    /// What the symbol `sym` does.
    pub open spec fn symbol(self, sym: Symbol) -> Outcome {
        match sym {
            Symbol::LParent => self.lparen(),
            Symbol::RParent => self.rparen(),
            Symbol::LBrace => self.lbrace(),
            Symbol::RBrace => self.rbrace(),
            Symbol::LBracket => done(self),
            Symbol::RBracket => done(self),
            Symbol::DoubleQuote => self.toggle_quote('"'),
            Symbol::SingleQuote => self.toggle_quote('\''),
            Symbol::Comma => self.comma(),
            Symbol::SemiColon => self.semicolon(),
            Symbol::Tab => done(self),
            Symbol::Space => done(self),
            Symbol::NewLine => self.eol(),
        }
    }

    /// Takes a keyword out of the gathered characters, if they spell one:
    /// `function`, `class` and `enum` open a node of their kind, and every
    /// keyword is noted.
    pub open spec fn keyword(self) -> ParserView {
        if self.accu.len() > 0 && Keyword::spec_parse(self.accu) is Some {
            let kw = Keyword::spec_parse(self.accu)->0;
            let opened = match kw {
                Keyword::Function => self.push_scope(NodeKind::Function),
                Keyword::Class => self.push_scope(NodeKind::Class),
                Keyword::Enum => self.push_scope(NodeKind::Enum),
                _ => self,
            };
            ParserView { keywords: self.keywords.push(kw), ..opened }.clear_accu()
        } else {
            self
        }
    }

    /// Moves one character on.
    pub open spec fn advance(self) -> ParserView {
        ParserView {
            location: LocationView {
                offset: (self.location.offset + 1) as u64,
                column: (self.location.column + 1) as u64,
                ..self.location
            },
            ..self
        }
    }

    /// Whether `ch` is taken as part of a quoted text.
    pub open spec fn in_quote(self, ch: char) -> bool {
        self.quote is Some && ch != '"' && ch != '\''
    }

    /// What the character `ch` does. Inside a quote it is gathered. Outside,
    /// a symbol does its work and any other character is gathered; then a
    /// keyword is taken out of what has been gathered. An error stops the
    /// scan where it stands; otherwise the scan moves on.
    pub open spec fn step(self, ch: char) -> Outcome {
        if self.in_quote(ch) {
            done(ParserView { accu: self.accu.push(ch), ..self }.advance())
        } else {
            match Symbol::spec_parse(ch) {
                Some(sym) => {
                    let o = self.symbol(sym);
                    if o.error is Some {
                        o
                    } else {
                        done(o.state.keyword().advance())
                    }
                },
                None => done(ParserView { accu: self.accu.push(ch), ..self }.keyword().advance()),
            }
        }
    }

    /// What the characters `chars` do, one after the other, up to the first
    /// error.
    pub open spec fn scan(self, chars: Seq<char>) -> Outcome
        decreases chars.len(),
    {
        if chars.len() == 0 {
            done(self)
        } else {
            let o = self.scan(chars.drop_last());
            if o.error is Some {
                o
            } else {
                o.state.step(chars.last())
            }
        }
    }
}

/// A step that succeeds moves the offset on by one and the line and the
/// column by one at most; it leaves the script's name alone.
pub proof fn lemma_step_location(s: ParserView, ch: char)
    requires
        s.location.offset < u64::MAX,
        s.location.line < u64::MAX,
        s.location.column < u64::MAX,
        s.step(ch).error is None,
    ensures
        s.step(ch).state.location.file == s.location.file,
        s.step(ch).state.location.offset == s.location.offset + 1,
        s.step(ch).state.location.line <= s.location.line + 1,
        s.step(ch).state.location.column <= s.location.column + 1,
        s.step(ch).state.options == s.options,
{
    if !s.in_quote(ch) {
        match Symbol::spec_parse(ch) {
            Some(sym) => {
                let o = s.symbol(sym);
                assert(o.state.location.file == s.location.file);
                assert(o.state.location.offset == s.location.offset);
                assert(o.state.location.line <= s.location.line + 1);
                assert(o.state.location.column <= s.location.column);
                assert(o.state.options == s.options);
            },
            None => {},
        }
    }
}

/// Once the scan of a part of the script has failed, the scan of the whole
/// fails in the same way and leaves the same state.
pub proof fn lemma_scan_stops(s: ParserView, chars: Seq<char>, n: int)
    requires
        0 <= n <= chars.len(),
        s.scan(chars.take(n)).error is Some,
    ensures
        s.scan(chars) == s.scan(chars.take(n)),
    decreases chars.len() - n,
{
    if n < chars.len() {
        assert(chars.take(n + 1).drop_last() =~= chars.take(n));
        lemma_scan_stops(s, chars, n + 1);
    } else {
        assert(chars.take(n) =~= chars);
    }
}

/// A function that has no body when `;` comes becomes a call: its kind is
/// `Call` afterwards, and nothing else of the tree changes.
pub proof fn lemma_semicolon_makes_call(s: ParserView)
    requires
        s.wf(),
        s.cur_kind() == NodeKind::Function,
        !s.cur_has_child(NodeKind::FunctionImpl),
    ensures
        s.semicolon().error is None,
        s.semicolon().state.cur == s.cur,
        s.semicolon().state.cur_kind() == NodeKind::Call,
        s.semicolon().state.tree == s.tree.update(
            s.cur as int,
            NodeView { kind: NodeKind::Call, ..s.tree[s.cur as int] },
        ),
{
}

/// Outside a quote, the character `;` makes a call of a function that has
/// no body, and the scan goes on.
pub proof fn lemma_step_semicolon_makes_call(s: ParserView)
    requires
        s.wf(),
        s.quote is None,
        s.cur_kind() == NodeKind::Function,
        !s.cur_has_child(NodeKind::FunctionImpl),
    ensures
        s.step(';').error is None,
        s.step(';').state.tree[s.cur as int].kind == NodeKind::Call,
{
    Symbol::lemma_symbol_round_trip(Symbol::SemiColon);
    let after = s.semicolon().state;
    lemma_semicolon_makes_call(s);
    lemma_keyword_keeps_nodes(after);
}

/// Taking a keyword out of the gathered characters changes no node that the
/// tree has already, but for the children of the current node.
pub proof fn lemma_keyword_keeps_nodes(s: ParserView)
    requires
        s.wf(),
    ensures
        s.keyword().tree.len() >= s.tree.len(),
        forall|i: int|
            0 <= i < s.tree.len() ==> (#[trigger] s.keyword().tree[i]).kind == s.tree[i].kind,
{
}

/// Opening a node keeps the state well formed and adds one node.
pub proof fn lemma_push_scope_wf(s: ParserView, kind: NodeKind)
    requires
        s.wf(),
        s.tree.len() < usize::MAX,
    ensures
        s.push_scope(kind).wf(),
        s.push_scope(kind).tree.len() == s.tree.len() + 1,
        s.push_scope(kind).cur_kind() == kind,
{
    lemma_with_node_wf(s.tree, s.cur, NodeView::detached(kind, s.location));
}

/// Adding a parameter keeps the state well formed and adds one node.
pub proof fn lemma_push_param_wf(s: ParserView)
    requires
        s.wf(),
        s.tree.len() < usize::MAX,
    ensures
        s.push_fn_param().wf(),
        s.push_fn_param().tree.len() == s.tree.len() + 1,
        s.push_fn_param().cur == s.cur,
        s.push_call_param().wf(),
        s.push_call_param().tree.len() == s.tree.len() + 1,
        s.push_call_param().cur == s.cur,
{
    let n = NodeView::detached(NodeKind::FunctionParam, s.location);
    let t = with_node(s.tree, s.cur, n);
    let id = s.tree.len() as usize;
    lemma_with_node_wf(s.tree, s.cur, n);
    lemma_same_links_wf(t, id, NodeView { name: Some(s.accu), ..t[id as int] });
    lemma_same_links_wf(t, id, NodeView { value: Some(ValueView::String(s.accu)), ..t[id as int] });
}

/// Closing a node keeps the state well formed and the tree as it is.
pub proof fn lemma_pop_scope_wf(s: ParserView)
    requires
        s.wf(),
    ensures
        s.pop_scope().state.wf(),
        s.pop_scope().state.tree == s.tree,
        s.leave_scope().state.wf(),
        s.leave_scope().state.tree == s.tree,
{
}

/// What a symbol does keeps the state well formed and adds one node at
/// most.
pub proof fn lemma_symbol_wf(s: ParserView, sym: Symbol)
    requires
        s.wf(),
        s.tree.len() < usize::MAX,
    ensures
        s.symbol(sym).state.wf(),
        s.symbol(sym).state.tree.len() <= s.tree.len() + 1,
{
    match sym {
        Symbol::LParent => {
            if s.cur_kind() == NodeKind::Function {
                let named = if s.accu.len() > 0 {
                    s.set_name(s.cur, s.accu).clear_accu()
                } else {
                    s
                };
                lemma_same_links_wf(
                    s.tree,
                    s.cur,
                    NodeView { name: Some(s.accu), ..s.tree[s.cur as int] },
                );
                assert(named.wf());
                lemma_push_scope_wf(named, NodeKind::FunctionParams);
            } else {
                let t = ParserView { accu: trimmed(s.accu), ..s };
                lemma_push_scope_wf(t, NodeKind::Call);
                let opened = t.push_scope(NodeKind::Call);
                lemma_same_links_wf(
                    opened.tree,
                    opened.cur,
                    NodeView { name: Some(t.accu), ..opened.tree[opened.cur as int] },
                );
            }
        },
        Symbol::RParent => {
            let t = ParserView { accu: trimmed(s.accu), ..s };
            lemma_push_param_wf(s);
            lemma_push_param_wf(t);
            lemma_pop_scope_wf(s);
            lemma_pop_scope_wf(t);
            lemma_pop_scope_wf(s.push_fn_param());
            lemma_pop_scope_wf(t.push_call_param());
        },
        Symbol::LBrace => {
            let cleared = ParserView { keywords: Seq::empty(), ..s };
            lemma_push_scope_wf(cleared, NodeKind::FunctionImpl);
            lemma_push_scope_wf(cleared, NodeKind::Leaf);
        },
        Symbol::RBrace => {
            lemma_pop_scope_wf(s);
            let body = s.leave_scope();
            lemma_pop_scope_wf(body.state);
        },
        Symbol::Comma => {
            lemma_push_param_wf(s);
        },
        Symbol::SemiColon => {
            lemma_same_links_wf(
                s.tree,
                s.cur,
                NodeView { kind: NodeKind::Call, ..s.tree[s.cur as int] },
            );
        },
        _ => {},
    }
}

/// A step of the scan keeps the state well formed and adds two nodes at
/// most.
pub proof fn lemma_step_wf(s: ParserView, ch: char)
    requires
        s.wf(),
        s.tree.len() + 2 <= usize::MAX,
    ensures
        s.step(ch).state.wf(),
        s.step(ch).state.tree.len() <= s.tree.len() + 2,
{
    if !s.in_quote(ch) {
        match Symbol::spec_parse(ch) {
            Some(sym) => {
                lemma_symbol_wf(s, sym);
                lemma_keyword_wf(s.symbol(sym).state);
            },
            None => {
                lemma_keyword_wf(ParserView { accu: s.accu.push(ch), ..s });
            },
        }
    }
}

/// Taking a keyword out of the gathered characters keeps the state well
/// formed and adds one node at most.
pub proof fn lemma_keyword_wf(s: ParserView)
    requires
        s.wf(),
        s.tree.len() < usize::MAX,
    ensures
        s.keyword().wf(),
        s.keyword().tree.len() <= s.tree.len() + 1,
{
    lemma_push_scope_wf(s, NodeKind::Function);
    lemma_push_scope_wf(s, NodeKind::Class);
    lemma_push_scope_wf(s, NodeKind::Enum);
}

/// The scan of any script builds a well-formed tree under a root of kind
/// `Global`: the root has no parent, and every other node names a parent
/// that lists it among its children. The scan adds two nodes for each
/// character at most.
pub proof fn lemma_scan_wf(s: ParserView, chars: Seq<char>)
    requires
        s.wf(),
        s.tree.len() + 2 * chars.len() <= usize::MAX,
    ensures
        s.scan(chars).state.wf(),
        s.scan(chars).state.tree.len() <= s.tree.len() + 2 * chars.len(),
    decreases chars.len(),
{
    if chars.len() > 0 {
        lemma_scan_wf(s, chars.drop_last());
        let o = s.scan(chars.drop_last());
        if o.error is None {
            lemma_step_wf(o.state, chars.last());
        }
    }
}

/// The state in which a scan begins is well formed.
pub proof fn lemma_begin_wf(options: Seq<ParserOption>, name: Seq<char>)
    ensures
        ParserView::begin(options, name).wf(),
        ParserView::fresh(options).wf(),
{
}

/// Whatever the script, the tree that its scan builds is well formed: its
/// root has the kind `Global` and no parent, and every other node names a
/// parent that lists it among its children.
pub proof fn lemma_parsed_tree_wf(options: Seq<ParserOption>, name: Seq<char>, content: Seq<char>)
    requires
        1 + 2 * content.len() <= usize::MAX,
    ensures
        ParserView::begin(options, name).scan(content).state.wf(),
{
    lemma_begin_wf(options, name);
    lemma_scan_wf(ParserView::begin(options, name), content);
}

} // verus!
