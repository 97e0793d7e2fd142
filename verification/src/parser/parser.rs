use crate::error::{Error, ErrorView};
use crate::location::Location;
use crate::parser::ast::{dump_lines, DumpLine, AST};
use crate::parser::keyword::Keyword;
use crate::parser::model::{lemma_scan_stops, lemma_step_location, ParserView};
use crate::parser::node::{NodePtr, NodeView};
use crate::parser::node_kind::NodeKind;
use crate::parser::options::ParserOption;
use crate::parser::symbol::Symbol;
use crate::parser::value::Value;
use crate::script::{Script, ScriptState, ScriptView};
use crate::text::{append_chars, chars_of, string_of, trim, trimmed};
use vstd::prelude::*;

verus! {

/// A scanner that reads a script character by character and builds its
/// syntax tree as it goes.
pub struct Parser {
    location: Location,
    tree: AST,
    cur_scope: NodePtr,
    accu: Vec<char>,
    quote: Option<char>,
    keywords: Vec<Keyword>,
    options: Vec<ParserOption>,
}

impl View for Parser {
    type V = ParserView;

    closed spec fn view(&self) -> ParserView {
        ParserView {
            location: self.location@,
            tree: self.tree@,
            cur: self.cur_scope,
            accu: self.accu@,
            quote: self.quote,
            keywords: self.keywords@,
            options: self.options@,
        }
    }
}

impl Default for Parser {
    /// A parser without options, before any character.
    fn default() -> (p: Parser)
        ensures
            p@ == ParserView::fresh(Seq::empty()),
            p.wf(),
    {
        Parser::new(Vec::new())
    }
}

impl Parser {
    /// Whether the tree is well formed with a root of kind `Global`, and the
    /// current node is one of its nodes.
    pub open spec fn wf(&self) -> bool {
        self@.wf()
    }

    /// A parser with the given options, before any character.
    pub fn new(opts: Vec<ParserOption>) -> (p: Parser)
        ensures
            p@ == ParserView::fresh(opts@),
            p.wf(),
    {
        Parser {
            location: Location::default(),
            tree: AST::default(),
            cur_scope: 0,
            accu: Vec::new(),
            quote: None,
            keywords: Vec::new(),
            options: opts,
        }
    }

    /// Where the scan stands.
    pub fn location(&self) -> (r: &Location)
        ensures
            r@ == self@.location,
    {
        &self.location
    }

    /// The place of the scan, to read or to change.
    pub fn location_mut(&mut self) -> (r: &mut Location)
        ensures
            r@ == old(self)@.location,
            final(self)@ == (ParserView { location: final(r)@, ..old(self)@ }),
    {
        &mut self.location
    }

    /// The tree built so far.
    pub fn tree(&self) -> (r: &AST)
        ensures
            r@ == self@.tree,
    {
        &self.tree
    }

    /// The handle of the root of the tree.
    pub fn root_scope(&self) -> (r: NodePtr)
        ensures
            r == 0,
    {
        0
    }

    /// The handle of the node that new nodes are added to.
    pub fn cur_scope(&self) -> (r: NodePtr)
        ensures
            r == self@.cur,
    {
        self.cur_scope
    }

    /// The keywords seen in the current statement.
    pub fn keywords(&self) -> (r: &Vec<Keyword>)
        ensures
            r@ == self@.keywords,
    {
        &self.keywords
    }

    /// The keywords, to read or to change.
    pub fn keywords_mut(&mut self) -> (r: &mut Vec<Keyword>)
        ensures
            r@ == old(self)@.keywords,
            final(self)@ == (ParserView { keywords: final(r)@, ..old(self)@ }),
    {
        &mut self.keywords
    }

    /// The options.
    pub fn options(&self) -> (r: &Vec<ParserOption>)
        ensures
            r@ == self@.options,
    {
        &self.options
    }

    /// The options, to read or to change.
    pub fn options_mut(&mut self) -> (r: &mut Vec<ParserOption>)
        ensures
            r@ == old(self)@.options,
            final(self)@ == (ParserView { options: final(r)@, ..old(self)@ }),
    {
        &mut self.options
    }

    /// Goes back to the state before any character and keeps the options.
    pub fn reset(&mut self)
        ensures
            final(self)@ == ParserView::fresh(old(self)@.options),
            final(self).wf(),
    {
        self.location = Location::default();
        self.tree = AST::default();
        self.cur_scope = 0;
        self.accu = Vec::new();
        self.quote = None;
        self.keywords = Vec::new();
    }

    /// Tells whether the parser has the option `o`.
    pub fn has_option(&self, o: ParserOption) -> (b: bool)
        ensures
            b == self@.options.contains(o),
    {
        let mut i: usize = 0;
        while i < self.options.len()
            invariant
                i <= self.options.len(),
                forall|j: int| 0 <= j < i ==> self.options@[j] != o,
            decreases self.options.len() - i,
        {
            if self.options[i] == o {
                return true;
            }
            i += 1;
        }
        false
    }

    /// The kind of the current node.
    pub fn cur_scope_kind(&self) -> (k: NodeKind)
        requires
            self.wf(),
        ensures
            k == self@.cur_kind(),
    {
        *self.tree.node(self.cur_scope).kind()
    }

    /// Lists the node `node` of the tree built so far and what hangs under
    /// it, `indent` steps deep.
    pub fn dump(&self, node: NodePtr, indent: usize) -> (lines: Vec<DumpLine>)
        requires
            self.wf(),
            node < self@.tree.len(),
            indent + (self@.tree.len() - node) <= usize::MAX,
        ensures
            lines@ == dump_lines(self@.tree, node, indent),
    {
        self.tree.dump(node, indent)
    }

    /// Tells whether nothing but white space has been gathered.
    fn accu_empty(&self) -> (b: bool)
        ensures
            b == self@.accu_blank(),
    {
        trim(&self.accu).len() == 0
    }

    /// Opens a node of the given kind under the current node and makes it
    /// the current node.
    fn push_scope(&mut self, kind: NodeKind) -> (id: NodePtr)
        requires
            old(self).wf(),
        ensures
            final(self)@ == old(self)@.push_scope(kind),
            final(self).wf(),
            id == final(self)@.cur,
    {
        let loc = self.location.clone();
        let id = self.tree.create_child(self.cur_scope, kind, loc);
        self.cur_scope = id;
        id
    }

    /// Closes the current node: its parent becomes the current node.
    fn pop_scope(&mut self) -> (r: Result<NodePtr, Error>)
        requires
            old(self).wf(),
        ensures
            final(self)@ == old(self)@.pop_scope().state,
            final(self).wf(),
            match r {
                Ok(id) => old(self)@.pop_scope().error is None && id == final(self)@.cur,
                Err(e) => old(self)@.pop_scope().error == Some(e@),
            },
    {
        let parent = match *self.tree.node(self.cur_scope).parent() {
            Some(p) => p,
            None => {
                return Err(Error::Unknown(String::from_str("no active scope"), None));
            },
        };
        if !self.accu_empty() {
            let mut msg = chars_of("unprocessed expression: ");
            append_chars(&mut msg, &self.accu);
            return Err(Error::Syntax(string_of(&msg), self.location.clone()));
        }
        self.cur_scope = parent;
        Ok(parent)
    }

    /// Closes the current node whatever has been gathered.
    fn leave_scope(&mut self) -> (r: Result<NodePtr, Error>)
        requires
            old(self).wf(),
        ensures
            final(self)@ == old(self)@.leave_scope().state,
            final(self).wf(),
            match r {
                Ok(id) => old(self)@.leave_scope().error is None && id == final(self)@.cur,
                Err(e) => old(self)@.leave_scope().error == Some(e@),
            },
    {
        match *self.tree.node(self.cur_scope).parent() {
            Some(p) => {
                self.cur_scope = p;
                Ok(p)
            },
            None => Err(Error::Unknown(String::from_str("no active scope"), None)),
        }
    }

    /// Adds to the current node a parameter named by the gathered
    /// characters, and forgets them.
    fn push_fn_param(&mut self)
        requires
            old(self).wf(),
        ensures
            final(self)@ == old(self)@.push_fn_param(),
            final(self).wf(),
    {
        let loc = self.location.clone();
        let id = self.tree.create_child(self.cur_scope, NodeKind::FunctionParam, loc);
        let name = string_of(&self.accu);
        *self.tree.name_mut(id) = Some(name);
        self.accu = Vec::new();
    }

    /// Adds to the current node a parameter whose value is the string of the
    /// gathered characters, and forgets them.
    fn push_call_param(&mut self)
        requires
            old(self).wf(),
        ensures
            final(self)@ == old(self)@.push_call_param(),
            final(self).wf(),
    {
        let loc = self.location.clone();
        let id = self.tree.create_child(self.cur_scope, NodeKind::FunctionParam, loc);
        let text = string_of(&self.accu);
        *self.tree.value_mut(id) = Some(Value::String(text));
        self.accu = Vec::new();
    }

    /// Takes a keyword out of the gathered characters, if they spell one.
    fn parse_keyword(&mut self) -> (r: Option<Keyword>)
        requires
            old(self).wf(),
        ensures
            final(self)@ == old(self)@.keyword(),
            final(self).wf(),
            r == if old(self)@.accu.len() > 0 {
                Keyword::spec_parse(old(self)@.accu)
            } else {
                None
            },
    {
        if self.accu.len() > 0 {
            if let Some(kw) = Keyword::parse_chars(&self.accu) {
                match kw {
                    Keyword::Function => {
                        self.push_scope(NodeKind::Function);
                    },
                    Keyword::Class => {
                        self.push_scope(NodeKind::Class);
                    },
                    Keyword::Enum => {
                        self.push_scope(NodeKind::Enum);
                    },
                    _ => {},
                }
                self.keywords.push(kw);
                self.accu = Vec::new();
                return Some(kw);
            }
        }
        None
    }

    /// Does what `(` asks for.
    fn parse_lparen(&mut self) -> (r: Result<(), Error>)
        requires
            old(self).wf(),
        ensures
            final(self)@ == old(self)@.lparen().state,
            final(self).wf(),
            match r {
                Ok(()) => old(self)@.lparen().error is None,
                Err(e) => old(self)@.lparen().error == Some(e@),
            },
    {
        if self.cur_scope_kind() == NodeKind::Function {
            if self.accu.len() > 0 {
                let name = string_of(&self.accu);
                *self.tree.name_mut(self.cur_scope) = Some(name);
                self.accu = Vec::new();
            }
            if self.tree.child_by_kind(self.cur_scope, NodeKind::FunctionParams).is_some() {
                return Err(
                    Error::Syntax(String::from_str("unexpected '('"), self.location.clone()),
                );
            }
            self.push_scope(NodeKind::FunctionParams);
        } else {
            self.accu = trim(&self.accu);
            if self.accu.len() == 0 {
                return Err(
                    Error::Syntax(String::from_str("unexpected '('"), self.location.clone()),
                );
            }
            let func = self.push_scope(NodeKind::Call);
            let name = string_of(&self.accu);
            *self.tree.name_mut(func) = Some(name);
            self.accu = Vec::new();
        }
        Ok(())
    }

    /// Does what `)` asks for.
    fn parse_rparen(&mut self) -> (r: Result<(), Error>)
        requires
            old(self).wf(),
        ensures
            final(self)@ == old(self)@.rparen().state,
            final(self).wf(),
            match r {
                Ok(()) => old(self)@.rparen().error is None,
                Err(e) => old(self)@.rparen().error == Some(e@),
            },
    {
        let kind = self.cur_scope_kind();
        if kind == NodeKind::FunctionParams {
            if !self.accu_empty() {
                self.push_fn_param();
            }
        } else if kind == NodeKind::Call {
            self.accu = trim(&self.accu);
            if self.accu.len() > 0 {
                self.push_call_param();
            }
        }
        match self.pop_scope() {
            Ok(_) => Ok(()),
            Err(e) => Err(e),
        }
    }

    /// Does what `{` asks for.
    fn parse_lbrace(&mut self) -> (r: Result<(), Error>)
        requires
            old(self).wf(),
        ensures
            final(self)@ == old(self)@.lbrace().state,
            final(self).wf(),
            r is Ok,
            old(self)@.lbrace().error is None,
    {
        let kind = if self.cur_scope_kind() == NodeKind::Function {
            NodeKind::FunctionImpl
        } else {
            NodeKind::Leaf
        };
        self.keywords = Vec::new();
        self.push_scope(kind);
        Ok(())
    }

    /// Does what `}` asks for.
    fn parse_rbrace(&mut self) -> (r: Result<(), Error>)
        requires
            old(self).wf(),
        ensures
            final(self)@ == old(self)@.rbrace().state,
            final(self).wf(),
            match r {
                Ok(()) => old(self)@.rbrace().error is None,
                Err(e) => old(self)@.rbrace().error == Some(e@),
            },
    {
        if self.cur_scope_kind() == NodeKind::FunctionImpl {
            match self.leave_scope() {
                Ok(_) => {},
                Err(e) => {
                    return Err(e);
                },
            }
            match self.leave_scope() {
                Ok(_) => Ok(()),
                Err(e) => Err(e),
            }
        } else {
            match self.pop_scope() {
                Ok(_) => Ok(()),
                Err(e) => Err(e),
            }
        }
    }

    /// Does what `,` asks for.
    fn parse_comma(&mut self) -> (r: Result<(), Error>)
        requires
            old(self).wf(),
        ensures
            final(self)@ == old(self)@.comma().state,
            final(self).wf(),
            match r {
                Ok(()) => old(self)@.comma().error is None,
                Err(e) => old(self)@.comma().error == Some(e@),
            },
    {
        let kind = self.cur_scope_kind();
        if kind == NodeKind::FunctionParams {
            if self.accu_empty() {
                return Err(
                    Error::Syntax(String::from_str("unexpected ','"), self.location.clone()),
                );
            }
            self.push_fn_param();
        } else if kind == NodeKind::Call {
            self.push_call_param();
        } else {
            return Err(Error::Syntax(String::from_str("unexpected ','"), self.location.clone()));
        }
        Ok(())
    }

    /// Does what `;` asks for.
    fn parse_semicolon(&mut self) -> (r: Result<(), Error>)
        requires
            old(self).wf(),
        ensures
            final(self)@ == old(self)@.semicolon().state,
            final(self).wf(),
            r is Ok,
            old(self)@.semicolon().error is None,
    {
        if self.cur_scope_kind() == NodeKind::Function && self.tree.child_by_kind(
            self.cur_scope,
            NodeKind::FunctionImpl,
        ).is_none() {
            *self.tree.kind_mut(self.cur_scope) = NodeKind::Call;
        }
        self.keywords = Vec::new();
        Ok(())
    }

    /// Does what the quote character `ch` asks for.
    fn parse_quote(&mut self, ch: char) -> (r: Result<(), Error>)
        ensures
            final(self)@ == old(self)@.toggle_quote(ch).state,
            r is Ok,
            old(self)@.toggle_quote(ch).error is None,
    {
        match self.quote {
            Some(q) => {
                if q == ch {
                    self.quote = None;
                }
            },
            None => {
                self.quote = Some(ch);
            },
        }
        Ok(())
    }

    /// Does what the end of a line asks for.
    fn parse_eol(&mut self) -> (r: Result<(), Error>)
        requires
            old(self)@.location.line < u64::MAX,
        ensures
            final(self)@ == old(self)@.eol().state,
            r is Ok,
            old(self)@.eol().error is None,
    {
        let line = *self.location.line();
        *self.location.line_mut() = line + 1;
        *self.location.column_mut() = 0;
        Ok(())
    }

    /// Does what the symbol `sym` asks for.
    fn parse_symbol(&mut self, sym: Symbol) -> (r: Result<(), Error>)
        requires
            old(self).wf(),
            old(self)@.location.line < u64::MAX,
        ensures
            final(self)@ == old(self)@.symbol(sym).state,
            final(self).wf(),
            match r {
                Ok(()) => old(self)@.symbol(sym).error is None,
                Err(e) => old(self)@.symbol(sym).error == Some(e@),
            },
    {
        match sym {
            Symbol::LParent => self.parse_lparen(),
            Symbol::RParent => self.parse_rparen(),
            Symbol::LBrace => self.parse_lbrace(),
            Symbol::RBrace => self.parse_rbrace(),
            Symbol::LBracket => Ok(()),
            Symbol::RBracket => Ok(()),
            Symbol::DoubleQuote => self.parse_quote('"'),
            Symbol::SingleQuote => self.parse_quote('\''),
            Symbol::Comma => self.parse_comma(),
            Symbol::SemiColon => self.parse_semicolon(),
            Symbol::Tab => Ok(()),
            Symbol::Space => Ok(()),
            Symbol::NewLine => self.parse_eol(),
        }
    }

    /// Moves one character on.
    fn advance(&mut self)
        requires
            old(self)@.location.offset < u64::MAX,
            old(self)@.location.column < u64::MAX,
        ensures
            final(self)@ == old(self)@.advance(),
    {
        let offset = *self.location.offset();
        *self.location.offset_mut() = offset + 1;
        let column = *self.location.column();
        *self.location.column_mut() = column + 1;
    }

    /// Takes the character `ch` of the script.
    fn parse_char(&mut self, ch: char) -> (r: Result<(), Error>)
        requires
            old(self).wf(),
            old(self)@.location.offset < u64::MAX,
            old(self)@.location.line < u64::MAX,
            old(self)@.location.column < u64::MAX,
        ensures
            final(self)@ == old(self)@.step(ch).state,
            final(self).wf(),
            match r {
                Ok(()) => old(self)@.step(ch).error is None,
                Err(e) => old(self)@.step(ch).error == Some(e@),
            },
    {
        if self.quote.is_some() && ch != '"' && ch != '\'' {
            self.accu.push(ch);
        } else {
            match Symbol::parse(ch) {
                Some(sym) => {
                    match self.parse_symbol(sym) {
                        Ok(()) => {},
                        Err(e) => {
                            return Err(e);
                        },
                    }
                },
                None => {
                    self.accu.push(ch);
                },
            }
            self.parse_keyword();
        }
        self.advance();
        Ok(())
    }

    /// Scans the content of the script `s` and builds its syntax tree.
    ///
    /// The parser first goes back to its fresh state. A script without
    /// content fails at once and leaves the parser fresh. Otherwise the
    /// parser takes the script's name as the name of the place, and the
    /// characters of the content one after the other; the first error stops
    /// the scan and is returned. After the last character the script is
    /// marked as parsed and the tree is returned: its links are consistent
    /// and its root has the kind `Global`.
    pub fn parse(&mut self, s: &mut Script) -> (r: Result<AST, Error>)
        requires
            old(s)@.content matches Some(c) ==> c.len() < u64::MAX,
        ensures
            final(self).wf(),
            match old(s)@.content {
                None => {
                    &&& r matches Err(e) && e@ == ErrorView::IO("script has no content"@)
                    &&& final(self)@ == ParserView::fresh(old(self)@.options)
                    &&& final(s)@ == old(s)@
                },
                Some(c) => {
                    let o = ParserView::begin(old(self)@.options, old(s)@.name).scan(c);
                    &&& final(self)@ == o.state
                    &&& match r {
                        Ok(ast) => {
                            &&& o.error is None
                            &&& ast@ == o.state.tree
                            &&& ast.wf()
                            &&& ast@[0].kind == NodeKind::Global
                            &&& final(s)@ == (ScriptView { state: ScriptState::PARSED, ..old(s)@ })
                        },
                        Err(e) => o.error == Some(e@) && final(s)@ == old(s)@,
                    }
                },
            },
    {
        self.reset();
        let content = match s.content() {
            Some(c) => c,
            None => {
                return Err(Error::IO(String::from_str("script has no content")));
            },
        };
        *self.location.file_mut() = s.name().clone();
        *self.tree.location_mut(0) = self.location.clone();
        let ghost begin = ParserView::begin(old(self)@.options, s@.name);
        assert(self@.tree =~= begin.tree);
        assert(self@ == begin);
        let chars = content.as_str().chars();
        for ch in it: chars
            invariant
                it.seq() == content@,
                content@.len() < u64::MAX,
                self.wf(),
                begin.scan(content@.take(it.index())).error is None,
                self@ == begin.scan(content@.take(it.index())).state,
                self@.location.offset == 1 + it.index(),
                self@.location.line <= 1 + it.index(),
                self@.location.column <= 1 + it.index(),
                begin == ParserView::begin(old(self)@.options, s@.name),
                s@ == old(s)@,
                s@.content == Some(content@),
        {
            let ghost before = self@;
            let ghost i = it.index();
            proof {
                assert(content@.take(i + 1).drop_last() =~= content@.take(i));
                assert(content@.take(i + 1).last() == ch);
            }
            match self.parse_char(ch) {
                Ok(()) => {
                    proof {
                        lemma_step_location(before, ch);
                    }
                },
                Err(e) => {
                    proof {
                        lemma_scan_stops(begin, content@, i + 1);
                    }
                    return Err(e);
                },
            }
        }
        proof {
            assert(content@.take(content@.len() as int) =~= content@);
        }
        *s.state_mut() = ScriptState::PARSED;
        Ok(self.tree.clone())
    }
}

} // verus!
