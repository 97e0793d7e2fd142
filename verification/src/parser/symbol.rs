use vstd::prelude::*;

verus! {

/// The single characters that structure a script.
#[derive(Copy, Clone, PartialEq, Eq, Structural, Debug)]
pub enum Symbol {
    LParent,
    RParent,
    LBrace,
    RBrace,
    LBracket,
    RBracket,
    DoubleQuote,
    SingleQuote,
    Comma,
    SemiColon,
    Tab,
    Space,
    NewLine,
}

impl Symbol {
    /// The character that stands for this symbol.
    pub open spec fn spec_repr(&self) -> char {
        match *self {
            Symbol::LParent => '(',
            Symbol::RParent => ')',
            Symbol::LBrace => '{',
            Symbol::RBrace => '}',
            Symbol::LBracket => '[',
            Symbol::RBracket => ']',
            Symbol::DoubleQuote => '"',
            Symbol::SingleQuote => '\'',
            Symbol::Comma => ',',
            Symbol::SemiColon => ';',
            Symbol::Tab => '\t',
            Symbol::Space => ' ',
            Symbol::NewLine => '\n',
        }
    }

    /// The symbol that `ch` stands for, if it stands for one.
    pub open spec fn spec_parse(ch: char) -> Option<Symbol> {
        if ch == '(' {
            Some(Symbol::LParent)
        } else if ch == ')' {
            Some(Symbol::RParent)
        } else if ch == '{' {
            Some(Symbol::LBrace)
        } else if ch == '}' {
            Some(Symbol::RBrace)
        } else if ch == '[' {
            Some(Symbol::LBracket)
        } else if ch == ']' {
            Some(Symbol::RBracket)
        } else if ch == '"' {
            Some(Symbol::DoubleQuote)
        } else if ch == '\'' {
            Some(Symbol::SingleQuote)
        } else if ch == ',' {
            Some(Symbol::Comma)
        } else if ch == ';' {
            Some(Symbol::SemiColon)
        } else if ch == '\t' {
            Some(Symbol::Tab)
        } else if ch == ' ' {
            Some(Symbol::Space)
        } else if ch == '\n' {
            Some(Symbol::NewLine)
        } else {
            None
        }
    }

    /// The character that stands for this symbol.
    #[verifier::when_used_as_spec(spec_repr)]
    pub fn repr(&self) -> (ch: char)
        ensures
            ch == self.spec_repr(),
    {
        match *self {
            Symbol::LParent => '(',
            Symbol::RParent => ')',
            Symbol::LBrace => '{',
            Symbol::RBrace => '}',
            Symbol::LBracket => '[',
            Symbol::RBracket => ']',
            Symbol::DoubleQuote => '"',
            Symbol::SingleQuote => '\'',
            Symbol::Comma => ',',
            Symbol::SemiColon => ';',
            Symbol::Tab => '\t',
            Symbol::Space => ' ',
            Symbol::NewLine => '\n',
        }
    }

    /// The symbol that `ch` stands for, if it stands for one.
    pub fn parse(ch: char) -> (r: Option<Symbol>)
        ensures
            r == Symbol::spec_parse(ch),
            r matches Some(s) ==> s.spec_repr() == ch,
            r is None ==> forall|s: Symbol| s.spec_repr() != ch,
    {
        match ch {
            '(' => Some(Symbol::LParent),
            ')' => Some(Symbol::RParent),
            '{' => Some(Symbol::LBrace),
            '}' => Some(Symbol::RBrace),
            '[' => Some(Symbol::LBracket),
            ']' => Some(Symbol::RBracket),
            '"' => Some(Symbol::DoubleQuote),
            '\'' => Some(Symbol::SingleQuote),
            ',' => Some(Symbol::Comma),
            ';' => Some(Symbol::SemiColon),
            '\t' => Some(Symbol::Tab),
            ' ' => Some(Symbol::Space),
            '\n' => Some(Symbol::NewLine),
            _ => None,
        }
    }

    /// Going from a symbol to its character and back gives the symbol again.
    pub proof fn lemma_symbol_round_trip(s: Symbol)
        ensures
            Symbol::spec_parse(s.spec_repr()) == Some(s),
            Symbol::spec_parse(s.spec_repr())->0.spec_repr() == s.spec_repr(),
    {
    }

    /// Going from a character that stands for a symbol to the symbol and back
    /// gives the character again.
    pub proof fn lemma_char_round_trip(ch: char)
        requires
            Symbol::spec_parse(ch) is Some,
        ensures
            Symbol::spec_parse(ch).unwrap().spec_repr() == ch,
    {
    }
}

} // verus!
