use crate::text::{
    chars_of, lemma_leading_spaces, lemma_trailing_spaces, same_text, trim, trimmed,
};
use vstd::prelude::*;

verus! {

/// The reserved words of the language.
#[derive(Copy, Clone, PartialEq, Eq, Structural, Debug)]
pub enum Keyword {
    Function,
    Class,
    Enum,
    Return,
    Public,
    Private,
    Protected,
    Throw,
    Let,
    Const,
}

impl Keyword {
    /// The word as it is written in a script.
    pub open spec fn text(&self) -> Seq<char> {
        match *self {
            Keyword::Function => "function"@,
            Keyword::Class => "class"@,
            Keyword::Enum => "enum"@,
            Keyword::Return => "return"@,
            Keyword::Public => "public"@,
            Keyword::Private => "private"@,
            Keyword::Protected => "protected"@,
            Keyword::Throw => "throw"@,
            Keyword::Let => "let"@,
            Keyword::Const => "const"@,
        }
    }

    /// The keyword written exactly as `word`, if there is one.
    pub open spec fn of_word(word: Seq<char>) -> Option<Keyword> {
        if word == "function"@ {
            Some(Keyword::Function)
        } else if word == "class"@ {
            Some(Keyword::Class)
        } else if word == "enum"@ {
            Some(Keyword::Enum)
        } else if word == "return"@ {
            Some(Keyword::Return)
        } else if word == "public"@ {
            Some(Keyword::Public)
        } else if word == "private"@ {
            Some(Keyword::Private)
        } else if word == "protected"@ {
            Some(Keyword::Protected)
        } else if word == "throw"@ {
            Some(Keyword::Throw)
        } else if word == "let"@ {
            Some(Keyword::Let)
        } else if word == "const"@ {
            Some(Keyword::Const)
        } else {
            None
        }
    }

    /// The keyword that `s` spells once the white space around it is removed.
    pub open spec fn spec_parse(s: Seq<char>) -> Option<Keyword> {
        Keyword::of_word(trimmed(s))
    }

    /// The word as it is written in a script.
    pub fn as_str(&self) -> (r: &'static str)
        ensures
            r@ == self.text(),
    {
        match *self {
            Keyword::Function => "function",
            Keyword::Class => "class",
            Keyword::Enum => "enum",
            Keyword::Return => "return",
            Keyword::Public => "public",
            Keyword::Private => "private",
            Keyword::Protected => "protected",
            Keyword::Throw => "throw",
            Keyword::Let => "let",
            Keyword::Const => "const",
        }
    }

    /// The word as an owned string.
    pub fn to_string(&self) -> (r: String)
        ensures
            r@ == self.text(),
    {
        String::from_str(self.as_str())
    }

    /// Finds the keyword that `s` spells, white space around it aside.
    pub fn parse(s: &str) -> (r: Option<Keyword>)
        ensures
            r == Keyword::spec_parse(s@),
            r matches Some(kw) ==> kw.text() == trimmed(s@),
            r is None ==> forall|kw: Keyword| kw.text() != trimmed(s@),
    {
        let v = chars_of(s);
        Keyword::parse_chars(&v)
    }

    /// Finds the keyword that the characters `v` spell, white space around
    /// them aside.
    pub fn parse_chars(v: &Vec<char>) -> (r: Option<Keyword>)
        ensures
            r == Keyword::spec_parse(v@),
            r matches Some(kw) ==> kw.text() == trimmed(v@),
            r is None ==> forall|kw: Keyword| kw.text() != trimmed(v@),
    {
        let word = trim(v);
        let all = [
            Keyword::Function,
            Keyword::Class,
            Keyword::Enum,
            Keyword::Return,
            Keyword::Public,
            Keyword::Private,
            Keyword::Protected,
            Keyword::Throw,
            Keyword::Let,
            Keyword::Const,
        ];
        let mut i: usize = 0;
        while i < 10
            invariant
                i <= 10,
                word@ == trimmed(v@),
                all@ == seq![
                    Keyword::Function,
                    Keyword::Class,
                    Keyword::Enum,
                    Keyword::Return,
                    Keyword::Public,
                    Keyword::Private,
                    Keyword::Protected,
                    Keyword::Throw,
                    Keyword::Let,
                    Keyword::Const,
                ],
                forall|k: int| 0 <= k < i ==> (#[trigger] all@[k]).text() != word@,
            decreases 10 - i,
        {
            let kw = all[i];
            let w = chars_of(kw.as_str());
            if same_text(&word, &w) {
                proof {
                    Keyword::lemma_of_word(kw);
                }
                return Some(kw);
            }
            i += 1;
        }
        proof {
            assert forall|kw: Keyword| kw.text() != word@ by {
                let k = Keyword::index_of(kw);
                assert(all@[k] == kw);
            }
        }
        None
    }

    /// The place of a keyword in the order of declaration.
    pub open spec fn index_of(kw: Keyword) -> int {
        match kw {
            Keyword::Function => 0,
            Keyword::Class => 1,
            Keyword::Enum => 2,
            Keyword::Return => 3,
            Keyword::Public => 4,
            Keyword::Private => 5,
            Keyword::Protected => 6,
            Keyword::Throw => 7,
            Keyword::Let => 8,
            Keyword::Const => 9,
        }
    }

    /// Reveals what each keyword's text holds.
    pub proof fn lemma_texts()
        ensures
            "function"@ == seq!['f', 'u', 'n', 'c', 't', 'i', 'o', 'n'],
            "class"@ == seq!['c', 'l', 'a', 's', 's'],
            "enum"@ == seq!['e', 'n', 'u', 'm'],
            "return"@ == seq!['r', 'e', 't', 'u', 'r', 'n'],
            "public"@ == seq!['p', 'u', 'b', 'l', 'i', 'c'],
            "private"@ == seq!['p', 'r', 'i', 'v', 'a', 't', 'e'],
            "protected"@ == seq!['p', 'r', 'o', 't', 'e', 'c', 't', 'e', 'd'],
            "throw"@ == seq!['t', 'h', 'r', 'o', 'w'],
            "let"@ == seq!['l', 'e', 't'],
            "const"@ == seq!['c', 'o', 'n', 's', 't'],
    {
        reveal_strlit("function");
        reveal_strlit("class");
        reveal_strlit("enum");
        reveal_strlit("return");
        reveal_strlit("public");
        reveal_strlit("private");
        reveal_strlit("protected");
        reveal_strlit("throw");
        reveal_strlit("let");
        reveal_strlit("const");
        assert("function"@ =~= seq!['f', 'u', 'n', 'c', 't', 'i', 'o', 'n']);
        assert("class"@ =~= seq!['c', 'l', 'a', 's', 's']);
        assert("enum"@ =~= seq!['e', 'n', 'u', 'm']);
        assert("return"@ =~= seq!['r', 'e', 't', 'u', 'r', 'n']);
        assert("public"@ =~= seq!['p', 'u', 'b', 'l', 'i', 'c']);
        assert("private"@ =~= seq!['p', 'r', 'i', 'v', 'a', 't', 'e']);
        assert("protected"@ =~= seq!['p', 'r', 'o', 't', 'e', 'c', 't', 'e', 'd']);
        assert("throw"@ =~= seq!['t', 'h', 'r', 'o', 'w']);
        assert("let"@ =~= seq!['l', 'e', 't']);
        assert("const"@ =~= seq!['c', 'o', 'n', 's', 't']);
    }

    /// Each keyword is the keyword of its own text.
    pub proof fn lemma_of_word(kw: Keyword)
        ensures
            Keyword::of_word(kw.text()) == Some(kw),
    {
        Keyword::lemma_texts();
        assert("class"@[0] != "throw"@[0]);
        assert("class"@[1] != "const"@[1]);
        assert("return"@[0] != "public"@[0]);
    }

    /// Going from a keyword to its text and back gives the keyword again.
    pub proof fn lemma_keyword_round_trip(kw: Keyword)
        ensures
            Keyword::spec_parse(kw.text()) == Some(kw),
    {
        Keyword::lemma_texts();
        Keyword::lemma_of_word(kw);
        lemma_leading_spaces(kw.text(), 0);
        lemma_trailing_spaces(kw.text(), 0);
        assert(trimmed(kw.text()) =~= kw.text());
    }
}

} // verus!
