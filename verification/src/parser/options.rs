use crate::text::{chars_of, same_text};
use vstd::prelude::*;

verus! {

/// What a parser can be asked to do besides parsing.
#[derive(Debug, PartialEq, Eq, Structural, Clone, Copy)]
pub enum ParserOption {
    /// Report each step of the scan and the finished tree.
    Debug,
}

/// The text `s` with every character in lower case, as
/// `str::to_lowercase` gives it.
pub uninterp spec fn lowercase(s: Seq<char>) -> Seq<char>;

/// Puts `s` in lower case.
///
/// Calls `str::to_lowercase`; the contract gives its result the name
/// `lowercase` and claims nothing else of it.
#[verifier::external_body]
fn to_lowercase(s: &str) -> (r: String)
    ensures
        r@ == lowercase(s@),
{
    s.to_lowercase()
}

/// Whether the lower-case word `w` says yes.
pub open spec fn is_positive_word(w: Seq<char>) -> bool {
    w == "yes"@ || w == "y"@ || w == "1"@ || w == "on"@ || w == "ok"@
}

/// Whether the lower-case word `w` says no.
pub open spec fn is_negative_word(w: Seq<char>) -> bool {
    w == "no"@ || w == "n"@ || w == "0"@ || w == "off"@
}

fn is_word(w: &Vec<char>, word: &str) -> (b: bool)
    ensures
        b == (w@ == word@),
{
    let other = chars_of(word);
    same_text(w, &other)
}

impl ParserOption {
    /// Tells whether a word that is already in lower case says yes.
    pub fn is_positive_lowercase(w: &str) -> (b: bool)
        ensures
            b == is_positive_word(w@),
    {
        let v = chars_of(w);
        is_word(&v, "yes") || is_word(&v, "y") || is_word(&v, "1") || is_word(&v, "on")
            || is_word(&v, "ok")
    }

    /// Tells whether a word that is already in lower case says no.
    pub fn is_negative_lowercase(w: &str) -> (b: bool)
        ensures
            b == is_negative_word(w@),
    {
        let v = chars_of(w);
        is_word(&v, "no") || is_word(&v, "n") || is_word(&v, "0") || is_word(&v, "off")
    }

    /// Tells whether `s` says yes, whatever the case of its letters.
    pub fn is_positive_answer(s: &str) -> (b: bool)
        ensures
            b == is_positive_word(lowercase(s@)),
    {
        let lower = to_lowercase(s);
        ParserOption::is_positive_lowercase(lower.as_str())
    }

    /// Tells whether `s` says no, whatever the case of its letters.
    pub fn is_negative_answer(s: &str) -> (b: bool)
        ensures
            b == is_negative_word(lowercase(s@)),
    {
        let lower = to_lowercase(s);
        ParserOption::is_negative_lowercase(lower.as_str())
    }

    /// The options that the debug setting asks for: `Debug` when the setting
    /// is present and does not say no, none otherwise.
    pub fn from_env(setting: Option<&str>) -> (opts: Vec<ParserOption>)
        ensures
            opts@ == match setting {
                Some(s) => if is_negative_word(lowercase(s@)) {
                    Seq::<ParserOption>::empty()
                } else {
                    seq![ParserOption::Debug]
                },
                None => Seq::<ParserOption>::empty(),
            },
    {
        let mut opts: Vec<ParserOption> = Vec::new();
        match setting {
            Some(s) => {
                if !ParserOption::is_negative_answer(s) {
                    opts.push(ParserOption::Debug);
                }
            },
            None => {},
        }
        opts
    }
}

} // verus!
