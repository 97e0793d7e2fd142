use crate::error::Error;
use crate::text::{append_chars, chars_of, string_of};
use vstd::prelude::*;

verus! {

/// How far a script has come.
#[derive(Debug, PartialEq, Eq, Structural, Clone, Copy)]
pub enum ScriptState {
    INITIAL,
    LOADED,
    PARSED,
    RUNNING,
    FINISHED,
}

impl ScriptState {
    /// The state's name in lower case.
    pub open spec fn text(&self) -> Seq<char> {
        match *self {
            ScriptState::INITIAL => "initial"@,
            ScriptState::LOADED => "loaded"@,
            ScriptState::PARSED => "parsed"@,
            ScriptState::RUNNING => "running"@,
            ScriptState::FINISHED => "finished"@,
        }
    }

    /// The state's name in lower case.
    pub fn as_str(&self) -> (r: &'static str)
        ensures
            r@ == self.text(),
    {
        match *self {
            ScriptState::INITIAL => "initial",
            ScriptState::LOADED => "loaded",
            ScriptState::PARSED => "parsed",
            ScriptState::RUNNING => "running",
            ScriptState::FINISHED => "finished",
        }
    }

    /// The state's name as an owned string.
    pub fn to_string(&self) -> (r: String)
        ensures
            r@ == self.text(),
    {
        String::from_str(self.as_str())
    }
}

/// A script: its name, where it comes from, its text once it is known, and
/// how far it has come.
#[derive(Debug)]
pub struct Script {
    name: String,
    path: String,
    content: Option<String>,
    state: ScriptState,
}

/// The mathematical content of a [`Script`].
pub struct ScriptView {
    pub name: Seq<char>,
    pub path: Seq<char>,
    pub content: Option<Seq<char>>,
    pub state: ScriptState,
}

/// The content of an optional text.
pub open spec fn text_view(text: Option<String>) -> Option<Seq<char>> {
    match text {
        Some(t) => Some(t@),
        None => None,
    }
}

impl View for Script {
    type V = ScriptView;

    closed spec fn view(&self) -> ScriptView {
        ScriptView {
            name: self.name@,
            path: self.path@,
            content: text_view(self.content),
            state: self.state,
        }
    }
}

impl ScriptView {
    /// What presents the script to a reader: its name, then its state in
    /// round brackets.
    pub open spec fn text(self) -> Seq<char> {
        self.name + " ("@ + self.state.text() + ")"@
    }

    /// The script once `content` has been read for it: it holds the content,
    /// and a script that was in its initial state is now loaded.
    pub open spec fn loaded(self, content: Seq<char>) -> ScriptView {
        ScriptView {
            content: Some(content),
            state: if self.state == ScriptState::INITIAL {
                ScriptState::LOADED
            } else {
                self.state
            },
            ..self
        }
    }
}

impl Script {
    /// A script with the given path and name. With a content it is loaded,
    /// without one it is in its initial state.
    pub fn new(path: &str, name: &str, content: Option<&str>) -> (s: Script)
        ensures
            s@ == (ScriptView {
                name: name@,
                path: path@,
                content: match content {
                    Some(c) => Some(c@),
                    None => None,
                },
                state: if content is Some {
                    ScriptState::LOADED
                } else {
                    ScriptState::INITIAL
                },
            }),
    {
        let state = match content {
            Some(_) => ScriptState::LOADED,
            None => ScriptState::INITIAL,
        };
        let content = match content {
            Some(c) => Some(String::from_str(c)),
            None => None,
        };
        Script { name: String::from_str(name), path: String::from_str(path), content, state }
    }

    /// A script with the given path and name whose text was read from its
    /// path: loaded with what was read, or the failure of the read.
    pub fn import(path: &str, name: &str, read: Result<String, Error>) -> (r: Result<Script, Error>)
        ensures
            match read {
                Ok(content) => r matches Ok(s) && s@ == (ScriptView {
                    name: name@,
                    path: path@,
                    content: Some(content@),
                    state: ScriptState::LOADED,
                }),
                Err(e) => r matches Err(f) && f@ == e@,
            },
    {
        let mut s = Script::new(path, name, None);
        match s.load(read) {
            Ok(()) => Ok(s),
            Err(e) => Err(e),
        }
    }

    /// Takes what reading the script's path gave: the content, with which an
    /// initial script becomes loaded, or the failure, which is handed on and
    /// leaves the script as it was.
    pub fn load(&mut self, read: Result<String, Error>) -> (r: Result<(), Error>)
        ensures
            match read {
                Ok(content) => r is Ok && final(self)@ == old(self)@.loaded(content@),
                Err(e) => r matches Err(f) && f@ == e@ && final(self)@ == old(self)@,
            },
    {
        match read {
            Ok(content) => {
                self.content = Some(content);
                if self.state == ScriptState::INITIAL {
                    self.state = ScriptState::LOADED;
                }
                Ok(())
            },
            Err(e) => Err(e),
        }
    }

    /// The name under which the script is known.
    pub fn name(&self) -> (r: &String)
        ensures
            r@ == self@.name,
    {
        &self.name
    }

    /// The name, to read or to change.
    pub fn name_mut(&mut self) -> (r: &mut String)
        ensures
            r@ == old(self)@.name,
            final(self)@ == (ScriptView { name: final(r)@, ..old(self)@ }),
    {
        &mut self.name
    }

    /// Where the script comes from.
    pub fn path(&self) -> (r: &String)
        ensures
            r@ == self@.path,
    {
        &self.path
    }

    /// The path, to read or to change.
    pub fn path_mut(&mut self) -> (r: &mut String)
        ensures
            r@ == old(self)@.path,
            final(self)@ == (ScriptView { path: final(r)@, ..old(self)@ }),
    {
        &mut self.path
    }

    /// How far the script has come.
    pub fn state(&self) -> (r: &ScriptState)
        ensures
            *r == self@.state,
    {
        &self.state
    }

    /// The state, to read or to change.
    pub fn state_mut(&mut self) -> (r: &mut ScriptState)
        ensures
            *r == old(self)@.state,
            final(self)@ == (ScriptView { state: *final(r), ..old(self)@ }),
    {
        &mut self.state
    }

    /// The text of the script, once it is known.
    pub fn content(&self) -> (r: Option<&String>)
        ensures
            match r {
                Some(c) => self@.content == Some(c@),
                None => self@.content is None,
            },
    {
        self.content.as_ref()
    }

    /// The text of the script, if it is known, to read or to change.
    pub fn content_mut(&mut self) -> (r: Option<&mut String>)
        ensures
            match r {
                Some(c) => old(self)@.content == Some(c@) && final(self)@ == (ScriptView {
                    content: Some(final(c)@),
                    ..old(self)@
                }),
                None => old(self)@.content is None && final(self)@ == old(self)@,
            },
    {
        match &mut self.content {
            Some(c) => Some(c),
            None => None,
        }
    }

    /// What presents the script to a reader: its name, then its state in
    /// round brackets.
    pub fn to_string(&self) -> (r: String)
        ensures
            r@ == self@.text(),
    {
        let mut v = chars_of(self.name.as_str());
        let open = chars_of(" (");
        append_chars(&mut v, &open);
        let state = chars_of(self.state.as_str());
        append_chars(&mut v, &state);
        let close = chars_of(")");
        append_chars(&mut v, &close);
        string_of(&v)
    }
}

} // verus!
