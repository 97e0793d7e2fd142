use crate::location::{Location, LocationView};
use crate::text::{append_chars, chars_of, decimal, decimal_of, string_of};
use vstd::prelude::*;

verus! {

/// What can go wrong while a script is loaded, scanned or run.
#[derive(Debug)]
pub enum Error {
    /// A script could not be read, or has no content; holds the reason.
    IO(String),
    /// The script breaks the structure of the language at the given place.
    Syntax(String, Location),
    /// Any other failure, with the place where it is known.
    Unknown(String, Option<Location>),
}

/// The mathematical content of an [`Error`].
pub enum ErrorView {
    IO(Seq<char>),
    Syntax(Seq<char>, LocationView),
    Unknown(Seq<char>, Option<LocationView>),
}

impl View for Error {
    type V = ErrorView;

    open spec fn view(&self) -> ErrorView {
        match self {
            Error::IO(msg) => ErrorView::IO(msg@),
            Error::Syntax(msg, loc) => ErrorView::Syntax(msg@, loc@),
            Error::Unknown(msg, loc) => ErrorView::Unknown(
                msg@,
                match loc {
                    Some(l) => Some(l@),
                    None => None,
                },
            ),
        }
    }
}

/// The words `" at "`, the file, a colon and the line, as shown after a
/// message.
pub open spec fn place_text(loc: LocationView) -> Seq<char> {
    " at "@ + loc.file + ":"@ + decimal(loc.line as nat)
}

/// The text that presents an error to a reader.
pub open spec fn error_text(e: ErrorView) -> Seq<char> {
    match e {
        ErrorView::IO(msg) => "I/O: "@ + msg,
        ErrorView::Syntax(msg, loc) => "Syntax: "@ + msg + place_text(loc),
        ErrorView::Unknown(msg, loc) => "Unknown: "@ + msg + match loc {
            Some(l) => place_text(l),
            None => Seq::empty(),
        },
    }
}

fn append_place(v: &mut Vec<char>, loc: &Location)
    ensures
        final(v)@ == old(v)@ + place_text(loc@),
{
    let at = chars_of(" at ");
    append_chars(v, &at);
    let file = chars_of(loc.file().as_str());
    append_chars(v, &file);
    let colon = chars_of(":");
    append_chars(v, &colon);
    let line = decimal_of(*loc.line());
    append_chars(v, &line);
    assert(v@ =~= old(v)@ + place_text(loc@));
}

impl Error {
    /// The text that presents this error to a reader.
    pub fn to_string(&self) -> (r: String)
        ensures
            r@ == error_text(self@),
    {
        let mut v: Vec<char>;
        match self {
            Error::IO(msg) => {
                v = chars_of("I/O: ");
                let m = chars_of(msg.as_str());
                append_chars(&mut v, &m);
            },
            Error::Syntax(msg, loc) => {
                v = chars_of("Syntax: ");
                let m = chars_of(msg.as_str());
                append_chars(&mut v, &m);
                append_place(&mut v, loc);
            },
            Error::Unknown(msg, loc) => {
                v = chars_of("Unknown: ");
                let m = chars_of(msg.as_str());
                append_chars(&mut v, &m);
                match loc {
                    Some(l) => {
                        append_place(&mut v, l);
                    },
                    None => {
                        assert(v@ + Seq::<char>::empty() =~= v@);
                    },
                }
            },
        }
        string_of(&v)
    }
}

} // verus!
