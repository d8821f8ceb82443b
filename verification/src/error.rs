//! Errors of parsing: a message, an optional position and an optional cause.
use vstd::prelude::*;
use crate::text::{decimal, push_decimal};

verus! {

/// A parsing error: message, position (line, byte column) and the error that caused it.
#[derive(Debug)]
pub struct ParseError {
    msg: String,
    pos: Option<(usize, usize)>,
    src: Option<Box<ParseError>>,
}

impl ParseError {
    /// The message.
    pub closed spec fn spec_msg(&self) -> Seq<char> {
        self.msg@
    }

    /// The position (line, byte column), where one is known.
    pub closed spec fn spec_pos(&self) -> Option<(usize, usize)> {
        self.pos
    }

    /// The error that caused this one, where there is one.
    pub closed spec fn spec_source(&self) -> Option<ParseError> {
        match self.src {
            Some(b) => Some(*b),
            None => None,
        }
    }

    /// An error with a message only.
    pub fn new(msg: &str) -> (e: Self)
        ensures
            e.spec_msg() == msg@,
            e.spec_pos() is None,
            e.spec_source() is None,
    {
        ParseError { msg: msg.to_owned(), pos: None, src: None }
    }

    /// An error with a message and a position.
    pub fn new_with_pos(msg: &str, pos: (usize, usize)) -> (e: Self)
        ensures
            e.spec_msg() == msg@,
            e.spec_pos() == Some(pos),
            e.spec_source() is None,
    {
        ParseError { msg: msg.to_owned(), pos: Some(pos), src: None }
    }

    /// An error with a message, a position and the error that caused it.
    pub fn new_with_source(msg: &str, pos: (usize, usize), src: ParseError) -> (e: Self)
        ensures
            e.spec_msg() == msg@,
            e.spec_pos() == Some(pos),
            e.spec_source() == Some(src),
    {
        ParseError { msg: msg.to_owned(), pos: Some(pos), src: Some(Box::new(src)) }
    }

    /// An error with a message and the error that caused it, without position.
    pub fn new_with_cause(msg: &str, src: ParseError) -> (e: Self)
        ensures
            e.spec_msg() == msg@,
            e.spec_pos() is None,
            e.spec_source() == Some(src),
    {
        ParseError { msg: msg.to_owned(), pos: None, src: Some(Box::new(src)) }
    }

    /// The error that caused this one, where there is one.
    pub fn source(&self) -> (r: Option<&ParseError>)
        ensures
            match r {
                Some(e) => self.spec_source() == Some(*e),
                None => self.spec_source() is None,
            },
    {
        match &self.src {
            Some(b) => Some(&**b),
            None => None,
        }
    }

    /// The displayed text: the message, then ` <line:column>` where the position is known,
    /// then a line break and the displayed text of the cause where there is one.
    pub closed spec fn error_text(&self) -> Seq<char>
        decreases self,
    {
        display_text(self.msg@, self.pos) + match self.src {
            Some(b) => "\n"@ + (*b).error_text(),
            None => Seq::empty(),
        }
    }

    /// The displayed text, stated over the message, position and cause.
    pub proof fn lemma_error_text(&self)
        ensures
            self.error_text() == display_text(self.spec_msg(), self.spec_pos()) + match self.spec_source() {
                Some(x) => "\n"@ + x.error_text(),
                None => Seq::empty(),
            },
    {
    }

    /// The displayed text (see `error_text`).
    pub fn to_string(&self) -> (s: String)
        ensures
            s@ == self.error_text(),
            self.spec_source() is None ==> s@ == display_text(self.spec_msg(), self.spec_pos()),
        decreases self,
    {
        let mut s = self.msg.clone();
        match self.pos {
            Some((line, column)) => {
                s.append(" <");
                push_decimal(&mut s, line);
                s.append(":");
                push_decimal(&mut s, column);
                s.append(">");
            },
            None => {},
        }
        let ghost head = s@;
        assert(head == display_text(self.msg@, self.pos));
        match &self.src {
            Some(b) => {
                s.append("\n");
                let rest = (&**b).to_string();
                s.append(rest.as_str());
                assert(s@ =~= head + ("\n"@ + (**b).error_text()));
            },
            None => {
                assert(s@ =~= head + Seq::<char>::empty());
            },
        }
        s
    }
}

/// How an error with message `msg` and position `pos` is displayed.
pub open spec fn display_text(msg: Seq<char>, pos: Option<(usize, usize)>) -> Seq<char> {
    match pos {
        Some((line, column)) => msg + " <"@ + decimal(line as nat) + ":"@ + decimal(column as nat)
            + ">"@,
        None => msg,
    }
}

/// Why a macro could not be flattened.
#[derive(Debug, PartialEq)]
pub enum MacroError {
    /// No macro of this name exists.
    NotFound(String),
    /// The macro refers to itself, directly or through other macros.
    InfiniteLoop(String),
}

impl MacroError {
    /// The error as `{:?}` shows it: `NotFound("name")` or `InfiniteLoop("name")`, for names
    /// that need no escaping.
    pub fn debug_text(&self) -> (s: String)
        ensures
            s@ == macro_error_text(self@),
    {
        let mut s = String::new();
        match self {
            MacroError::NotFound(name) => {
                s.append("NotFound(\"");
                s.append(name.as_str());
            },
            MacroError::InfiniteLoop(name) => {
                s.append("InfiniteLoop(\"");
                s.append(name.as_str());
            },
        }
        s.append("\")");
        s
    }
}

/// How a macro error is shown: the variant and the quoted name.
pub open spec fn macro_error_text(e: MacroErrorModel) -> Seq<char> {
    match e {
        MacroErrorModel::NotFound(name) => "NotFound(\""@ + name + "\")"@,
        MacroErrorModel::InfiniteLoop(name) => "InfiniteLoop(\""@ + name + "\")"@,
    }
}

/// `MacroError` as a mathematical value.
pub enum MacroErrorModel {
    NotFound(Seq<char>),
    InfiniteLoop(Seq<char>),
}

impl View for MacroError {
    type V = MacroErrorModel;

    open spec fn view(&self) -> MacroErrorModel {
        match self {
            MacroError::NotFound(name) => MacroErrorModel::NotFound(name@),
            MacroError::InfiniteLoop(name) => MacroErrorModel::InfiniteLoop(name@),
        }
    }
}

} // verus!
