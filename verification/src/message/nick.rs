//! The `NICK` command.

use vstd::prelude::*;

use crate::message::{view_result, ParseError, ParseErrorView};
use crate::text::contains_char;

verus! {

/// A `NICK` command.
#[derive(Debug)]
pub struct Nick {
    pub nickname: String,
}

/// The model of a `NICK` command.
pub struct NickView {
    pub nickname: Seq<char>,
}

impl View for Nick {
    type V = NickView;

    open spec fn view(&self) -> NickView {
        NickView { nickname: self.nickname@ }
    }
}

/// The text of a `NICK`: `NICK` and the nickname.
pub open spec fn nick_text(n: NickView) -> Seq<char> {
    "NICK "@ + n.nickname
}

/// The parameter of a `NICK` is the nickname; an empty one, or one with a
/// space, is refused and handed back in the error.
pub open spec fn parse_nick(s: Seq<char>) -> Result<NickView, ParseErrorView> {
    if s.contains(' ') || s.len() == 0 {
        Err(ParseErrorView::BadCommand(s))
    } else {
        Ok(NickView { nickname: s })
    }
}

impl Nick {
    /// The text of the command.
    pub fn to_string(&self) -> (res: String)
        ensures
            res@ == nick_text(self@),
    {
        let mut s = String::from_str("NICK ");
        s.append(self.nickname.as_str());
        s
    }

    /// Reads the parameter of a `NICK`.
    pub fn try_from(value: String) -> (res: Result<Nick, ParseError>)
        ensures
            view_result(res) == parse_nick(value@),
    {
        if contains_char(value.as_str(), ' ') || value.as_str().is_empty() {
            return Err(ParseError::BadCommand(value));
        }
        Ok(Nick { nickname: value })
    }
}

} // verus!
