//! The `PRIVMSG` command.

use vstd::prelude::*;

use crate::message::{view_result, ParseError, ParseErrorView};
use crate::text::{
    drop_first_char, join, join_strs, split, split_char, split_once, split_once_char,
    starts_with_char, strings_view,
};

verus! {

/// A `PRIVMSG` command: a text for one or more targets.
#[derive(Debug)]
pub struct PrivMsg {
    pub targets: Vec<String>,
    pub payload: String,
}

/// The model of a `PRIVMSG` command.
pub struct PrivMsgView {
    pub targets: Seq<Seq<char>>,
    pub payload: Seq<char>,
}

impl View for PrivMsg {
    type V = PrivMsgView;

    open spec fn view(&self) -> PrivMsgView {
        PrivMsgView { targets: strings_view(self.targets@), payload: self.payload@ }
    }
}

/// The text of a `PRIVMSG`: `PRIVMSG`, the targets joined by commas, and
/// the payload after a colon.
pub open spec fn privmsg_text(p: PrivMsgView) -> Seq<char> {
    "PRIVMSG "@ + join(p.targets, ","@) + " :"@ + p.payload
}

/// The payload without the one colon that may lead it.
pub open spec fn strip_colon(s: Seq<char>) -> Seq<char> {
    if s.len() > 0 && s[0] == ':' {
        s.drop_first()
    } else {
        s
    }
}

/// The parameters of a `PRIVMSG` are read as: the targets before the first
/// space, split at commas, and the payload after it, without one leading
/// colon; text without a space is targets alone with an empty payload,
/// and empty text is refused.
pub open spec fn parse_privmsg(s: Seq<char>) -> Result<PrivMsgView, ParseErrorView> {
    match split_once(s, ' ') {
        Some((t, p)) => Ok(PrivMsgView { targets: split(t, ','), payload: strip_colon(p) }),
        None => if s.len() == 0 {
            Err(ParseErrorView::BadCommand("received empty payload"@))
        } else {
            Ok(PrivMsgView { targets: split(s, ','), payload: seq![] })
        },
    }
}

impl PrivMsg {
    /// The text of the command.
    pub fn to_string(&self) -> (res: String)
        ensures
            res@ == privmsg_text(self@),
    {
        let mut s = String::from_str("PRIVMSG ");
        let t = join_strs(&self.targets, ",");
        s.append(t.as_str());
        s.append(" :");
        s.append(self.payload.as_str());
        s
    }

    /// Reads the parameters of a `PRIVMSG`.
    pub fn try_from(value: &str) -> (res: Result<PrivMsg, ParseError>)
        ensures
            view_result(res) == parse_privmsg(value@),
    {
        match split_once_char(value, ' ') {
            Some((targets, payload)) => {
                let payload = if starts_with_char(payload, ':') {
                    drop_first_char(payload)
                } else {
                    payload
                };
                Ok(PrivMsg { targets: split_char(targets, ','), payload: String::from_str(payload) })
            },
            None => {
                if value.is_empty() {
                    Err(ParseError::BadCommand(String::from_str("received empty payload")))
                } else {
                    let payload = String::new();
                    Ok(PrivMsg { targets: split_char(value, ','), payload })
                }
            },
        }
    }
}

} // verus!
