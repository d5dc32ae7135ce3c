//! The `JOIN` command.

use vstd::prelude::*;

use crate::message::{view_result, ParseError, ParseErrorView};
use crate::text::{
    contains_char, join, join_strs, split, split_char, split_once, split_once_char, str_eq,
    strings_view,
};

verus! {

/// What a `JOIN` asks for: channels with their keys, or leaving every
/// channel.
#[derive(Debug)]
pub enum JoinParams {
    Channels { channels: Vec<String>, keys: Vec<String> },
    Leave,
}

/// The model of the parameters of a `JOIN`.
pub enum JoinParamsView {
    Channels { channels: Seq<Seq<char>>, keys: Seq<Seq<char>> },
    Leave,
}

impl View for JoinParams {
    type V = JoinParamsView;

    open spec fn view(&self) -> JoinParamsView {
        match self {
            JoinParams::Channels { channels, keys } => JoinParamsView::Channels {
                channels: strings_view(channels@),
                keys: strings_view(keys@),
            },
            JoinParams::Leave => JoinParamsView::Leave,
        }
    }
}

/// A `JOIN` command.
#[derive(Debug)]
pub struct Join {
    pub params: JoinParams,
}

/// The model of a `JOIN` command.
pub struct JoinView {
    pub params: JoinParamsView,
}

impl View for Join {
    type V = JoinView;

    open spec fn view(&self) -> JoinView {
        JoinView { params: self.params@ }
    }
}

/// The text of a `JOIN`: `JOIN 0` to leave, else `JOIN` and the channels
/// joined by commas, followed by the keys joined by commas when there are
/// keys.
pub open spec fn join_text(j: JoinView) -> Seq<char> {
    "JOIN"@ + match j.params {
        JoinParamsView::Leave => " 0"@,
        JoinParamsView::Channels { channels, keys } => if keys.len() == 0 {
            " "@ + join(channels, ","@)
        } else {
            " "@ + join(channels, ","@) + " "@ + join(keys, ","@)
        },
    }
}

/// The parameters of a `JOIN` are read as: `0` is leaving; text with a
/// space is the channels before the first space and the keys after it,
/// each split at commas, refused unless there are as many keys as
/// channels; text without a space is the channels, split at commas,
/// with no keys.
pub open spec fn parse_join(s: Seq<char>) -> Result<JoinView, ParseErrorView> {
    if s == "0"@ {
        Ok(JoinView { params: JoinParamsView::Leave })
    } else {
        match split_once(s, ' ') {
            Some((c, k)) => {
                let channels = split(c, ',');
                let keys = split(k, ',');
                if channels.len() != keys.len() {
                    Err(ParseErrorView::BadFormat)
                } else {
                    Ok(JoinView { params: JoinParamsView::Channels { channels, keys } })
                }
            },
            None => Ok(
                JoinView {
                    params: JoinParamsView::Channels { channels: split(s, ','), keys: seq![] },
                },
            ),
        }
    }
}

impl Join {
    /// The text of the command.
    pub fn to_string(&self) -> (res: String)
        ensures
            res@ == join_text(self@),
    {
        let mut s = String::from_str("JOIN");
        match &self.params {
            JoinParams::Leave => {
                s.append(" 0");
            },
            JoinParams::Channels { channels, keys } => {
                let c = join_strs(channels, ",");
                s.append(" ");
                s.append(c.as_str());
                if keys.len() != 0 {
                    let k = join_strs(keys, ",");
                    s.append(" ");
                    s.append(k.as_str());
                }
            },
        }
        assert(s@ =~= join_text(self@));
        s
    }

    /// Reads the parameters of a `JOIN`.
    pub fn try_from(value: &String) -> (res: Result<Join, ParseError>)
        ensures
            view_result(res) == parse_join(value@),
    {
        let v = value.as_str();
        if str_eq(v, "0") {
            return Ok(Join { params: JoinParams::Leave });
        }
        if contains_char(v, ' ') {
            match split_once_char(v, ' ') {
                Some((c, k)) => {
                    let channels = split_char(c, ',');
                    let keys = split_char(k, ',');
                    if channels.len() != keys.len() {
                        return Err(ParseError::BadFormat);
                    }
                    Ok(Join { params: JoinParams::Channels { channels, keys } })
                },
                None => {
                    proof {
                        crate::text::lemma_index_of(v@, ' ');
                        let j = choose|j: int| 0 <= j < v@.len() && v@[j] == ' ';
                        assert(v@[j] != ' ');
                    }
                    Err(ParseError::BadFormat)
                },
            }
        } else {
            proof {
                crate::text::lemma_index_of(v@, ' ');
                if let Some(i) = crate::text::index_of(v@, ' ') {
                    assert(v@[i] == ' ');
                    assert(v@.contains(' '));
                }
            }
            let channels = split_char(v, ',');
            let keys: Vec<String> = Vec::new();
            assert(strings_view(keys@) =~= Seq::<Seq<char>>::empty());
            Ok(Join { params: JoinParams::Channels { channels, keys } })
        }
    }
}

} // verus!
