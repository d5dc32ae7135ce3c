//! The `USER` command.

use vstd::prelude::*;

use crate::message::{view_result, ParseError, ParseErrorView};
use crate::pattern::{get_group, group, groups_view, regex_captures, regex_captures_of};

verus! {

/// The pattern that the parameters of a `USER` are matched against: the
/// user name, then `0` and `*` each with an optional space before it, a
/// space, and the real name.
pub const USER_PATTERN: &'static str = "(\\w*) ?0? ?\\*? (\\w*)";

/// A `USER` command.
#[derive(Debug)]
pub struct User {
    pub username: String,
    pub realname: String,
}

/// The model of a `USER` command.
pub struct UserView {
    pub username: Seq<char>,
    pub realname: Seq<char>,
}

impl View for User {
    type V = UserView;

    open spec fn view(&self) -> UserView {
        UserView { username: self.username@, realname: self.realname@ }
    }
}

/// The text of a `USER`: `USER`, the user name, `0 *` and the real name.
pub open spec fn user_text(u: UserView) -> Seq<char> {
    "USER "@ + u.username + " 0 * "@ + u.realname
}

/// A `USER` from the groups of a match of `USER_PATTERN`: the user name
/// is group 1 and the real name group 2; no match, or a match without
/// both groups, is refused.
pub open spec fn user_from_groups(g: Option<Seq<Option<Seq<char>>>>) -> Result<
    UserView,
    ParseErrorView,
> {
    match g {
        Some(groups) => match (group(groups, 1), group(groups, 2)) {
            (Some(u), Some(r)) => Ok(UserView { username: u, realname: r }),
            _ => Err(ParseErrorView::BadFormat),
        },
        None => Err(ParseErrorView::BadFormat),
    }
}

/// The parameters of a `USER` are read by matching them against
/// `USER_PATTERN`.
pub open spec fn parse_user(s: Seq<char>) -> Result<UserView, ParseErrorView> {
    user_from_groups(regex_captures_of(USER_PATTERN@, s))
}

impl User {
    /// The text of the command.
    pub fn to_string(&self) -> (res: String)
        ensures
            res@ == user_text(self@),
    {
        let mut s = String::from_str("USER ");
        s.append(self.username.as_str());
        s.append(" 0 * ");
        s.append(self.realname.as_str());
        s
    }

    /// Builds a `USER` from the groups of a match of `USER_PATTERN`.
    pub fn from_groups(groups: Option<Vec<Option<String>>>) -> (res: Result<User, ParseError>)
        ensures
            view_result(res) == user_from_groups(groups_view(groups)),
    {
        match groups {
            Some(g) => match (get_group(&g, 1), get_group(&g, 2)) {
                (Some(username), Some(realname)) => Ok(User { username, realname }),
                _ => Err(ParseError::BadFormat),
            },
            None => Err(ParseError::BadFormat),
        }
    }

    /// Reads the parameters of a `USER`.
    pub fn try_from(value: &str) -> (res: Result<User, ParseError>)
        ensures
            view_result(res) == parse_user(value@),
    {
        let groups = regex_captures(USER_PATTERN, value);
        User::from_groups(groups)
    }
}

} // verus!
