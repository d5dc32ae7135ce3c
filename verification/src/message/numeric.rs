//! Numeric replies, which only the server sends.

use vstd::prelude::*;

use crate::message::{view_result, ParseError, ParseErrorView};
use crate::number::{decimal, format_u32, parse_u32, parse_u32_spec};
use crate::pattern::{get_group, group, groups_view, regex_captures, regex_captures_of};
use crate::text::{split_once, split_once_char, str_eq};

verus! {

/// The pattern that the parameters of an `RPL_LUSERCLIENT` (251) are
/// matched against; its groups are, in this order, the client, the users,
/// the invisible users and the servers.
pub const LUSER_CLIENT_PATTERN: &'static str =
    "^(?<client>[^\\x{0} \\r\\n:]*) :There are (?<users>\\d+) users and (?<invisible>\\d+) invisible on (?<servers>\\d+) server\\(?s\\)?$";

/// A numeric reply.
#[derive(Debug)]
pub enum Numeric {
    RplWelcome { message: String },
    RplYourHost { message: String },
    RplCreated { message: String },
    RplMyInfo { message: String },
    RplISupport { message: String },
    RplUModeIs { client: String, user_modes: String },
    RplLUserClient { client: String, users: u32, invisible: u32, servers: u32 },
}

/// The model of a numeric reply.
pub enum NumericView {
    RplWelcome { message: Seq<char> },
    RplYourHost { message: Seq<char> },
    RplCreated { message: Seq<char> },
    RplMyInfo { message: Seq<char> },
    RplISupport { message: Seq<char> },
    RplUModeIs { client: Seq<char>, user_modes: Seq<char> },
    RplLUserClient { client: Seq<char>, users: u32, invisible: u32, servers: u32 },
}

impl View for Numeric {
    type V = NumericView;

    open spec fn view(&self) -> NumericView {
        match self {
            Numeric::RplWelcome { message } => NumericView::RplWelcome { message: message@ },
            Numeric::RplYourHost { message } => NumericView::RplYourHost { message: message@ },
            Numeric::RplCreated { message } => NumericView::RplCreated { message: message@ },
            Numeric::RplMyInfo { message } => NumericView::RplMyInfo { message: message@ },
            Numeric::RplISupport { message } => NumericView::RplISupport { message: message@ },
            Numeric::RplUModeIs { client, user_modes } => NumericView::RplUModeIs {
                client: client@,
                user_modes: user_modes@,
            },
            Numeric::RplLUserClient { client, users, invisible, servers } =>
                NumericView::RplLUserClient {
                client: client@,
                users: *users,
                invisible: *invisible,
                servers: *servers,
            },
        }
    }
}

/// The text of a numeric reply: the reply's name and its fields.
pub open spec fn numeric_text(n: NumericView) -> Seq<char> {
    match n {
        NumericView::RplWelcome { message } => "RPL_WELCOME "@ + message,
        NumericView::RplYourHost { message } => "RPL_YOURHOST "@ + message,
        NumericView::RplCreated { message } => "RPL_CREATED "@ + message,
        NumericView::RplMyInfo { message } => "RPL_MYINFO "@ + message,
        NumericView::RplISupport { message } => "RPL_ISUPPORT "@ + message,
        NumericView::RplUModeIs { client, user_modes } => "RPL_UMODEIS "@ + client + " "@
            + user_modes,
        NumericView::RplLUserClient { client, users, invisible, servers } => "RPL_LUSERCLIENT "@
            + client + " :There are "@ + decimal(users as nat) + " users and "@ + decimal(
            invisible as nat,
        ) + " invisible on "@ + decimal(servers as nat) + " servers"@,
    }
}

/// A count read from a group of the match: a missing group, or one that
/// is no `u32` in decimal, is refused with `what`.
pub open spec fn count_from_group(g: Seq<Option<Seq<char>>>, i: int, what: Seq<char>) -> Result<
    u32,
    ParseErrorView,
> {
    match group(g, i) {
        Some(t) => match parse_u32_spec(t) {
            Some(n) => Ok(n),
            None => Err(ParseErrorView::BadCommand(what)),
        },
        None => Err(ParseErrorView::BadCommand(what)),
    }
}

/// An `RPL_LUSERCLIENT` from the groups of a match of
/// `LUSER_CLIENT_PATTERN` on its parameters `params`: no match is refused
/// with the parameters; then the client, the users, the invisible users
/// and the servers are taken in turn, the first that is missing, or is no
/// `u32`, refused with its own message.
pub open spec fn luser_client_from_groups(
    params: Seq<char>,
    g: Option<Seq<Option<Seq<char>>>>,
) -> Result<NumericView, ParseErrorView> {
    match g {
        None => Err(ParseErrorView::BadCommand(params)),
        Some(g) => match group(g, 1) {
            None => Err(ParseErrorView::BadCommand("bad_client"@)),
            Some(client) => match count_from_group(g, 2, "bad_users"@) {
                Err(e) => Err(e),
                Ok(users) => match count_from_group(g, 3, "bad_invisible"@) {
                    Err(e) => Err(e),
                    Ok(invisible) => match count_from_group(g, 4, "bad_servers"@) {
                        Err(e) => Err(e),
                        Ok(servers) => Ok(
                            NumericView::RplLUserClient { client, users, invisible, servers },
                        ),
                    },
                },
            },
        },
    }
}

/// A numeric reply is read from its code and its parameters, split at the
/// first space (text without a space is refused with the whole text):
/// codes `001` to `005` take the parameters as their message, `221` splits
/// them at the first space into client and user modes (refused with the
/// whole text when there is none), `251` matches them against
/// `LUSER_CLIENT_PATTERN`; any other code is refused as unknown, with the
/// whole text.
pub open spec fn parse_numeric(s: Seq<char>) -> Result<NumericView, ParseErrorView> {
    match split_once(s, ' ') {
        None => Err(ParseErrorView::BadCommand(s)),
        Some((code, params)) => if code == "001"@ {
            Ok(NumericView::RplWelcome { message: params })
        } else if code == "002"@ {
            Ok(NumericView::RplYourHost { message: params })
        } else if code == "003"@ {
            Ok(NumericView::RplCreated { message: params })
        } else if code == "004"@ {
            Ok(NumericView::RplMyInfo { message: params })
        } else if code == "005"@ {
            Ok(NumericView::RplISupport { message: params })
        } else if code == "221"@ {
            match split_once(params, ' ') {
                Some((client, user_modes)) => Ok(NumericView::RplUModeIs { client, user_modes }),
                None => Err(ParseErrorView::BadCommand(s)),
            }
        } else if code == "251"@ {
            luser_client_from_groups(params, regex_captures_of(LUSER_CLIENT_PATTERN@, params))
        } else {
            Err(ParseErrorView::UnknownCommand(s))
        },
    }
}

fn count_from(g: &Vec<Option<String>>, i: usize, what: &str) -> (res: Result<u32, ParseError>)
    ensures
        view_result_u32(res) == count_from_group(crate::pattern::groups_seq(g@), i as int, what@),
{
    match get_group(g, i) {
        Some(t) => match parse_u32(t.as_str()) {
            Some(n) => Ok(n),
            None => Err(ParseError::BadCommand(String::from_str(what))),
        },
        None => Err(ParseError::BadCommand(String::from_str(what))),
    }
}

/// The model of a count's result.
pub open spec fn view_result_u32(r: Result<u32, ParseError>) -> Result<u32, ParseErrorView> {
    match r {
        Ok(n) => Ok(n),
        Err(e) => Err(e@),
    }
}

impl Numeric {
    /// The text of the reply.
    pub fn to_string(&self) -> (res: String)
        ensures
            res@ == numeric_text(self@),
    {
        let (name, first, second): (&str, &String, Option<&String>) = match self {
            Numeric::RplWelcome { message } => ("RPL_WELCOME ", message, None),
            Numeric::RplYourHost { message } => ("RPL_YOURHOST ", message, None),
            Numeric::RplCreated { message } => ("RPL_CREATED ", message, None),
            Numeric::RplMyInfo { message } => ("RPL_MYINFO ", message, None),
            Numeric::RplISupport { message } => ("RPL_ISUPPORT ", message, None),
            Numeric::RplUModeIs { client, user_modes } => ("RPL_UMODEIS ", client, Some(
                user_modes,
            )),
            Numeric::RplLUserClient { client, users, invisible, servers } => {
                let mut s = String::from_str("RPL_LUSERCLIENT ");
                s.append(client.as_str());
                s.append(" :There are ");
                s.append(format_u32(*users).as_str());
                s.append(" users and ");
                s.append(format_u32(*invisible).as_str());
                s.append(" invisible on ");
                s.append(format_u32(*servers).as_str());
                s.append(" servers");
                return s;
            },
        };
        let mut s = String::from_str(name);
        s.append(first.as_str());
        if let Some(second) = second {
            s.append(" ");
            s.append(second.as_str());
        }
        s
    }

    /// Builds an `RPL_LUSERCLIENT` from its parameters and the groups of a
    /// match of `LUSER_CLIENT_PATTERN` on them.
    pub fn luser_client_from_groups(params: &str, groups: Option<Vec<Option<String>>>) -> (res:
        Result<Numeric, ParseError>)
        ensures
            view_result(res) == luser_client_from_groups(params@, groups_view(groups)),
    {
        match groups {
            None => Err(ParseError::BadCommand(String::from_str(params))),
            Some(g) => {
                let client = match get_group(&g, 1) {
                    Some(c) => c,
                    None => {
                        return Err(ParseError::BadCommand(String::from_str("bad_client")));
                    },
                };
                let users = match count_from(&g, 2, "bad_users") {
                    Ok(n) => n,
                    Err(e) => {
                        return Err(e);
                    },
                };
                let invisible = match count_from(&g, 3, "bad_invisible") {
                    Ok(n) => n,
                    Err(e) => {
                        return Err(e);
                    },
                };
                let servers = match count_from(&g, 4, "bad_servers") {
                    Ok(n) => n,
                    Err(e) => {
                        return Err(e);
                    },
                };
                Ok(Numeric::RplLUserClient { client, users, invisible, servers })
            },
        }
    }

    /// Reads a numeric reply: its code, a space and its parameters.
    pub fn try_from(value: &str) -> (res: Result<Numeric, ParseError>)
        ensures
            view_result(res) == parse_numeric(value@),
    {
        match split_once_char(value, ' ') {
            None => Err(ParseError::BadCommand(String::from_str(value))),
            Some((code, params)) => {
                if str_eq(code, "001") {
                    Ok(Numeric::RplWelcome { message: String::from_str(params) })
                } else if str_eq(code, "002") {
                    Ok(Numeric::RplYourHost { message: String::from_str(params) })
                } else if str_eq(code, "003") {
                    Ok(Numeric::RplCreated { message: String::from_str(params) })
                } else if str_eq(code, "004") {
                    Ok(Numeric::RplMyInfo { message: String::from_str(params) })
                } else if str_eq(code, "005") {
                    Ok(Numeric::RplISupport { message: String::from_str(params) })
                } else if str_eq(code, "221") {
                    match split_once_char(params, ' ') {
                        Some((client, user_modes)) => Ok(
                            Numeric::RplUModeIs {
                                client: String::from_str(client),
                                user_modes: String::from_str(user_modes),
                            },
                        ),
                        None => Err(ParseError::BadCommand(String::from_str(value))),
                    }
                } else if str_eq(code, "251") {
                    let groups = regex_captures(LUSER_CLIENT_PATTERN, params);
                    Numeric::luser_client_from_groups(params, groups)
                } else {
                    Err(ParseError::UnknownCommand(String::from_str(value)))
                }
            },
        }
    }
}

} // verus!
