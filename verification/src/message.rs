//! IRC messages: tags, sources, commands, and the parse errors, with
//! their text forms (what is sent on the wire) and their parsers.

pub mod join;
pub mod nick;
pub mod numeric;
pub mod privmsg;
pub mod user;

pub use join::{Join, JoinParams};
pub use nick::Nick;
pub use numeric::Numeric;
pub use privmsg::PrivMsg;
pub use user::User;

use vstd::prelude::*;

use crate::message::join::{join_text, parse_join, JoinView};
use crate::message::nick::{nick_text, parse_nick, NickView};
use crate::message::privmsg::{parse_privmsg, privmsg_text, PrivMsgView};
use crate::message::user::{parse_user, user_text, UserView};
use crate::text::{
    drop_first_char, join, join_strs, split, split_char, split_once, split_once_char,
    starts_with_char, str_eq, strings_view, trim, trim_str,
};

verus! {

/// The view of an optional string.
pub open spec fn opt_view(o: Option<String>) -> Option<Seq<char>> {
    match o {
        Some(s) => Some(s@),
        None => None,
    }
}

/// The characters of an optional string, nothing for `None`.
pub open spec fn opt_text(o: Option<Seq<char>>) -> Seq<char> {
    match o {
        Some(s) => s,
        None => seq![],
    }
}

/// `None` for the empty string, the string otherwise.
pub open spec fn non_empty(s: Seq<char>) -> Option<Seq<char>> {
    if s.len() == 0 {
        None
    } else {
        Some(s)
    }
}

fn non_empty_string(s: &str) -> (res: Option<String>)
    ensures
        opt_view(res) == non_empty(s@),
{
    if s.is_empty() {
        None
    } else {
        Some(String::from_str(s))
    }
}

/// The error of a parser.
#[derive(Debug)]
pub enum ParseError {
    BadFormat,
    UnknownCommand(String),
    BadCommand(String),
}

/// The model of a parse error.
pub enum ParseErrorView {
    BadFormat,
    UnknownCommand(Seq<char>),
    BadCommand(Seq<char>),
}

impl View for ParseError {
    type V = ParseErrorView;

    open spec fn view(&self) -> ParseErrorView {
        match self {
            ParseError::BadFormat => ParseErrorView::BadFormat,
            ParseError::UnknownCommand(c) => ParseErrorView::UnknownCommand(c@),
            ParseError::BadCommand(c) => ParseErrorView::BadCommand(c@),
        }
    }
}

/// The model of a parser's result.
pub open spec fn view_result<T: View>(r: Result<T, ParseError>) -> Result<T::V, ParseErrorView> {
    match r {
        Ok(t) => Ok(t@),
        Err(e) => Err(e@),
    }
}

/// The text of a parse error.
pub open spec fn parse_error_text(e: ParseErrorView) -> Seq<char> {
    match e {
        ParseErrorView::BadFormat => "Bad format"@,
        ParseErrorView::UnknownCommand(c) => "Unknown command: "@ + c,
        ParseErrorView::BadCommand(c) => "Bad command: "@ + c,
    }
}

impl ParseError {
    /// The text of the error.
    pub fn to_string(&self) -> (res: String)
        ensures
            res@ == parse_error_text(self@),
    {
        match self {
            ParseError::BadFormat => String::from_str("Bad format"),
            ParseError::UnknownCommand(c) => {
                let mut s = String::from_str("Unknown command: ");
                s.append(c.as_str());
                s
            },
            ParseError::BadCommand(c) => {
                let mut s = String::from_str("Bad command: ");
                s.append(c.as_str());
                s
            },
        }
    }
}

/// A message tag: a key with an optional value.
#[derive(Debug)]
pub struct Tag {
    pub key: String,
    pub value: Option<String>,
}

/// The model of a tag.
pub struct TagView {
    pub key: Seq<char>,
    pub value: Option<Seq<char>>,
}

impl View for Tag {
    type V = TagView;

    open spec fn view(&self) -> TagView {
        TagView { key: self.key@, value: opt_view(self.value) }
    }
}

/// The text of a tag: `key=value`, or `key` alone when it has no value.
pub open spec fn tag_text(t: TagView) -> Seq<char> {
    match t.value {
        Some(v) => t.key + "="@ + v,
        None => t.key,
    }
}

/// A tag is read from `key=value`, split at the first `=`; an empty value
/// is no value, and text without `=` is refused.
pub open spec fn parse_tag(s: Seq<char>) -> Result<TagView, ParseErrorView> {
    match split_once(s, '=') {
        Some((k, v)) => Ok(TagView { key: k, value: non_empty(v) }),
        None => Err(ParseErrorView::BadFormat),
    }
}

impl Tag {
    /// The text of the tag.
    pub fn to_string(&self) -> (res: String)
        ensures
            res@ == tag_text(self@),
    {
        let mut s = self.key.clone();
        match &self.value {
            Some(v) => {
                s.append("=");
                s.append(v.as_str());
            },
            None => {},
        }
        s
    }

    /// Reads a tag from its text.
    pub fn try_from(value: String) -> (res: Result<Tag, ParseError>)
        ensures
            view_result(res) == parse_tag(value@),
    {
        match split_once_char(value.as_str(), '=') {
            Some((key, val)) => Ok(Tag { key: String::from_str(key), value: non_empty_string(val) }),
            None => Err(ParseError::BadFormat),
        }
    }
}

/// The source of a message: a name, with an optional user and host.
#[derive(Debug)]
pub struct Source {
    pub name: String,
    pub user: Option<String>,
    pub host: Option<String>,
}

/// The model of a source.
pub struct SourceView {
    pub name: Seq<char>,
    pub user: Option<Seq<char>>,
    pub host: Option<Seq<char>>,
}

impl View for Source {
    type V = SourceView;

    open spec fn view(&self) -> SourceView {
        SourceView { name: self.name@, user: opt_view(self.user), host: opt_view(self.host) }
    }
}

/// The text of a source: the name, the user and the host, one after the
/// other with nothing between them.
pub open spec fn source_text(s: SourceView) -> Seq<char> {
    s.name + opt_text(s.user) + opt_text(s.host)
}

/// A source is read from `name!user@host`: the host follows the first
/// `@`, the user follows the first `!` before it; both separators are
/// required, and an empty user or host is none.
pub open spec fn parse_source(s: Seq<char>) -> Result<SourceView, ParseErrorView> {
    match split_once(s, '@') {
        Some((rest, host)) => match split_once(rest, '!') {
            Some((name, user)) => Ok(
                SourceView { name: name, user: non_empty(user), host: non_empty(host) },
            ),
            None => Err(ParseErrorView::BadFormat),
        },
        None => Err(ParseErrorView::BadFormat),
    }
}

impl Source {
    /// The text of the source.
    pub fn to_string(&self) -> (res: String)
        ensures
            res@ == source_text(self@),
    {
        let mut s = self.name.clone();
        if let Some(user) = &self.user {
            s.append(user.as_str());
        }
        if let Some(host) = &self.host {
            s.append(host.as_str());
        }
        assert(s@ =~= source_text(self@));
        s
    }

    /// Reads a source from its text.
    pub fn try_from(value: String) -> (res: Result<Source, ParseError>)
        ensures
            view_result(res) == parse_source(value@),
    {
        match split_once_char(value.as_str(), '@') {
            Some((rest, host)) => match split_once_char(rest, '!') {
                Some((name, user)) => Ok(
                    Source {
                        name: String::from_str(name),
                        user: non_empty_string(user),
                        host: non_empty_string(host),
                    },
                ),
                None => Err(ParseError::BadFormat),
            },
            None => Err(ParseError::BadFormat),
        }
    }
}


/// The command of a message.
#[derive(Debug)]
pub enum Command {
    Join(Join),
    Nick(Nick),
    PrivMsg(PrivMsg),
    User(User),
}

/// The model of a command.
pub enum CommandView {
    Join(JoinView),
    Nick(NickView),
    PrivMsg(PrivMsgView),
    User(UserView),
}

impl View for Command {
    type V = CommandView;

    open spec fn view(&self) -> CommandView {
        match self {
            Command::Join(j) => CommandView::Join(j@),
            Command::Nick(n) => CommandView::Nick(n@),
            Command::PrivMsg(p) => CommandView::PrivMsg(p@),
            Command::User(u) => CommandView::User(u@),
        }
    }
}

/// The text of a command.
pub open spec fn command_text(c: CommandView) -> Seq<char> {
    match c {
        CommandView::Join(j) => join_text(j),
        CommandView::Nick(n) => nick_text(n),
        CommandView::PrivMsg(p) => privmsg_text(p),
        CommandView::User(u) => user_text(u),
    }
}

/// A command is read from its name and its parameters, split at the first
/// space (text without a space is refused); `JOIN`, `NICK`, `PRIVMSG` and
/// `USER` read their parameters, and any other name is refused as unknown.
pub open spec fn parse_command(s: Seq<char>) -> Result<CommandView, ParseErrorView> {
    match split_once(s, ' ') {
        None => Err(ParseErrorView::BadFormat),
        Some((name, params)) => if name == "JOIN"@ {
            match parse_join(params) {
                Ok(j) => Ok(CommandView::Join(j)),
                Err(e) => Err(e),
            }
        } else if name == "NICK"@ {
            match parse_nick(params) {
                Ok(n) => Ok(CommandView::Nick(n)),
                Err(e) => Err(e),
            }
        } else if name == "PRIVMSG"@ {
            match parse_privmsg(params) {
                Ok(p) => Ok(CommandView::PrivMsg(p)),
                Err(e) => Err(e),
            }
        } else if name == "USER"@ {
            match parse_user(params) {
                Ok(u) => Ok(CommandView::User(u)),
                Err(e) => Err(e),
            }
        } else {
            Err(ParseErrorView::UnknownCommand(name))
        },
    }
}

impl Command {
    /// The text of the command.
    pub fn to_string(&self) -> (res: String)
        ensures
            res@ == command_text(self@),
    {
        match self {
            Command::Join(j) => j.to_string(),
            Command::Nick(n) => n.to_string(),
            Command::PrivMsg(p) => p.to_string(),
            Command::User(u) => u.to_string(),
        }
    }

    /// Reads a command from its text.
    pub fn try_from(value: String) -> (res: Result<Command, ParseError>)
        ensures
            view_result(res) == parse_command(value@),
    {
        match split_once_char(value.as_str(), ' ') {
            None => Err(ParseError::BadFormat),
            Some((name, params)) => {
                if str_eq(name, "JOIN") {
                    match Join::try_from(&String::from_str(params)) {
                        Ok(j) => Ok(Command::Join(j)),
                        Err(e) => Err(e),
                    }
                } else if str_eq(name, "NICK") {
                    match Nick::try_from(String::from_str(params)) {
                        Ok(n) => Ok(Command::Nick(n)),
                        Err(e) => Err(e),
                    }
                } else if str_eq(name, "PRIVMSG") {
                    match PrivMsg::try_from(params) {
                        Ok(p) => Ok(Command::PrivMsg(p)),
                        Err(e) => Err(e),
                    }
                } else if str_eq(name, "USER") {
                    match User::try_from(params) {
                        Ok(u) => Ok(Command::User(u)),
                        Err(e) => Err(e),
                    }
                } else {
                    Err(ParseError::UnknownCommand(String::from_str(name)))
                }
            },
        }
    }
}

/// A message: tags, an optional source, and a command.
#[derive(Debug)]
pub struct Message {
    pub tags: Vec<Tag>,
    pub source: Option<Source>,
    pub command: Command,
}

/// The model of a message.
pub struct MessageView {
    pub tags: Seq<TagView>,
    pub source: Option<SourceView>,
    pub command: CommandView,
}

/// The models of a sequence of tags.
pub open spec fn tags_view(tags: Seq<Tag>) -> Seq<TagView> {
    tags.map_values(|t: Tag| t@)
}

/// The model of an optional source.
pub open spec fn source_view(s: Option<Source>) -> Option<SourceView> {
    match s {
        Some(s) => Some(s@),
        None => None,
    }
}

impl View for Message {
    type V = MessageView;

    open spec fn view(&self) -> MessageView {
        MessageView {
            tags: tags_view(self.tags@),
            source: source_view(self.source),
            command: self.command@,
        }
    }
}

/// The texts of the tags.
pub open spec fn tag_texts(tags: Seq<TagView>) -> Seq<Seq<char>> {
    tags.map_values(|t: TagView| tag_text(t))
}

/// The text of a message, as sent on the wire: `@` and the tags joined by
/// semicolons, followed by a space, when there are tags; `:` and the
/// source followed by a space, when there is a source; the command; and
/// the line end `\r\n`.
pub open spec fn message_text(m: MessageView) -> Seq<char> {
    (if m.tags.len() == 0 {
        seq![]
    } else {
        "@"@ + join(tag_texts(m.tags), ";"@) + " "@
    }) + (match m.source {
        Some(s) => ":"@ + source_text(s) + " "@,
        None => seq![],
    }) + command_text(m.command) + "\r\n"@
}

/// The tags read from their texts, in order; the first text that is no
/// tag is refused.
pub open spec fn parse_tags(parts: Seq<Seq<char>>) -> Result<Seq<TagView>, ParseErrorView>
    decreases parts.len(),
{
    if parts.len() == 0 {
        Ok(seq![])
    } else {
        match parse_tags(parts.drop_last()) {
            Err(e) => Err(e),
            Ok(tags) => match parse_tag(parts.last()) {
                Ok(t) => Ok(tags.push(t)),
                Err(e) => Err(e),
            },
        }
    }
}

/// The tags of a message from the text after its `@`, split at semicolons;
/// no tags when there is no such text.
pub open spec fn parse_tag_list(t: Option<Seq<char>>) -> Result<Seq<TagView>, ParseErrorView> {
    match t {
        Some(t) => parse_tags(split(t, ';')),
        None => Ok(seq![]),
    }
}

/// The rest of a message once its tags text, if any, has been taken: the
/// source, when the rest starts with `:`, is read from what lies between
/// the `:` and the first space (no space is refused), before the tags are
/// read; then the command is read from what remains.
pub open spec fn parse_after_tags(tags: Option<Seq<char>>, v: Seq<char>) -> Result<
    MessageView,
    ParseErrorView,
> {
    if v.len() > 0 && v[0] == ':' {
        match split_once(v, ' ') {
            None => Err(ParseErrorView::BadFormat),
            Some((src, rest)) => match parse_source(src.drop_first()) {
                Err(e) => Err(e),
                Ok(source) => parse_body(tags, Some(source), rest),
            },
        }
    } else {
        parse_body(tags, None, v)
    }
}

/// The tags, then the command, of a message whose source is known.
pub open spec fn parse_body(
    tags: Option<Seq<char>>,
    source: Option<SourceView>,
    v: Seq<char>,
) -> Result<MessageView, ParseErrorView> {
    match parse_tag_list(tags) {
        Err(e) => Err(e),
        Ok(ts) => match parse_command(v) {
            Err(e) => Err(e),
            Ok(c) => Ok(MessageView { tags: ts, source, command: c }),
        },
    }
}

/// A message is read from a line with its surrounding white space trimmed:
/// a line that starts with `@` has its tags between the `@` and the first
/// space (no space is refused); the rest is read by `parse_after_tags`.
pub open spec fn parse_message(s: Seq<char>) -> Result<MessageView, ParseErrorView> {
    let v = trim(s);
    if v.len() > 0 && v[0] == '@' {
        match split_once(v, ' ') {
            None => Err(ParseErrorView::BadFormat),
            Some((t, rest)) => parse_after_tags(Some(t.drop_first()), rest),
        }
    } else {
        parse_after_tags(None, v)
    }
}

impl Message {
    /// A message with the given command, no tags and no source.
    pub fn new(cmd: Command) -> (res: Message)
        ensures
            res@ == (MessageView { tags: seq![], source: None, command: cmd@ }),
    {
        let res = Message { tags: Vec::new(), source: None, command: cmd };
        assert(res@.tags =~= Seq::<TagView>::empty());
        res
    }

    /// A message holding a `JOIN`, with no tags and no source.
    pub fn from_join(value: Join) -> (res: Message)
        ensures
            res@ == (MessageView { tags: seq![], source: None, command: CommandView::Join(value@) }),
    {
        Message::new(Command::Join(value))
    }

    /// A message holding a `NICK`, with no tags and no source.
    pub fn from_nick(value: Nick) -> (res: Message)
        ensures
            res@ == (MessageView { tags: seq![], source: None, command: CommandView::Nick(value@) }),
    {
        Message::new(Command::Nick(value))
    }

    /// A message holding a `PRIVMSG`, with no tags and no source.
    pub fn from_privmsg(value: PrivMsg) -> (res: Message)
        ensures
            res@ == (MessageView {
                tags: seq![],
                source: None,
                command: CommandView::PrivMsg(value@),
            }),
    {
        Message::new(Command::PrivMsg(value))
    }

    /// A message holding a `USER`, with no tags and no source.
    pub fn from_user(value: User) -> (res: Message)
        ensures
            res@ == (MessageView { tags: seq![], source: None, command: CommandView::User(value@) }),
    {
        Message::new(Command::User(value))
    }

    /// The message with `tags` added after its own tags.
    pub fn with_tags(self, tags: Vec<Tag>) -> (res: Message)
        ensures
            res@ == (MessageView { tags: self@.tags + tags_view(tags@), ..self@ }),
    {
        let mut m = self;
        let mut tags = tags;
        let ghost old_tags = m.tags@;
        let ghost added = tags@;
        m.tags.append(&mut tags);
        assert(tags_view(m.tags@) =~= tags_view(old_tags) + tags_view(added));
        m
    }

    /// The message with `tag` added after its own tags.
    pub fn with_tag(self, tag: Tag) -> (res: Message)
        ensures
            res@ == (MessageView { tags: self@.tags.push(tag@), ..self@ }),
    {
        let mut m = self;
        let ghost old_tags = m.tags@;
        m.tags.push(tag);
        assert(tags_view(m.tags@) =~= tags_view(old_tags).push(tag@));
        m
    }

    /// The message with `source` as its source.
    pub fn with_source(self, source: Source) -> (res: Message)
        ensures
            res@ == (MessageView { source: Some(source@), ..self@ }),
    {
        let mut m = self;
        m.source = Some(source);
        m
    }

    /// The text of the message, as sent on the wire.
    pub fn to_string(&self) -> (res: String)
        ensures
            res@ == message_text(self@),
    {
        let mut s = String::new();
        let n = self.tags.len();
        if n != 0 {
            let mut texts: Vec<String> = Vec::new();
            let mut i: usize = 0;
            while i < n
                invariant
                    n == self.tags@.len(),
                    0 <= i <= n,
                    strings_view(texts@) =~= tag_texts(tags_view(self.tags@.take(i as int))),
                decreases n - i,
            {
                let t = self.tags[i].to_string();
                proof {
                    assert(self.tags@.take(i + 1) =~= self.tags@.take(i as int).push(self.tags@[i as int]));
                    assert(strings_view(texts@.push(t)) =~= strings_view(texts@).push(t@));
                }
                texts.push(t);
                i = i + 1;
            }
            assert(self.tags@.take(n as int) =~= self.tags@);
            s.append("@");
            s.append(join_strs(&texts, ";").as_str());
            s.append(" ");
        }
        if let Some(source) = &self.source {
            s.append(":");
            s.append(source.to_string().as_str());
            s.append(" ");
        }
        s.append(self.command.to_string().as_str());
        s.append("\r\n");
        assert(s@ =~= message_text(self@));
        s
    }

    /// Reads the tags of a message from the text after its `@`.
    fn read_tags(t: &str) -> (res: Result<Vec<Tag>, ParseError>)
        ensures
            match res {
                Ok(tags) => parse_tags(split(t@, ';')) == Ok::<_, ParseErrorView>(tags_view(tags@)),
                Err(e) => parse_tags(split(t@, ';')) == Err::<Seq<TagView>, _>(e@),
            },
    {
        let parts = split_char(t, ';');
        let n = parts.len();
        let mut tags: Vec<Tag> = Vec::new();
        let mut i: usize = 0;
        assert(strings_view(parts@).take(0) =~= Seq::<Seq<char>>::empty());
        assert(tags_view(tags@) =~= Seq::<TagView>::empty());
        while i < n
            invariant
                n == parts@.len(),
                strings_view(parts@) == split(t@, ';'),
                0 <= i <= n,
                parse_tags(strings_view(parts@).take(i as int)) == Ok::<_, ParseErrorView>(
                    tags_view(tags@),
                ),
            decreases n - i,
        {
            let r = Tag::try_from(parts[i].clone());
            proof {
                let p = strings_view(parts@);
                assert(p.take(i + 1).drop_last() =~= p.take(i as int));
                assert(p.take(i + 1).last() == parts@[i as int]@);
            }
            match r {
                Ok(tag) => {
                    proof {
                        assert(tags_view(tags@.push(tag)) =~= tags_view(tags@).push(tag@));
                    }
                    tags.push(tag);
                },
                Err(e) => {
                    proof {
                        let p = strings_view(parts@);
                        let k = n as int;
                        assert(p.take(k) =~= p);
                        lemma_parse_tags_error_stays(p, i + 1);
                    }
                    return Err(e);
                },
            }
            i = i + 1;
        }
        assert(strings_view(parts@).take(n as int) =~= strings_view(parts@));
        Ok(tags)
    }

    /// Reads a message from a line.
    pub fn try_from(value: String) -> (res: Result<Message, ParseError>)
        ensures
            view_result(res) == parse_message(value@),
    {
        let v = trim_str(value.as_str());
        let (tags_text, rest): (Option<&str>, &str) = if starts_with_char(v, '@') {
            match split_once_char(v, ' ') {
                Some((t, rest)) => {
                    proof {
                        crate::text::lemma_index_of(v@, ' ');
                    }
                    (Some(drop_first_char(t)), rest)
                },
                None => {
                    return Err(ParseError::BadFormat);
                },
            }
        } else {
            (None, v)
        };
        let ghost tags_model: Option<Seq<char>> = match tags_text {
            Some(t) => Some(t@),
            None => None,
        };
        assert(parse_message(value@) == parse_after_tags(tags_model, rest@));
        let (source, body): (Option<Source>, &str) = if starts_with_char(rest, ':') {
            match split_once_char(rest, ' ') {
                Some((src, body)) => {
                    proof {
                        crate::text::lemma_index_of(rest@, ' ');
                    }
                    match Source::try_from(String::from_str(drop_first_char(src))) {
                        Ok(source) => (Some(source), body),
                        Err(e) => {
                            return Err(e);
                        },
                    }
                },
                None => {
                    return Err(ParseError::BadFormat);
                },
            }
        } else {
            (None, rest)
        };
        assert(parse_message(value@) == parse_body(tags_model, source_view(source), body@));
        let tags = match tags_text {
            Some(t) => match Message::read_tags(t) {
                Ok(tags) => tags,
                Err(e) => {
                    return Err(e);
                },
            },
            None => {
                let tags: Vec<Tag> = Vec::new();
                assert(tags_view(tags@) =~= Seq::<TagView>::empty());
                tags
            },
        };
        let cmd = match Command::try_from(String::from_str(body)) {
            Ok(cmd) => cmd,
            Err(e) => {
                return Err(e);
            },
        };
        let mut msg = Message::new(cmd).with_tags(tags);
        if let Some(source) = source {
            msg = msg.with_source(source);
        }
        Ok(msg)
    }
}

/// The message that holds `c`, with no tags and no source. A `Message`
/// holds a `Vec`, which no spec expression builds, so the message is named
/// by its model.
pub open spec fn message_of(c: CommandView) -> Message {
    choose|m: Message| m@ == (MessageView { tags: seq![], source: None, command: c })
}

impl From<Join> for Message {
    /// A message holding a `JOIN`, with no tags and no source.
    fn from(value: Join) -> (res: Message)
        ensures
            res@ == (MessageView { tags: seq![], source: None, command: CommandView::Join(value@) }),
    {
        Message::from_join(value)
    }
}

impl vstd::std_specs::convert::FromSpecImpl<Join> for Message {
    /// The equality that `From::from` would promise cannot be stated of a
    /// value holding a `Vec`; `from` states the result's model instead.
    open spec fn obeys_from_spec() -> bool {
        false
    }

    open spec fn from_spec(v: Join) -> Message {
        message_of(CommandView::Join(v@))
    }
}

impl From<Nick> for Message {
    /// A message holding a `NICK`, with no tags and no source.
    fn from(value: Nick) -> (res: Message)
        ensures
            res@ == (MessageView { tags: seq![], source: None, command: CommandView::Nick(value@) }),
    {
        Message::from_nick(value)
    }
}

impl vstd::std_specs::convert::FromSpecImpl<Nick> for Message {
    /// The equality that `From::from` would promise cannot be stated of a
    /// value holding a `Vec`; `from` states the result's model instead.
    open spec fn obeys_from_spec() -> bool {
        false
    }

    open spec fn from_spec(v: Nick) -> Message {
        message_of(CommandView::Nick(v@))
    }
}

impl From<PrivMsg> for Message {
    /// A message holding a `PRIVMSG`, with no tags and no source.
    fn from(value: PrivMsg) -> (res: Message)
        ensures
            res@ == (MessageView {
                tags: seq![],
                source: None,
                command: CommandView::PrivMsg(value@),
            }),
    {
        Message::from_privmsg(value)
    }
}

impl vstd::std_specs::convert::FromSpecImpl<PrivMsg> for Message {
    /// The equality that `From::from` would promise cannot be stated of a
    /// value holding a `Vec`; `from` states the result's model instead.
    open spec fn obeys_from_spec() -> bool {
        false
    }

    open spec fn from_spec(v: PrivMsg) -> Message {
        message_of(CommandView::PrivMsg(v@))
    }
}

impl From<User> for Message {
    /// A message holding a `USER`, with no tags and no source.
    fn from(value: User) -> (res: Message)
        ensures
            res@ == (MessageView { tags: seq![], source: None, command: CommandView::User(value@) }),
    {
        Message::from_user(value)
    }
}

impl vstd::std_specs::convert::FromSpecImpl<User> for Message {
    /// The equality that `From::from` would promise cannot be stated of a
    /// value holding a `Vec`; `from` states the result's model instead.
    open spec fn obeys_from_spec() -> bool {
        false
    }

    open spec fn from_spec(v: User) -> Message {
        message_of(CommandView::User(v@))
    }
}

/// Once the tags of a prefix are refused, so are the tags of the whole.
proof fn lemma_parse_tags_error_stays(parts: Seq<Seq<char>>, i: int)
    requires
        0 <= i <= parts.len(),
        parse_tags(parts.take(i)) is Err,
    ensures
        parse_tags(parts) == parse_tags(parts.take(i)),
    decreases parts.len() - i,
{
    if i < parts.len() {
        assert(parts.take(i + 1).drop_last() =~= parts.take(i));
        lemma_parse_tags_error_stays(parts, i + 1);
    } else {
        assert(parts.take(i) =~= parts);
    }
}

} // verus!
