use zirconium::message::{
    Command, Join, JoinParams, Message, Nick, Numeric, ParseError, PrivMsg, Source, Tag, User,
};

fn s(x: &str) -> String {
    x.to_string()
}

#[test]
fn tag_with_value() {
    let t = Tag::try_from(s("key=value")).unwrap();
    assert_eq!(t.key, "key");
    assert_eq!(t.value.as_deref(), Some("value"));
    assert_eq!(t.to_string(), "key=value");
}

#[test]
fn tag_value_may_hold_equals() {
    let t = Tag::try_from(s("k=a=b")).unwrap();
    assert_eq!(t.key, "k");
    assert_eq!(t.value.as_deref(), Some("a=b"));
}

#[test]
fn tag_empty_value_is_none() {
    let t = Tag::try_from(s("key=")).unwrap();
    assert_eq!(t.key, "key");
    assert!(t.value.is_none());
    assert_eq!(t.to_string(), "key");
}

#[test]
fn tag_without_equals_is_refused() {
    assert!(matches!(Tag::try_from(s("key")), Err(ParseError::BadFormat)));
}

#[test]
fn source_full() {
    let src = Source::try_from(s("nick!user@host")).unwrap();
    assert_eq!(src.name, "nick");
    assert_eq!(src.user.as_deref(), Some("user"));
    assert_eq!(src.host.as_deref(), Some("host"));
    assert_eq!(src.to_string(), "nickuserhost");
}

#[test]
fn source_empty_user_and_host() {
    let src = Source::try_from(s("nick!@")).unwrap();
    assert_eq!(src.name, "nick");
    assert!(src.user.is_none());
    assert!(src.host.is_none());
    assert_eq!(src.to_string(), "nick");
}

#[test]
fn source_needs_both_separators() {
    assert!(matches!(Source::try_from(s("nick@host")), Err(ParseError::BadFormat)));
    assert!(matches!(Source::try_from(s("nick!user")), Err(ParseError::BadFormat)));
}

#[test]
fn parse_error_texts() {
    assert_eq!(ParseError::BadFormat.to_string(), "Bad format");
    assert_eq!(ParseError::UnknownCommand(s("FOO")).to_string(), "Unknown command: FOO");
    assert_eq!(ParseError::BadCommand(s("x y")).to_string(), "Bad command: x y");
}

#[test]
fn join_leave() {
    let j = Join::try_from(&s("0")).unwrap();
    assert!(matches!(j.params, JoinParams::Leave));
    assert_eq!(j.to_string(), "JOIN 0");
}

#[test]
fn join_channels_without_keys() {
    let j = Join::try_from(&s("#a,#b")).unwrap();
    match &j.params {
        JoinParams::Channels { channels, keys } => {
            assert_eq!(channels, &vec![s("#a"), s("#b")]);
            assert!(keys.is_empty());
        }
        JoinParams::Leave => panic!("expected channels"),
    }
    assert_eq!(j.to_string(), "JOIN #a,#b");
}

#[test]
fn join_channels_with_keys() {
    let j = Join::try_from(&s("#a,#b k1,k2")).unwrap();
    match &j.params {
        JoinParams::Channels { channels, keys } => {
            assert_eq!(channels, &vec![s("#a"), s("#b")]);
            assert_eq!(keys, &vec![s("k1"), s("k2")]);
        }
        JoinParams::Leave => panic!("expected channels"),
    }
    assert_eq!(j.to_string(), "JOIN #a,#b k1,k2");
}

#[test]
fn join_key_count_must_match() {
    assert!(matches!(Join::try_from(&s("#a,#b k1")), Err(ParseError::BadFormat)));
}

#[test]
fn join_empty_is_one_empty_channel() {
    let j = Join::try_from(&s("")).unwrap();
    match &j.params {
        JoinParams::Channels { channels, keys } => {
            assert_eq!(channels, &vec![s("")]);
            assert!(keys.is_empty());
        }
        JoinParams::Leave => panic!("expected channels"),
    }
}

#[test]
fn nick_valid_and_invalid() {
    let n = Nick::try_from(s("alice")).unwrap();
    assert_eq!(n.nickname, "alice");
    assert_eq!(n.to_string(), "NICK alice");
    assert!(matches!(Nick::try_from(s("")), Err(ParseError::BadCommand(v)) if v.is_empty()));
    assert!(matches!(Nick::try_from(s("a b")), Err(ParseError::BadCommand(v)) if v == "a b"));
}

#[test]
fn privmsg_with_colon_payload() {
    let p = PrivMsg::try_from("#a,#b :hello world").unwrap();
    assert_eq!(p.targets, vec![s("#a"), s("#b")]);
    assert_eq!(p.payload, "hello world");
    assert_eq!(p.to_string(), "PRIVMSG #a,#b :hello world");
}

#[test]
fn privmsg_payload_without_colon() {
    let p = PrivMsg::try_from("bob hi").unwrap();
    assert_eq!(p.targets, vec![s("bob")]);
    assert_eq!(p.payload, "hi");
}

#[test]
fn privmsg_only_one_colon_is_dropped() {
    let p = PrivMsg::try_from("bob ::x").unwrap();
    assert_eq!(p.payload, ":x");
}

#[test]
fn privmsg_targets_alone() {
    let p = PrivMsg::try_from("#a,#b").unwrap();
    assert_eq!(p.targets, vec![s("#a"), s("#b")]);
    assert_eq!(p.payload, "");
}

#[test]
fn privmsg_empty_is_refused() {
    assert!(matches!(
        PrivMsg::try_from(""),
        Err(ParseError::BadCommand(m)) if m == "received empty payload"
    ));
}

#[test]
fn user_parse_and_text() {
    let u = User::try_from("guest 0 * Real").unwrap();
    assert_eq!(u.username, "guest");
    assert_eq!(u.realname, "Real");
    assert_eq!(u.to_string(), "USER guest 0 * Real");
}

#[test]
fn user_without_match_is_refused() {
    assert!(matches!(User::try_from("guest"), Err(ParseError::BadFormat)));
}

#[test]
fn user_from_groups() {
    let u = User::from_groups(Some(vec![Some(s("all")), Some(s("u")), Some(s("r"))])).unwrap();
    assert_eq!(u.username, "u");
    assert_eq!(u.realname, "r");
    assert!(matches!(User::from_groups(None), Err(ParseError::BadFormat)));
    assert!(matches!(
        User::from_groups(Some(vec![Some(s("all")), Some(s("u")), None])),
        Err(ParseError::BadFormat)
    ));
}

#[test]
fn command_dispatch() {
    assert!(matches!(Command::try_from(s("JOIN #x")), Ok(Command::Join(_))));
    assert!(matches!(Command::try_from(s("NICK bob")), Ok(Command::Nick(_))));
    assert!(matches!(Command::try_from(s("PRIVMSG bob :hi")), Ok(Command::PrivMsg(_))));
    assert!(matches!(Command::try_from(s("USER a 0 * b")), Ok(Command::User(_))));
    assert!(matches!(
        Command::try_from(s("PART #x")),
        Err(ParseError::UnknownCommand(c)) if c == "PART"
    ));
    assert!(matches!(Command::try_from(s("NICK")), Err(ParseError::BadFormat)));
    assert!(matches!(
        Command::try_from(s("NICK a b")),
        Err(ParseError::BadCommand(v)) if v == "a b"
    ));
}

#[test]
fn command_text() {
    let c = Command::Nick(Nick { nickname: s("bob") });
    assert_eq!(c.to_string(), "NICK bob");
}

#[test]
fn message_with_source() {
    let m = Message::try_from(s(":nick!user@host PRIVMSG #chan :hi there\r\n")).unwrap();
    assert!(m.tags.is_empty());
    let src = m.source.as_ref().unwrap();
    assert_eq!(src.name, "nick");
    assert_eq!(src.user.as_deref(), Some("user"));
    assert_eq!(src.host.as_deref(), Some("host"));
    match &m.command {
        Command::PrivMsg(p) => {
            assert_eq!(p.targets, vec![s("#chan")]);
            assert_eq!(p.payload, "hi there");
        }
        _ => panic!("expected PRIVMSG"),
    }
}

#[test]
fn message_with_tags() {
    let m = Message::try_from(s("@a=b;c= JOIN #x")).unwrap();
    assert_eq!(m.tags.len(), 2);
    assert_eq!(m.tags[0].key, "a");
    assert_eq!(m.tags[0].value.as_deref(), Some("b"));
    assert_eq!(m.tags[1].key, "c");
    assert!(m.tags[1].value.is_none());
    assert!(m.source.is_none());
    assert!(matches!(m.command, Command::Join(_)));
}

#[test]
fn message_errors() {
    assert!(matches!(Message::try_from(s("@a=b")), Err(ParseError::BadFormat)));
    assert!(matches!(Message::try_from(s("@a JOIN #x")), Err(ParseError::BadFormat)));
    assert!(matches!(Message::try_from(s(":nick JOIN #x")), Err(ParseError::BadFormat)));
    assert!(matches!(Message::try_from(s(":nick!u@h")), Err(ParseError::BadFormat)));
    assert!(matches!(
        Message::try_from(s("FOO bar")),
        Err(ParseError::UnknownCommand(c)) if c == "FOO"
    ));
}

#[test]
fn message_source_error_comes_before_tag_error() {
    // The source is read before the tags, so its error is the one reported.
    assert!(matches!(Message::try_from(s("@bad :x JOIN #a")), Err(ParseError::BadFormat)));
}

#[test]
fn message_text_and_builders() {
    let m = Message::new(Command::Nick(Nick { nickname: s("bob") }))
        .with_tag(Tag { key: s("a"), value: Some(s("1")) })
        .with_tags(vec![Tag { key: s("b"), value: None }])
        .with_source(Source { name: s("n"), user: Some(s("!u")), host: Some(s("@h")) });
    assert_eq!(m.tags.len(), 2);
    assert_eq!(m.to_string(), "@a=1;b :n!u@h NICK bob\r\n");
    let plain = Message::from_nick(Nick { nickname: s("bob") });
    assert_eq!(plain.to_string(), "NICK bob\r\n");
}

#[test]
fn message_round_trip() {
    let m = Message::from_join(Join {
        params: JoinParams::Channels { channels: vec![s("#a"), s("#b")], keys: vec![] },
    })
    .with_tag(Tag { key: s("id"), value: Some(s("7")) });
    let text = m.to_string();
    assert_eq!(text, "@id=7 JOIN #a,#b\r\n");
    let back = Message::try_from(text).unwrap();
    assert_eq!(back.to_string(), m.to_string());
}

#[test]
fn message_from_constructors() {
    let p = Message::from_privmsg(PrivMsg { targets: vec![s("bob")], payload: s("yo") });
    assert_eq!(p.to_string(), "PRIVMSG bob :yo\r\n");
    let u = Message::from_user(User { username: s("u"), realname: s("r") });
    assert_eq!(u.to_string(), "USER u 0 * r\r\n");
}

#[test]
fn numeric_simple_replies() {
    assert!(matches!(
        Numeric::try_from("001 Welcome to IRC"),
        Ok(Numeric::RplWelcome { message }) if message == "Welcome to IRC"
    ));
    assert!(matches!(Numeric::try_from("002 x"), Ok(Numeric::RplYourHost { .. })));
    assert!(matches!(Numeric::try_from("003 x"), Ok(Numeric::RplCreated { .. })));
    assert!(matches!(Numeric::try_from("004 x"), Ok(Numeric::RplMyInfo { .. })));
    assert!(matches!(Numeric::try_from("005 x"), Ok(Numeric::RplISupport { .. })));
}

#[test]
fn numeric_umode() {
    let n = Numeric::try_from("221 alice +iw").unwrap();
    assert!(matches!(&n, Numeric::RplUModeIs { client, user_modes } if client == "alice" && user_modes == "+iw"));
    assert_eq!(n.to_string(), "RPL_UMODEIS alice +iw");
    assert!(matches!(
        Numeric::try_from("221 alice"),
        Err(ParseError::BadCommand(v)) if v == "221 alice"
    ));
}

#[test]
fn numeric_luser_client() {
    let n = Numeric::try_from("251 alice :There are 3 users and 1 invisible on 2 servers").unwrap();
    match &n {
        Numeric::RplLUserClient { client, users, invisible, servers } => {
            assert_eq!(client, "alice");
            assert_eq!((*users, *invisible, *servers), (3, 1, 2));
        }
        _ => panic!("expected RPL_LUSERCLIENT"),
    }
    assert_eq!(
        n.to_string(),
        "RPL_LUSERCLIENT alice :There are 3 users and 1 invisible on 2 servers"
    );
}

#[test]
fn numeric_luser_client_errors() {
    assert!(matches!(
        Numeric::try_from("251 garbage"),
        Err(ParseError::BadCommand(v)) if v == "garbage"
    ));
    assert!(matches!(
        Numeric::try_from("251 a :There are 99999999999 users and 1 invisible on 2 servers"),
        Err(ParseError::BadCommand(v)) if v == "bad_users"
    ));
    assert!(matches!(
        Numeric::try_from("251 a :There are 1 users and 99999999999 invisible on 2 servers"),
        Err(ParseError::BadCommand(v)) if v == "bad_invisible"
    ));
    assert!(matches!(
        Numeric::try_from("251 a :There are 1 users and 1 invisible on 99999999999 servers"),
        Err(ParseError::BadCommand(v)) if v == "bad_servers"
    ));
}

#[test]
fn numeric_from_groups() {
    let g = vec![Some(s("all")), Some(s("c")), Some(s("+5")), Some(s("0")), Some(s("12"))];
    let n = Numeric::luser_client_from_groups("p", Some(g)).unwrap();
    assert!(matches!(n, Numeric::RplLUserClient { users: 5, invisible: 0, servers: 12, .. }));
    assert!(matches!(
        Numeric::luser_client_from_groups("p", Some(vec![Some(s("all"))])),
        Err(ParseError::BadCommand(v)) if v == "bad_client"
    ));
    assert!(matches!(
        Numeric::luser_client_from_groups("p", None),
        Err(ParseError::BadCommand(v)) if v == "p"
    ));
}

#[test]
fn numeric_unknown_and_malformed() {
    assert!(matches!(
        Numeric::try_from("999 x"),
        Err(ParseError::UnknownCommand(v)) if v == "999 x"
    ));
    assert!(matches!(Numeric::try_from("001"), Err(ParseError::BadCommand(v)) if v == "001"));
}
