use zirconium::framing::MessageBuffer;
use zirconium::message::{Command, Join, JoinParams, Message, Nick, PrivMsg, Tag, User};

fn s(x: &str) -> String {
    x.to_string()
}

#[test]
fn tag_text_reads_back() {
    let t = Tag { key: s("time"), value: Some(s("a=b")) };
    let back = Tag::try_from(t.to_string()).unwrap();
    assert_eq!(back.key, "time");
    assert_eq!(back.value.as_deref(), Some("a=b"));
}

#[test]
fn nick_text_reads_back() {
    let c = Command::Nick(Nick { nickname: s("alice") });
    match Command::try_from(c.to_string()).unwrap() {
        Command::Nick(n) => assert_eq!(n.nickname, "alice"),
        _ => panic!("expected NICK"),
    }
}

#[test]
fn privmsg_text_reads_back() {
    let c = Command::PrivMsg(PrivMsg { targets: vec![s("#a"), s("bob")], payload: s(":hi there ") });
    match Command::try_from(c.to_string()).unwrap() {
        Command::PrivMsg(p) => {
            assert_eq!(p.targets, vec![s("#a"), s("bob")]);
            assert_eq!(p.payload, ":hi there ");
        }
        _ => panic!("expected PRIVMSG"),
    }
}

#[test]
fn join_text_reads_back() {
    let c = Command::Join(Join {
        params: JoinParams::Channels { channels: vec![s("#a"), s("#b")], keys: vec![s("k 1"), s("")] },
    });
    match Command::try_from(c.to_string()).unwrap() {
        Command::Join(Join { params: JoinParams::Channels { channels, keys } }) => {
            assert_eq!(channels, vec![s("#a"), s("#b")]);
            assert_eq!(keys, vec![s("k 1"), s("")]);
        }
        _ => panic!("expected JOIN with channels"),
    }
}

#[test]
fn lone_zero_channel_reads_as_leave() {
    let c = Command::Join(Join { params: JoinParams::Channels { channels: vec![s("0")], keys: vec![] } });
    assert!(matches!(
        Command::try_from(c.to_string()).unwrap(),
        Command::Join(Join { params: JoinParams::Leave })
    ));
}

#[test]
fn later_bytes_do_not_change_the_first_line() {
    let mut a = MessageBuffer::new();
    a.extend_from_slice(b"NICK a\r\n");
    a.extend_from_slice(b"\r\nJOIN #x\r");
    assert_eq!(a.parse_message().unwrap(), Some(s("NICK a\r\n")));
}

#[test]
fn user_message_reads_back() {
    let m = Message::from(User { username: s("guest"), realname: s("Real") })
        .with_tag(Tag { key: s("k"), value: Some(s("v")) });
    let text = m.to_string();
    assert_eq!(text, "@k=v USER guest 0 * Real\r\n");
    let back = Message::try_from(text).unwrap();
    assert_eq!(back.tags.len(), 1);
    assert!(back.source.is_none());
    match back.command {
        Command::User(u) => {
            assert_eq!(u.username, "guest");
            assert_eq!(u.realname, "Real");
        }
        _ => panic!("expected USER"),
    }
}

#[test]
fn from_impls_build_plain_messages() {
    let j: Message = Join { params: JoinParams::Leave }.into();
    assert_eq!(j.to_string(), "JOIN 0\r\n");
    assert_eq!(Message::from(Nick { nickname: s("n") }).to_string(), "NICK n\r\n");
    let p = Message::from(PrivMsg { targets: vec![s("t")], payload: s("x") });
    assert_eq!(p.to_string(), "PRIVMSG t :x\r\n");
    let u = Message::from(User { username: s("u"), realname: s("r") });
    assert!(u.tags.is_empty() && u.source.is_none());
}
