use zirconium::app::{registration_messages, AppError, Channel, ChannelMessage};
use zirconium::framing::{ConnectionError, MessageBuffer, ReadStep};
use zirconium::message::{Command, Source};

#[test]
fn one_line_is_taken_off() {
    let mut buf = MessageBuffer::new();
    assert!(buf.is_empty());
    buf.extend_from_slice(b"NICK a\r\nJOIN");
    assert_eq!(buf.parse_message().unwrap(), Some("NICK a\r\n".to_string()));
    assert_eq!(buf.parse_message().unwrap(), None);
    assert!(!buf.is_empty());
    assert!(matches!(buf.end_of_stream(), Err(ConnectionError::ConnectionReset)));
    buf.extend_from_slice(b" #x\r\n");
    assert_eq!(buf.parse_message().unwrap(), Some("JOIN #x\r\n".to_string()));
    assert!(buf.is_empty());
    assert!(matches!(buf.end_of_stream(), Ok(None)));
}

#[test]
fn lone_carriage_return_waits() {
    let mut buf = MessageBuffer::new();
    buf.extend_from_slice(b"abc\r");
    assert_eq!(buf.parse_message().unwrap(), None);
    buf.extend_from_slice(b"\n");
    assert_eq!(buf.parse_message().unwrap(), Some("abc\r\n".to_string()));
}

#[test]
fn carriage_return_skips_the_next_byte() {
    let mut buf = MessageBuffer::new();
    buf.extend_from_slice(b"a\r\r\nb");
    assert_eq!(buf.parse_message().unwrap(), None);
    buf.extend_from_slice(b"\r\n");
    assert_eq!(buf.parse_message().unwrap(), Some("a\r\r\nb\r\n".to_string()));
}

#[test]
fn invalid_utf8_line_is_dropped_with_an_error() {
    let mut buf = MessageBuffer::new();
    buf.extend_from_slice(b"\xff\r\nok\r\n");
    assert!(matches!(buf.parse_message(), Err(ConnectionError::InvalidUtf8)));
    assert_eq!(buf.parse_message().unwrap(), Some("ok\r\n".to_string()));
}

#[test]
fn utf8_line_is_decoded() {
    let mut buf = MessageBuffer::new();
    buf.extend_from_slice("PRIVMSG #é :ünï\r\n".as_bytes());
    assert_eq!(buf.parse_message().unwrap(), Some("PRIVMSG #é :ünï\r\n".to_string()));
}

#[test]
fn poll_messages() {
    let mut buf = MessageBuffer::new();
    assert!(matches!(buf.poll_message(), Ok(ReadStep::NeedMore)));
    buf.extend_from_slice(b"NICK bob\r\nFOO x\r\n");
    match buf.poll_message().unwrap() {
        ReadStep::Ready(Some(m)) => assert!(matches!(m.command, Command::Nick(_))),
        _ => panic!("expected a message"),
    }
    assert!(matches!(buf.poll_message(), Ok(ReadStep::Ready(None))));
    assert!(matches!(buf.poll_message(), Ok(ReadStep::NeedMore)));
}

#[test]
fn written_message_is_read_back() {
    let (nick, _) = registration_messages("alice");
    let mut buf = MessageBuffer::new();
    buf.extend_from_slice(nick.to_string().as_bytes());
    match buf.poll_message().unwrap() {
        ReadStep::Ready(Some(m)) => assert_eq!(m.to_string(), "NICK alice\r\n"),
        _ => panic!("expected a message"),
    }
    assert!(buf.is_empty());
}

#[test]
fn registration() {
    let (nick, user) = registration_messages("test-user");
    assert_eq!(nick.to_string(), "NICK test-user\r\n");
    assert_eq!(user.to_string(), "USER test-user 0 * test-user\r\n");
}

#[test]
fn app_error_text() {
    let e = AppError::RegisterError("localhost:6667".to_string());
    assert_eq!(e.to_string(), "Failed to register to server on address localhost:6667");
}

#[test]
fn channels_hold_messages() {
    let c = Channel {
        name: "#rust".to_string(),
        messages: vec![ChannelMessage {
            source: Source { name: "n".to_string(), user: None, host: None },
            data: "hi".to_string(),
        }],
    };
    assert_eq!(c.messages.len(), 1);
    assert_eq!(c.messages[0].data, "hi");
}
