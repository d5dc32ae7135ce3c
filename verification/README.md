# zirconium

An IRC client. The library (`src/`) holds what the client computes, each
function with a contract proved by Verus:

- `text`: searching, splitting, joining and trimming character sequences;
- `number`: reading and writing `u32` in decimal;
- `message`: the IRC message grammar — tags, sources, the `JOIN`, `NICK`,
  `PRIVMSG` and `USER` commands, numeric replies — with the text each
  value is sent as and the parser that reads it;
- `pattern`: regular-expression matching through the `regex` crate;
- `framing`: cutting the received byte stream into `\r\n`-terminated lines,
  held in a `bytes::BytesMut`;
- `app`: channels, the client's errors, and the registration messages;
- `laws`: what holds across functions, chiefly that a message the library
  writes is read back as the same message — for messages without a
  source (whose text the library writes without separators), whose tags
  all have values, and whose command reads back from its own text and
  does not end in white space; `JOIN`, `NICK` and `PRIVMSG` are shown to
  read back under stated conditions, and what a `USER` reads back as is
  up to the regular expression.

The program (`app/`) connects with `tokio`, registers, and logs the
messages it receives.
