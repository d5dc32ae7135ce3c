//! What holds of the library as a whole: text that the library writes is
//! read back as what was written.

use vstd::prelude::*;

use crate::message::join::{join_text, JoinParamsView, JoinView};
use crate::message::nick::{nick_text, NickView};
use crate::message::privmsg::{privmsg_text, PrivMsgView};
use crate::message::numeric::{luser_client_from_groups, parse_numeric, NumericView};
use crate::number::{decimal, lemma_decimal};
use crate::message::privmsg::parse_privmsg;
use crate::message::{
    command_text, message_text, parse_command, parse_message, parse_source, parse_tag,
    parse_tags, source_text, tag_text, tag_texts, CommandView, MessageView, ParseErrorView,
    SourceView, TagView,
};
use crate::framing::{line_end, line_end_from, CR, LF};
use vstd::utf8::{
    decode_utf8, encode_scalar, encode_utf8, encode_utf8_decode_utf8, encode_utf8_valid_utf8,
    is_scalar, valid_utf8,
};
use crate::text::{
    index_of, is_white_space, join, lemma_index_of_absent, lemma_index_of_at, split, split_once,
    trim, trim_end, trim_start,
};

verus! {

/// No piece contains `c`.
pub open spec fn none_contains(parts: Seq<Seq<char>>, c: char) -> bool {
    forall|i: int| 0 <= i < parts.len() ==> !(#[trigger] parts[i]).contains(c)
}

/// Joined pieces hold a character only if a piece or the separator does.
pub proof fn lemma_join_avoids(parts: Seq<Seq<char>>, sep: Seq<char>, c: char)
    requires
        none_contains(parts, c),
        !sep.contains(c),
    ensures
        !join(parts, sep).contains(c),
    decreases parts.len(),
{
    if parts.len() > 1 {
        let rest = parts.drop_first();
        assert(none_contains(rest, c)) by {
            assert forall|i: int| 0 <= i < rest.len() implies !(#[trigger] rest[i]).contains(c) by {
                assert(rest[i] == parts[i + 1]);
            }
        }
        lemma_join_avoids(rest, sep, c);
        let j = join(parts, sep);
        let r = join(rest, sep);
        assert(!parts[0].contains(c));
        if j.contains(c) {
            let k = choose|k: int| 0 <= k < j.len() && j[k] == c;
            if k < parts[0].len() {
                assert(parts[0][k] == c);
            } else if k < parts[0].len() + sep.len() {
                assert(sep[k - parts[0].len()] == c);
            } else {
                assert(r[k - parts[0].len() - sep.len()] == c);
            }
        }
    } else if parts.len() == 1 {
        assert(!parts[0].contains(c));
    }
}

/// The first occurrence of `c` in `a + [c] + b`, when `a` holds no `c`, is
/// right after `a`.
pub proof fn lemma_split_once_at(a: Seq<char>, c: char, b: Seq<char>)
    requires
        !a.contains(c),
    ensures
        split_once(a + seq![c] + b, c) == Some((a, b)),
{
    let s = a + seq![c] + b;
    assert forall|j: int| 0 <= j < a.len() implies s[j] != c by {
        assert(s[j] == a[j]);
    }
    lemma_index_of_at(s, c, a.len() as int);
    assert(s.take(a.len() as int) =~= a);
    assert(s.skip(a.len() as int + 1) =~= b);
}

/// Splitting pieces joined by `c` gives the pieces back, when there is at
/// least one piece and none holds `c`.
pub proof fn law_split_join(parts: Seq<Seq<char>>, c: char)
    requires
        parts.len() > 0,
        none_contains(parts, c),
    ensures
        split(join(parts, seq![c]), c) == parts,
    decreases parts.len(),
{
    if parts.len() == 1 {
        assert(!parts[0].contains(c));
        assert forall|j: int| 0 <= j < parts[0].len() implies parts[0][j] != c by {
            if parts[0][j] == c {
                assert(parts[0].contains(c));
            }
        }
        lemma_index_of_absent(parts[0], c);
        assert(split(parts[0], c) =~= seq![parts[0]]);
        assert(seq![parts[0]] =~= parts);
    } else {
        let rest = parts.drop_first();
        assert(none_contains(rest, c)) by {
            assert forall|i: int| 0 <= i < rest.len() implies !(#[trigger] rest[i]).contains(c) by {
                assert(rest[i] == parts[i + 1]);
            }
        }
        law_split_join(rest, c);
        assert(!parts[0].contains(c));
        let r = join(rest, seq![c]);
        let s = join(parts, seq![c]);
        assert(s == parts[0] + seq![c] + r);
        lemma_split_once_at(parts[0], c, r);
        crate::text::lemma_index_of(s, c);
        assert(seq![parts[0]] + rest =~= parts);
    }
}

/// A tag with a non-empty value and a key without `=` is read back from
/// its text.
pub proof fn law_tag_round_trip(t: TagView)
    requires
        t.value matches Some(v) && v.len() > 0,
        !t.key.contains('='),
    ensures
        parse_tag(tag_text(t)) == Ok::<_, crate::message::ParseErrorView>(t),
{
    reveal_strlit("=");
    let v = t.value->0;
    assert("="@ =~= seq!['=']);
    lemma_split_once_at(t.key, '=', v);
}


/// The names of the commands, as character sequences.
proof fn lemma_command_names()
    ensures
        "JOIN"@ =~= seq!['J', 'O', 'I', 'N'],
        "NICK"@ =~= seq!['N', 'I', 'C', 'K'],
        "PRIVMSG"@ =~= seq!['P', 'R', 'I', 'V', 'M', 'S', 'G'],
        " "@ =~= seq![' '],
        ","@ =~= seq![','],
        "0"@ =~= seq!['0'],
        " 0"@ =~= seq![' ', '0'],
        "JOIN"@ != "NICK"@,
        "JOIN"@ != "PRIVMSG"@,
        "NICK"@ != "PRIVMSG"@,
        !"JOIN"@.contains(' '),
        !"NICK"@.contains(' '),
        !"PRIVMSG"@.contains(' '),
{
    reveal_strlit("JOIN");
    reveal_strlit("NICK");
    reveal_strlit("PRIVMSG");
    reveal_strlit(" ");
    reveal_strlit(",");
    reveal_strlit("0");
    reveal_strlit(" 0");
    assert("JOIN"@[0] != "NICK"@[0]);
    assert("JOIN"@.len() != "PRIVMSG"@.len());
    assert("NICK"@.len() != "PRIVMSG"@.len());
}

/// A command whose text is its name, a space and its parameters is split
/// at that space.
proof fn lemma_split_command(name: Seq<char>, params: Seq<char>)
    requires
        !name.contains(' '),
    ensures
        split_once(name + seq![' '] + params, ' ') == Some((name, params)),
{
    lemma_split_once_at(name, ' ', params);
}

/// A `NICK` whose nickname is not empty and has no space is read back
/// from its text.
pub proof fn law_nick_round_trip(n: NickView)
    requires
        n.nickname.len() > 0,
        !n.nickname.contains(' '),
    ensures
        parse_command(nick_text(n)) == Ok::<_, crate::message::ParseErrorView>(CommandView::Nick(n)),
{
    lemma_command_names();
    reveal_strlit("NICK ");
    assert("NICK "@ + n.nickname =~= "NICK"@ + seq![' '] + n.nickname);
    lemma_split_command("NICK"@, n.nickname);
}

/// A `PRIVMSG` with at least one target, and no comma or space in any
/// target, is read back from its text.
pub proof fn law_privmsg_round_trip(p: PrivMsgView)
    requires
        p.targets.len() > 0,
        none_contains(p.targets, ','),
        none_contains(p.targets, ' '),
    ensures
        parse_command(privmsg_text(p)) == Ok::<_, crate::message::ParseErrorView>(
            CommandView::PrivMsg(p),
        ),
{
    lemma_command_names();
    reveal_strlit("PRIVMSG ");
    reveal_strlit(" :");
    let t = join(p.targets, ","@);
    let params = t + seq![' '] + (seq![':'] + p.payload);
    assert(privmsg_text(p) =~= "PRIVMSG"@ + seq![' '] + params);
    lemma_split_command("PRIVMSG"@, params);
    lemma_join_avoids(p.targets, ","@, ' ');
    lemma_split_once_at(t, ' ', seq![':'] + p.payload);
    assert((seq![':'] + p.payload).drop_first() =~= p.payload);
    law_split_join(p.targets, ',');
}

/// The conditions under which a `JOIN` is read back from its text: there
/// is a channel; no channel holds a comma or a space, and no key a comma;
/// there are no keys, or as many as channels; and without keys the
/// channels are not the lone channel `0`, which reads as leaving.
pub open spec fn join_reads_back(j: JoinView) -> bool {
    match j.params {
        JoinParamsView::Leave => true,
        JoinParamsView::Channels { channels, keys } => {
            &&& channels.len() > 0
            &&& none_contains(channels, ',')
            &&& none_contains(channels, ' ')
            &&& none_contains(keys, ',')
            &&& keys.len() == 0 || keys.len() == channels.len()
            &&& keys.len() == 0 ==> channels != seq!["0"@]
        },
    }
}

/// Joined pieces differ from the lone text `0` unless they are that text.
proof fn lemma_join_not_zero(parts: Seq<Seq<char>>)
    requires
        parts.len() > 0,
        parts != seq!["0"@],
    ensures
        join(parts, ","@) != "0"@,
{
    lemma_command_names();
    if parts.len() == 1 {
        assert(parts =~= seq![parts[0]]);
    } else {
        let j = join(parts, ","@);
        assert(j == parts[0] + ","@ + join(parts.drop_first(), ","@));
        if j == "0"@ {
            assert(j.len() == 1);
            assert(j[parts[0].len() as int] == ',');
        }
    }
}

/// A `JOIN` is read back from its text under `join_reads_back`.
pub proof fn law_join_round_trip(j: JoinView)
    requires
        join_reads_back(j),
    ensures
        parse_command(join_text(j)) == Ok::<_, crate::message::ParseErrorView>(CommandView::Join(j)),
{
    lemma_command_names();
    match j.params {
        JoinParamsView::Leave => {
            assert(join_text(j) =~= "JOIN"@ + seq![' '] + "0"@);
            lemma_split_command("JOIN"@, "0"@);
            assert(crate::message::join::parse_join("0"@) == Ok::<_, crate::message::ParseErrorView>(
                JoinView { params: JoinParamsView::Leave },
            ));
            assert(j == JoinView { params: JoinParamsView::Leave });

        },
        JoinParamsView::Channels { channels, keys } => {
            let c = join(channels, ","@);
            lemma_join_avoids(channels, ","@, ' ');
            law_split_join(channels, ',');
            if keys.len() == 0 {
                assert(join_text(j) =~= "JOIN"@ + seq![' '] + c);
                lemma_split_command("JOIN"@, c);
                lemma_join_not_zero(channels);
                assert forall|i: int| 0 <= i < c.len() implies c[i] != ' ' by {
                    if c[i] == ' ' {
                        assert(c.contains(' '));
                    }
                }
                lemma_index_of_absent(c, ' ');
                assert(keys =~= Seq::<Seq<char>>::empty());
            } else {
                let k = join(keys, ","@);
                let params = c + seq![' '] + k;
                assert(join_text(j) =~= "JOIN"@ + seq![' '] + params);
                lemma_split_command("JOIN"@, params);
                lemma_split_once_at(c, ' ', k);
                law_split_join(keys, ',');
                assert(params[c.len() as int] == ' ');
                if params == "0"@ {
                    assert(params[c.len() as int] == '0');
                }
            }
        },
    }
}


/// A sequence holds a character only if one of its two parts does.
proof fn lemma_concat_avoids(a: Seq<char>, b: Seq<char>, c: char)
    requires
        !a.contains(c),
        !b.contains(c),
    ensures
        !(a + b).contains(c),
{
    if (a + b).contains(c) {
        let k = choose|k: int| 0 <= k < (a + b).len() && (a + b)[k] == c;
        if k < a.len() {
            assert(a[k] == c);
        } else {
            assert(b[k - a.len()] == c);
        }
    }
}

/// Text that does not start with white space keeps its start when trimmed.
proof fn lemma_trim_start_keeps(x: Seq<char>)
    requires
        x.len() > 0,
        !is_white_space(x[0]),
    ensures
        trim_start(x) == x,
{
}

/// Trimming the end drops trailing white space up to a character that is
/// not white space.
proof fn lemma_trim_end_drops(x: Seq<char>, w: Seq<char>)
    requires
        x.len() > 0,
        !is_white_space(x.last()),
        forall|i: int| 0 <= i < w.len() ==> is_white_space(#[trigger] w[i]),
    ensures
        trim_end(x + w) == x,
    decreases w.len(),
{
    if w.len() == 0 {
        assert(x + w =~= x);
    } else {
        assert((x + w).drop_last() =~= x + w.drop_last());
        assert((x + w).last() == w.last());
        lemma_trim_end_drops(x, w.drop_last());
    }
}

/// The conditions under which a tag is read back from the text of a
/// message: it has a non-empty value, and neither its key nor its value
/// holds a semicolon or a space, nor its key an `=`.
pub open spec fn tag_reads_back(t: TagView) -> bool {
    &&& t.value matches Some(v) && v.len() > 0 && !v.contains(';') && !v.contains(' ')
    &&& !t.key.contains('=')
    &&& !t.key.contains(';')
    &&& !t.key.contains(' ')
}

/// The conditions under which a command is read back from its text: a
/// `JOIN` under `join_reads_back`, a `NICK` with a non-empty nickname
/// without space, a `PRIVMSG` with at least one target and no comma or
/// space in any target. (What a `USER` reads back as is up to the regular
/// expression, so none is counted here.)
pub open spec fn command_reads_back(c: CommandView) -> bool {
    match c {
        CommandView::Join(j) => join_reads_back(j),
        CommandView::Nick(n) => n.nickname.len() > 0 && !n.nickname.contains(' '),
        CommandView::PrivMsg(p) => p.targets.len() > 0 && none_contains(p.targets, ',')
            && none_contains(p.targets, ' '),
        CommandView::User(_) => false,
    }
}

/// A command under `command_reads_back` is read back from its text.
pub proof fn law_command_round_trip(c: CommandView)
    requires
        command_reads_back(c),
    ensures
        parse_command(command_text(c)) == Ok::<_, ParseErrorView>(c),
{
    match c {
        CommandView::Join(j) => law_join_round_trip(j),
        CommandView::Nick(n) => law_nick_round_trip(n),
        CommandView::PrivMsg(p) => law_privmsg_round_trip(p),
        CommandView::User(_) => {},
    }
}

/// Text that reads as a command starts with a capital letter of the
/// command's name.
proof fn lemma_command_text_start(t: Seq<char>)
    requires
        parse_command(t) is Ok,
    ensures
        t.len() > 0,
        'A' <= t[0] <= 'Z',
{
    reveal_strlit("JOIN");
    reveal_strlit("NICK");
    reveal_strlit("PRIVMSG");
    reveal_strlit("USER");
    crate::text::lemma_index_of(t, ' ');
    assert(split_once(t, ' ') is Some);
    let i = index_of(t, ' ')->0;
    let name = t.take(i);
    assert(name == "JOIN"@ || name == "NICK"@ || name == "PRIVMSG"@ || name == "USER"@);
    assert(name.len() > 0);
    assert(t[0] == name[0]);
}

/// The conditions under which a message is read back from its text: it
/// has no source, every tag is under `tag_reads_back`, its command is read
/// back from the command's text, and that text does not end in white
/// space (which reading trims). (The command's text cannot start with
/// white space: a text that reads as a command starts with its name.)
pub open spec fn message_reads_back(m: MessageView) -> bool {
    &&& m.source is None
    &&& forall|i: int| 0 <= i < m.tags.len() ==> tag_reads_back(#[trigger] m.tags[i])
    &&& parse_command(command_text(m.command)) == Ok::<_, ParseErrorView>(m.command)
    &&& !is_white_space(command_text(m.command).last())
}

/// Tags under `tag_reads_back` are read back from their texts.
proof fn lemma_tags_round_trip(tags: Seq<TagView>)
    requires
        forall|i: int| 0 <= i < tags.len() ==> tag_reads_back(#[trigger] tags[i]),
    ensures
        parse_tags(tag_texts(tags)) == Ok::<_, ParseErrorView>(tags),
    decreases tags.len(),
{
    if tags.len() > 0 {
        let init = tags.drop_last();
        assert forall|i: int| 0 <= i < init.len() implies tag_reads_back(#[trigger] init[i]) by {
            assert(init[i] == tags[i]);
        }
        lemma_tags_round_trip(init);
        assert(tag_texts(tags).drop_last() =~= tag_texts(init));
        assert(tag_reads_back(tags[tags.len() - 1]));
        law_tag_round_trip(tags.last());
        assert(init.push(tags.last()) =~= tags);
    } else {
        assert(tags =~= Seq::<TagView>::empty());
    }
}

/// The text of a tag under `tag_reads_back` holds no semicolon and no
/// space.
proof fn lemma_tag_text_avoids(t: TagView)
    requires
        tag_reads_back(t),
    ensures
        !tag_text(t).contains(';'),
        !tag_text(t).contains(' '),
{
    reveal_strlit("=");
    assert("="@ =~= seq!['=']);
    let v = t.value->0;
    assert(!"="@.contains(';')) by {
        if "="@.contains(';') {
            assert("="@[0] == ';');
        }
    }
    assert(!"="@.contains(' ')) by {
        if "="@.contains(' ') {
            assert("="@[0] == ' ');
        }
    }
    lemma_concat_avoids(t.key, "="@, ';');
    lemma_concat_avoids(t.key + "="@, v, ';');
    lemma_concat_avoids(t.key, "="@, ' ');
    lemma_concat_avoids(t.key + "="@, v, ' ');
}

/// A message under `message_reads_back` is read back from the text that
/// the library writes for it.
pub proof fn law_message_round_trip(m: MessageView)
    requires
        message_reads_back(m),
    ensures
        parse_message(message_text(m)) == Ok::<_, ParseErrorView>(m),
{
    reveal_strlit("\r\n");
    reveal_strlit("@");
    reveal_strlit(" ");
    reveal_strlit(";");
    let c = command_text(m.command);
    lemma_command_text_start(c);
    let crlf = "\r\n"@;
    assert(crlf =~= seq!['\r', '\n']);
    assert forall|i: int| 0 <= i < crlf.len() implies is_white_space(#[trigger] crlf[i]) by {}
    if m.tags.len() == 0 {
        assert(message_text(m) =~= c + crlf);
        lemma_trim_start_keeps(c + crlf);
        lemma_trim_end_drops(c, crlf);
        assert(trim(message_text(m)) == c);
        assert(m.tags =~= Seq::<TagView>::empty());
        assert(parse_message(message_text(m)) == crate::message::parse_after_tags(None, c));
    } else {
        let texts = tag_texts(m.tags);
        let j = join(texts, ";"@);
        let head = "@"@ + j;
        let v = head + seq![' '] + c;
        assert(message_text(m) =~= v + crlf);
        assert(v[0] == '@');
        assert(v.last() == c.last());
        lemma_trim_start_keeps(v + crlf);
        lemma_trim_end_drops(v, crlf);
        assert(trim(message_text(m)) == v);
        assert forall|i: int| 0 <= i < texts.len() implies !(#[trigger] texts[i]).contains(';')
            && !texts[i].contains(' ') by {
            lemma_tag_text_avoids(m.tags[i]);
        }
        assert(none_contains(texts, ';'));
        assert(none_contains(texts, ' '));
        assert(!";"@.contains(' ')) by {
            if ";"@.contains(' ') {
                assert(";"@[0] == ' ');
            }
        }
        assert(!"@"@.contains(' ')) by {
            if "@"@.contains(' ') {
                assert("@"@[0] == ' ');
            }
        }
        lemma_join_avoids(texts, ";"@, ' ');
        lemma_concat_avoids("@"@, j, ' ');
        lemma_split_once_at(head, ' ', c);
        assert(head.drop_first() =~= j);
        assert(";"@ =~= seq![';']);
        law_split_join(texts, ';');
        lemma_tags_round_trip(m.tags);
        assert(parse_message(message_text(m)) == crate::message::parse_after_tags(Some(j), c));
    }
}


/// The UTF-8 encoding of a scalar other than the carriage return holds no
/// carriage-return byte.
proof fn lemma_encode_scalar_no_cr(v: u32)
    requires
        is_scalar(v),
        v != 13,
    ensures
        forall|i: int| 0 <= i < encode_scalar(v).len() ==> encode_scalar(v)[i] != CR,
{
    let e = encode_scalar(v);
    assert(v <= 0x7F && v != 13 ==> (v & 0x7F) as u8 != 13u8) by (bit_vector);
    assert(((0xC0u8 | ((v >> 6) & 0x1F) as u8) as u8) != 13u8) by (bit_vector);
    assert(((0xE0u8 | ((v >> 12) & 0x0F) as u8) as u8) != 13u8) by (bit_vector);
    assert(((0xF0u8 | ((v >> 18) & 0x7) as u8) as u8) != 13u8) by (bit_vector);
    assert(((0x80u8 | (v & 0x3F) as u8) as u8) != 13u8) by (bit_vector);
    assert(((0x80u8 | ((v >> 6) & 0x3F) as u8) as u8) != 13u8) by (bit_vector);
    assert(((0x80u8 | ((v >> 12) & 0x3F) as u8) as u8) != 13u8) by (bit_vector);
}

/// The UTF-8 encoding of a text without carriage return holds no
/// carriage-return byte.
proof fn lemma_encode_utf8_no_cr(s: Seq<char>)
    requires
        !s.contains('\r'),
    ensures
        forall|i: int| 0 <= i < encode_utf8(s).len() ==> encode_utf8(s)[i] != CR,
    decreases s.len(),
{
    if s.len() > 0 {
        let rest = s.drop_first();
        assert(!rest.contains('\r')) by {
            if rest.contains('\r') {
                let k = choose|k: int| 0 <= k < rest.len() && rest[k] == '\r';
                assert(s[k + 1] == '\r');
            }
        }
        lemma_encode_utf8_no_cr(rest);
        vstd::utf8::char_is_scalar(s[0]);
        assert(s[0] != '\r');
        if s[0] as u32 == 13 {
            vstd::utf8::char_u32_cast(s[0], 13);
            vstd::utf8::char_u32_cast('\r', 13);
        }
        lemma_encode_scalar_no_cr(s[0] as u32);
        let e = encode_scalar(s[0] as u32);
        let r = encode_utf8(rest);
        assert forall|i: int| 0 <= i < encode_utf8(s).len() implies encode_utf8(s)[i] != CR by {
            if i < e.len() {
                assert(encode_utf8(s)[i] == e[i]);
            } else {
                assert(encode_utf8(s)[i] == r[i - e.len()]);
            }
        }
    }
}

/// The UTF-8 encoding of two texts one after the other is their encodings
/// one after the other.
pub proof fn lemma_encode_utf8_concat(a: Seq<char>, b: Seq<char>)
    ensures
        encode_utf8(a + b) == encode_utf8(a) + encode_utf8(b),
    decreases a.len(),
{
    if a.len() == 0 {
        assert(a + b =~= b);
    } else {
        lemma_encode_utf8_concat(a.drop_first(), b);
        assert((a + b).drop_first() =~= a.drop_first() + b);
        assert((a + b)[0] == a[0]);
        assert(encode_utf8(a + b) =~= encode_utf8(a) + encode_utf8(b));
    }
}

/// Bytes without a carriage return, followed by `\r\n`, are one line that
/// ends after the `\n`.
proof fn lemma_line_end_plain(x: Seq<u8>, p: int)
    requires
        0 <= p <= x.len(),
        forall|i: int| 0 <= i < x.len() ==> x[i] != CR,
    ensures
        line_end_from(x + seq![CR, LF], p) == Some(x.len() as int + 2),
    decreases x.len() - p,
{
    let b = x + seq![CR, LF];
    if p < x.len() {
        assert(b[p] == x[p]);
        lemma_line_end_plain(x, p + 1);
    } else {
        assert(b[p] == CR);
        assert(b[p + 1] == LF);
    }
}

/// Bytes that arrive after a complete line do not change where that line
/// ends.
proof fn lemma_line_end_from_stable(b: Seq<u8>, more: Seq<u8>, p: int)
    requires
        0 <= p,
        line_end_from(b, p) is Some,
    ensures
        line_end_from(b + more, p) == line_end_from(b, p),
    decreases b.len() - p,
{
    let c = b + more;
    if p < b.len() {
        assert(c[p] == b[p]);
        if b[p] != CR {
            lemma_line_end_from_stable(b, more, p + 1);
        } else if p + 1 < b.len() {
            assert(c[p + 1] == b[p + 1]);
            if b[p + 1] != LF {
                lemma_line_end_from_stable(b, more, p + 2);
            }
        }
    }
}

/// Once a complete line has arrived, bytes that arrive after it do not
/// change which line is taken off next.
pub proof fn law_line_end_stable(b: Seq<u8>, more: Seq<u8>)
    requires
        line_end(b) is Some,
    ensures
        line_end(b + more) == line_end(b),
        (b + more).take(line_end(b)->0) == b.take(line_end(b)->0),
{
    lemma_line_end_from_stable(b, more, 0);
    lemma_line_end_in(b, 0);
    let k = line_end(b)->0;
    assert((b + more).take(k) =~= b.take(k));
}

/// A line ends within the bytes.
proof fn lemma_line_end_in(b: Seq<u8>, p: int)
    requires
        0 <= p,
    ensures
        line_end_from(b, p) matches Some(k) ==> p < k <= b.len(),
    decreases b.len() - p,
{
    if p < b.len() {
        lemma_line_end_in(b, p + 1);
        if p + 2 <= b.len() {
            lemma_line_end_in(b, p + 2);
        }
    }
}

/// A line written to a connection is read back whole: the UTF-8 encoding
/// of a text without carriage return, followed by `\r\n`, is one complete
/// line, valid UTF-8, that decodes to the text and its `\r\n`.
pub proof fn law_line_read_back(body: Seq<char>)
    requires
        !body.contains('\r'),
    ensures
        ({
            let bytes = encode_utf8(body + "\r\n"@);
            &&& line_end(bytes) == Some(bytes.len() as int)
            &&& valid_utf8(bytes.take(bytes.len() as int))
            &&& decode_utf8(bytes.take(bytes.len() as int)) == body + "\r\n"@
        }),
{
    reveal_strlit("\r\n");
    let text = body + "\r\n"@;
    let bytes = encode_utf8(text);
    lemma_encode_utf8_concat(body, "\r\n"@);
    let crlf = "\r\n"@;
    assert(crlf =~= seq!['\r', '\n']);
    assert(encode_utf8(crlf) =~= seq![CR, LF]) by {
        assert(crlf.drop_first() =~= seq!['\n']);
        assert(crlf.drop_first().drop_first() =~= Seq::<char>::empty());
        assert(('\r' as u32) == 13);
        assert(('\n' as u32) == 10);
        assert((13u32 & 0x7F) as u8 == 13u8) by (bit_vector);
        assert((10u32 & 0x7F) as u8 == 10u8) by (bit_vector);
        assert(encode_scalar(13) =~= seq![CR]);
        assert(encode_scalar(10) =~= seq![LF]);
        let e2 = encode_utf8(crlf.drop_first().drop_first());
        assert(e2 =~= Seq::<u8>::empty());
        let e1 = encode_utf8(crlf.drop_first());
        assert(e1 == encode_scalar(crlf.drop_first()[0] as u32) + e2);
        assert(e1 =~= seq![LF]);
        assert(encode_utf8(crlf) == encode_scalar(crlf[0] as u32) + e1);
    }
    lemma_encode_utf8_no_cr(body);
    lemma_line_end_plain(encode_utf8(body), 0);
    assert(bytes.take(bytes.len() as int) =~= bytes);
    encode_utf8_valid_utf8(text);
    encode_utf8_decode_utf8(text);
}

/// A message written to a connection is read back: when a message is read
/// back from its text (`message_reads_back`) and its text holds no carriage
/// return before the closing `\r\n`, the UTF-8 encoding of its text is one
/// complete line, valid UTF-8, whose text reads as the message.
pub proof fn law_written_message_read_back(m: MessageView)
    requires
        message_reads_back(m),
        !message_text(m).subrange(0, message_text(m).len() - 2).contains('\r'),
    ensures
        ({
            let bytes = encode_utf8(message_text(m));
            &&& line_end(bytes) == Some(bytes.len() as int)
            &&& valid_utf8(bytes.take(bytes.len() as int))
            &&& parse_message(decode_utf8(bytes.take(bytes.len() as int))) == Ok::<
                _,
                ParseErrorView,
            >(m)
        }),
{
    reveal_strlit("\r\n");
    let t = message_text(m);
    let body = t.subrange(0, t.len() - 2);
    assert(body + "\r\n"@ =~= t);
    law_line_read_back(body);
    law_message_round_trip(m);
}


/// The tags part of a line: `@`, the tags text and a space; nothing when
/// there are no tags.
pub open spec fn tags_part(t: Option<Seq<char>>) -> Seq<char> {
    match t {
        Some(t) => seq!['@'] + t + seq![' '],
        None => seq![],
    }
}

/// The source part of a line: `:`, the source text and a space; nothing
/// when there is no source.
pub open spec fn source_part(s: Option<Seq<char>>) -> Seq<char> {
    match s {
        Some(s) => seq![':'] + s + seq![' '],
        None => seq![],
    }
}

/// A received line is read part by part, whether or not the other parts
/// are there: for a line made of an optional `@` and tags text `T`, a
/// space, an optional `:` and source text `S`, a space, a command text
/// `C`, and trailing white space `W` (such as `\r\n`), where neither `T`
/// nor `S` holds a space, `T` split at semicolons reads as tags `ts`, `S`
/// reads as source `src`, `C` reads as command `c` and does not end in
/// white space, the line reads as the message with tags `ts` (none when
/// there is no `T`), source `src` (none when there is no `S`) and command
/// `c`. In particular a source is read after tags just as it is without
/// them.
pub proof fn law_parse_message_parts(
    tags_text: Option<Seq<char>>,
    ts: Seq<TagView>,
    source_text: Option<Seq<char>>,
    src: SourceView,
    c: Seq<char>,
    cmd: CommandView,
    w: Seq<char>,
)
    requires
        tags_text matches Some(t) ==> !t.contains(' ') && parse_tags(split(t, ';')) == Ok::<
            _,
            ParseErrorView,
        >(ts),
        tags_text is None ==> ts == Seq::<TagView>::empty(),
        source_text matches Some(st) ==> !st.contains(' ') && parse_source(st) == Ok::<
            _,
            ParseErrorView,
        >(src),
        parse_command(c) == Ok::<_, ParseErrorView>(cmd),
        !is_white_space(c.last()),
        forall|i: int| 0 <= i < w.len() ==> is_white_space(#[trigger] w[i]),
    ensures
        parse_message(tags_part(tags_text) + source_part(source_text) + c + w) == Ok::<
            _,
            ParseErrorView,
        >(
            MessageView {
                tags: ts,
                source: match source_text {
                    Some(_) => Some(src),
                    None => None,
                },
                command: cmd,
            },
        ),
{
    lemma_command_text_start(c);
    let sp = source_part(source_text);
    let rest = sp + c;
    let v = tags_part(tags_text) + rest;
    let line = v + w;
    assert(line == tags_part(tags_text) + source_part(source_text) + c + w);
    assert(v.last() == c.last());
    // The line starts with `@`, `:` or the command's capital letter.
    match tags_text {
        Some(t) => {
            assert(v[0] == '@');
        },
        None => {
            match source_text {
                Some(st) => {
                    assert(v[0] == ':');
                },
                None => {
                    assert(v =~= c);
                },
            }
        },
    }
    lemma_trim_start_keeps(line);
    lemma_trim_end_drops(v, w);
    assert(trim(line) == v);
    // What follows the tags part: the source, if any, then the command.
    let source = match source_text {
        Some(_) => Some(src),
        None => None,
    };
    assert(crate::message::parse_after_tags(tags_text, rest) == crate::message::parse_body(
        tags_text,
        source,
        c,
    )) by {
        match source_text {
            Some(st) => {
                assert(rest[0] == ':');
                let head = seq![':'] + st;
                assert(!seq![':'].contains(' ')) by {
                    if seq![':'].contains(' ') {
                        assert(seq![':'][0] == ' ');
                    }
                }
                lemma_concat_avoids(seq![':'], st, ' ');
                assert(rest =~= head + seq![' '] + c);
                lemma_split_once_at(head, ' ', c);
                assert(head.drop_first() =~= st);
            },
            None => {
                assert(rest =~= c);
            },
        }
    }
    match tags_text {
        Some(t) => {
            let head = seq!['@'] + t;
            assert(!seq!['@'].contains(' ')) by {
                if seq!['@'].contains(' ') {
                    assert(seq!['@'][0] == ' ');
                }
            }
            lemma_concat_avoids(seq!['@'], t, ' ');
            assert(v =~= head + seq![' '] + rest);
            lemma_split_once_at(head, ' ', rest);
            assert(head.drop_first() =~= t);
            assert(parse_message(line) == crate::message::parse_after_tags(Some(t), rest));
        },
        None => {
            assert(v =~= rest);
            assert(parse_message(line) == crate::message::parse_after_tags(None, rest));
        },
    }
}

/// The source is written after the tags and before the command whether or
/// not there are tags: the text of a message with source `s` is the text
/// of the same message without a source with `:`, the source's text and a
/// space put in front of the command's text, which ends every message's
/// text just before `\r\n` whatever its tags.
pub proof fn law_message_text_source(tags: Seq<TagView>, s: SourceView, cmd: CommandView)
    ensures
        ({
            let with_source = message_text(MessageView { tags, source: Some(s), command: cmd });
            let without = message_text(MessageView { tags, source: None, command: cmd });
            let bare = message_text(MessageView { tags: seq![], source: None, command: cmd });
            let k = without.len() - bare.len();
            &&& 0 <= k
            &&& without == without.take(k) + bare
            &&& with_source == without.take(k) + seq![':'] + source_text(s) + seq![' '] + bare
        }),
{
    reveal_strlit(":");
    reveal_strlit(" ");
    assert(":"@ =~= seq![':']);
    assert(" "@ =~= seq![' ']);
    let without = message_text(MessageView { tags, source: None, command: cmd });
    let bare = message_text(MessageView { tags: seq![], source: None, command: cmd });
    let t: Seq<char> = if tags.len() == 0 {
        seq![]
    } else {
        "@"@ + join(tag_texts(tags), ";"@) + " "@
    };
    let tail = command_text(cmd) + "\r\n"@;
    assert(bare =~= tail);
    assert(without =~= t + tail);
    assert(without.take(t.len() as int) =~= t);
}

/// The text of a `JOIN` with keys is the text of the same `JOIN` without
/// keys followed by a space and the keys joined by commas, however many
/// keys there are; the text without keys is `JOIN`, a space and the
/// channels joined by commas; leaving is `JOIN 0`.
pub proof fn law_join_text(channels: Seq<Seq<char>>, keys: Seq<Seq<char>>)
    ensures
        join_text(JoinView { params: JoinParamsView::Channels { channels, keys: seq![] } })
            == seq!['J', 'O', 'I', 'N', ' '] + join(channels, seq![',']),
        keys.len() > 0 ==> join_text(
            JoinView { params: JoinParamsView::Channels { channels, keys } },
        ) == join_text(JoinView { params: JoinParamsView::Channels { channels, keys: seq![] } })
            + seq![' '] + join(keys, seq![',']),
        join_text(JoinView { params: JoinParamsView::Leave }) == seq!['J', 'O', 'I', 'N', ' ', '0'],
{
    lemma_command_names();
    reveal_strlit("JOIN");
    let c = join(channels, ","@);
    assert(join_text(JoinView { params: JoinParamsView::Channels { channels, keys: seq![] } })
        =~= seq!['J', 'O', 'I', 'N', ' '] + c);
    if keys.len() > 0 {
        assert(join_text(JoinView { params: JoinParamsView::Channels { channels, keys } })
            =~= seq!['J', 'O', 'I', 'N', ' '] + c + seq![' '] + join(keys, ","@));
    }
    assert(join_text(JoinView { params: JoinParamsView::Leave })
        =~= seq!['J', 'O', 'I', 'N', ' ', '0']);
}

/// The parameters of a `PRIVMSG` are the targets before the first space and
/// the payload after it, kept whole: a payload that does not start with `:`
/// is taken unchanged, spaces and all, and one that starts with `:` loses
/// that one colon and nothing more.
pub proof fn law_privmsg_payload(t: Seq<char>, p: Seq<char>)
    requires
        !t.contains(' '),
    ensures
        (p.len() == 0 || p[0] != ':') ==> parse_privmsg(t + seq![' '] + p) == Ok::<
            _,
            ParseErrorView,
        >(PrivMsgView { targets: split(t, ','), payload: p }),
        parse_privmsg(t + seq![' ', ':'] + p) == Ok::<_, ParseErrorView>(
            PrivMsgView { targets: split(t, ','), payload: p },
        ),
{
    lemma_split_once_at(t, ' ', p);
    let q = seq![':'] + p;
    assert(t + seq![' ', ':'] + p =~= t + seq![' '] + q);
    lemma_split_once_at(t, ' ', q);
    assert(q.drop_first() =~= p);
}

/// A numeric reply with code `001` to `005` has all of its parameters,
/// whatever they are, as its message: the text after the code's space,
/// whole.
pub proof fn law_numeric_message(p: Seq<char>)
    ensures
        parse_numeric(seq!['0', '0', '1', ' '] + p) == Ok::<_, ParseErrorView>(
            NumericView::RplWelcome { message: p },
        ),
        parse_numeric(seq!['0', '0', '2', ' '] + p) == Ok::<_, ParseErrorView>(
            NumericView::RplYourHost { message: p },
        ),
        parse_numeric(seq!['0', '0', '3', ' '] + p) == Ok::<_, ParseErrorView>(
            NumericView::RplCreated { message: p },
        ),
        parse_numeric(seq!['0', '0', '4', ' '] + p) == Ok::<_, ParseErrorView>(
            NumericView::RplMyInfo { message: p },
        ),
        parse_numeric(seq!['0', '0', '5', ' '] + p) == Ok::<_, ParseErrorView>(
            NumericView::RplISupport { message: p },
        ),
{
    reveal_strlit("001");
    reveal_strlit("002");
    reveal_strlit("003");
    reveal_strlit("004");
    reveal_strlit("005");
    let codes = seq![seq!['0', '0', '1'], seq!['0', '0', '2'], seq!['0', '0', '3'], seq!['0', '0', '4'], seq!['0', '0', '5']];
    assert forall|i: int| 0 <= i < 5 implies !(#[trigger] codes[i]).contains(' ') by {
        if codes[i].contains(' ') {
            let k = choose|k: int| 0 <= k < codes[i].len() && codes[i][k] == ' ';
            assert(codes[i][k] != ' ');
        }
    }
    assert(!codes[0].contains(' '));
    assert(!codes[1].contains(' '));
    assert(!codes[2].contains(' '));
    assert(!codes[3].contains(' '));
    assert(!codes[4].contains(' '));
    lemma_split_once_at(codes[0], ' ', p);
    lemma_split_once_at(codes[1], ' ', p);
    lemma_split_once_at(codes[2], ' ', p);
    lemma_split_once_at(codes[3], ' ', p);
    lemma_split_once_at(codes[4], ' ', p);
    assert(seq!['0', '0', '1', ' '] + p =~= codes[0] + seq![' '] + p);
    assert(seq!['0', '0', '2', ' '] + p =~= codes[1] + seq![' '] + p);
    assert(seq!['0', '0', '3', ' '] + p =~= codes[2] + seq![' '] + p);
    assert(seq!['0', '0', '4', ' '] + p =~= codes[3] + seq![' '] + p);
    assert(seq!['0', '0', '5', ' '] + p =~= codes[4] + seq![' '] + p);
    assert("001"@ =~= codes[0]);
    assert("002"@ =~= codes[1]);
    assert("003"@ =~= codes[2]);
    assert("004"@ =~= codes[3]);
    assert("005"@ =~= codes[4]);
}


/// A tag is the text before the first `=` as key and the text after it as
/// value, an empty value being no value.
pub proof fn law_tag_parts(k: Seq<char>, v: Seq<char>)
    requires
        !k.contains('='),
    ensures
        v.len() > 0 ==> parse_tag(k + seq!['='] + v) == Ok::<_, ParseErrorView>(
            TagView { key: k, value: Some(v) },
        ),
        v.len() == 0 ==> parse_tag(k + seq!['='] + v) == Ok::<_, ParseErrorView>(
            TagView { key: k, value: None },
        ),
{
    lemma_split_once_at(k, '=', v);
}

/// A source `name!user@host` is read as its three parts, when the name
/// holds neither `!` nor `@` and the user holds no `@`; an empty user or
/// host is none.
pub proof fn law_source_parts(n: Seq<char>, u: Seq<char>, h: Seq<char>)
    requires
        !n.contains('!'),
        !n.contains('@'),
        !u.contains('@'),
    ensures
        parse_source(n + seq!['!'] + u + seq!['@'] + h) == Ok::<_, ParseErrorView>(
            SourceView {
                name: n,
                user: if u.len() == 0 {
                    None
                } else {
                    Some(u)
                },
                host: if h.len() == 0 {
                    None
                } else {
                    Some(h)
                },
            },
        ),
{
    let rest = n + seq!['!'] + u;
    assert(!seq!['!'].contains('@')) by {
        if seq!['!'].contains('@') {
            assert(seq!['!'][0] == '@');
        }
    }
    lemma_concat_avoids(n, seq!['!'], '@');
    lemma_concat_avoids(n + seq!['!'], u, '@');
    lemma_split_once_at(rest, '@', h);
    lemma_split_once_at(n, '!', u);
}

/// A `221` reply is the client before the next space and the user modes
/// after it, whole.
pub proof fn law_numeric_umode(client: Seq<char>, modes: Seq<char>)
    requires
        !client.contains(' '),
    ensures
        parse_numeric(seq!['2', '2', '1', ' '] + client + seq![' '] + modes) == Ok::<
            _,
            ParseErrorView,
        >(NumericView::RplUModeIs { client, user_modes: modes }),
{
    reveal_strlit("221");
    reveal_strlit("001");
    reveal_strlit("002");
    reveal_strlit("003");
    reveal_strlit("004");
    reveal_strlit("005");
    let code = seq!['2', '2', '1'];
    assert(!code.contains(' ')) by {
        if code.contains(' ') {
            let k = choose|k: int| 0 <= k < code.len() && code[k] == ' ';
            assert(code[k] != ' ');
        }
    }
    let params = client + seq![' '] + modes;
    assert(seq!['2', '2', '1', ' '] + client + seq![' '] + modes =~= code + seq![' '] + params);
    lemma_split_once_at(code, ' ', params);
    lemma_split_once_at(client, ' ', modes);
    assert("221"@ =~= code);
    assert("001"@[0] != code[0]);
    assert("002"@[0] != code[0]);
    assert("003"@[0] != code[0]);
    assert("004"@[0] != code[0]);
    assert("005"@[0] != code[0]);
}

/// The counts of an `RPL_LUSERCLIENT` are the decimal numbers of groups 2,
/// 3 and 4 of the match, in that order, and the client is group 1.
pub proof fn law_luser_client_counts(
    params: Seq<char>,
    whole: Option<Seq<char>>,
    client: Seq<char>,
    users: u32,
    invisible: u32,
    servers: u32,
)
    ensures
        luser_client_from_groups(
            params,
            Some(
                seq![
                    whole,
                    Some(client),
                    Some(decimal(users as nat)),
                    Some(decimal(invisible as nat)),
                    Some(decimal(servers as nat)),
                ],
            ),
        ) == Ok::<_, ParseErrorView>(
            NumericView::RplLUserClient { client, users, invisible, servers },
        ),
{
    crate::number::law_parse_u32_of_decimal(users);
    crate::number::law_parse_u32_of_decimal(invisible);
    crate::number::law_parse_u32_of_decimal(servers);
}

/// A command whose name is none of `JOIN`, `NICK`, `PRIVMSG` and `USER` is
/// refused as unknown, with its name.
pub proof fn law_unknown_command(name: Seq<char>, params: Seq<char>)
    requires
        !name.contains(' '),
        name != "JOIN"@,
        name != "NICK"@,
        name != "PRIVMSG"@,
        name != "USER"@,
    ensures
        parse_command(name + seq![' '] + params) == Err::<CommandView, _>(
            ParseErrorView::UnknownCommand(name),
        ),
{
    lemma_split_once_at(name, ' ', params);
}

} // verus!
