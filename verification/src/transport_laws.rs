//! Laws of the line protocol: every message that formats parses back to
//! itself on the channel it belongs to.
use crate::text::{
    all_digits, decimal, hex, hex_bytes, hex_digit, zero_padded, first_index_of, is_ascii_whitespace, is_separator, is_unicode_whitespace,
    lemma_decimal_roundtrip, lemma_first_index_of, lemma_first_index_of_unique,
    lemma_parse_decimal, lemma_strip_prefix_concat, lemma_tokens_separator_first,
    lemma_tokens_word_first, lemma_trim_end_unchanged, parse_u16_spec, parse_u64_spec,
    strip_prefix, strip_suffix, tokens, trim, trim_end, trim_start, unsigned_value,
};
use crate::transport::{
    ack_status_text, display_text_error, format_discovery_spec, format_stream_spec, has_control,
    is_action_char, is_hex_char, joined_fields, lemma_encode_utf8_concat, stream_line_spec,
    utf8_len, valid_action, valid_hex_id, version_field, versioned_line, AckStatus,
    DiscoveryView, StreamView, MAX_DISCOVERY_DATAGRAM_BYTES, PROTOCOL_VERSION,
};
use crate::transport_parse::{
    allowed_fields, display_spec, field_key, field_keys, field_lookup, field_token_error,
    field_value, fields_error, legacy_event_spec, message_kind, parse_discovery_spec,
    parse_stream_spec, parse_versioned_spec, required_spec, seq_spec, versioned_body_spec,
    without_last, MessageKind, VersionedView,
};
use vstd::prelude::*;
use vstd::utf8::{
    encode_utf8, encode_utf8_decode_utf8, encode_utf8_valid_utf8, is_ascii_chars,
    is_ascii_chars_encode_utf8,
};

verus! {

/// A character that may appear in a key or value: printable ASCII other
/// than space and `=`.
pub open spec fn is_word_char(c: char) -> bool {
    '!' <= c && c <= '~' && c != '='
}

/// A non-empty run of word characters.
pub open spec fn is_word(text: Seq<char>) -> bool {
    text.len() > 0 && forall|i: int| 0 <= i < text.len() ==> is_word_char(#[trigger] text[i])
}

/// Printable ASCII, space included.
pub open spec fn is_printable(c: char) -> bool {
    ' ' <= c && c <= '~'
}

/// The token `key=value`.
pub open spec fn field_token(field: (Seq<char>, Seq<char>)) -> Seq<char> {
    field.0 + seq!['='] + field.1
}

/// The tokens of `fields`, in order.
pub open spec fn field_tokens(fields: Seq<(Seq<char>, Seq<char>)>) -> Seq<Seq<char>> {
    fields.map_values(|field: (Seq<char>, Seq<char>)| field_token(field))
}

/// Fields whose keys and values are all words.
pub open spec fn word_fields(fields: Seq<(Seq<char>, Seq<char>)>) -> bool {
    forall|i: int|
        #![trigger fields[i]]
        0 <= i < fields.len() ==> is_word(fields[i].0) && is_word(fields[i].1)
}

/// Fields a message of some kind may carry: word keys and values, distinct
/// allowed keys.
pub open spec fn acceptable_fields(
    fields: Seq<(Seq<char>, Seq<char>)>,
    allowed: Seq<Seq<char>>,
) -> bool {
    &&& forall|i: int|
        #![trigger fields[i]]
        0 <= i < fields.len() ==> is_word(fields[i].0) && is_word(fields[i].1) && allowed.contains(
            fields[i].0,
        )
    &&& forall|i: int, j: int|
        0 <= i < j < fields.len() ==> #[trigger] fields[i].0 != #[trigger] fields[j].0
}

proof fn lemma_field_token(field: (Seq<char>, Seq<char>))
    requires
        is_word(field.0),
        is_word(field.1),
    ensures
        first_index_of(field_token(field), '=') == Some(field.0.len()),
        field_key(field_token(field)) == field.0,
        field_value(field_token(field)) == field.1,
        field_token(field).len() > 0,
        forall|i: int|
            0 <= i < field_token(field).len() ==> !is_ascii_whitespace(
                #[trigger] field_token(field)[i],
            ) && is_printable(field_token(field)[i]),
{
    let token = field_token(field);
    let key = field.0;
    assert forall|j: int| 0 <= j < key.len() implies token[j] != '=' by {
        assert(token[j] == key[j]);
        assert(is_word_char(key[j]));
    }
    assert(token[key.len() as int] == '=');
    lemma_first_index_of_unique(token, '=', key.len());
    assert(token.take(key.len() as int) =~= key);
    assert(token.skip(key.len() + 1int) =~= field.1);
    assert forall|i: int| 0 <= i < token.len() implies !is_ascii_whitespace(#[trigger] token[i])
        && is_printable(token[i]) by {
        if i < key.len() {
            assert(token[i] == key[i]);
            assert(is_word_char(key[i]));
        } else if i > key.len() {
            assert(token[i] == field.1[i - key.len() - 1]);
            assert(is_word_char(field.1[i - key.len() - 1]));
        }
    }
}

/// The tokens of the joined fields are the fields' tokens.
proof fn lemma_joined_tokens(fields: Seq<(Seq<char>, Seq<char>)>)
    requires
        word_fields(fields),
    ensures
        tokens(joined_fields(fields), true) == field_tokens(fields),
        joined_fields(fields).len() > 0 ==> joined_fields(fields)[0] == ' ',
        fields.len() > 0 ==> joined_fields(fields).len() > 0,
        fields.len() > 0 ==> is_word_char(joined_fields(fields).last()),
        forall|i: int|
            0 <= i < joined_fields(fields).len() ==> is_printable(#[trigger] joined_fields(fields)[i]),
    decreases fields.len(),
{
    if fields.len() == 0 {
        assert(field_tokens(fields) =~= Seq::<Seq<char>>::empty());
    } else {
        let rest = fields.drop_first();
        assert forall|i: int| 0 <= i < rest.len() implies is_word(#[trigger] rest[i].0) && is_word(
            rest[i].1,
        ) by {
            assert(rest[i] == fields[i + 1]);
            assert(is_word(fields[i + 1].0) && is_word(fields[i + 1].1));
        }
        lemma_joined_tokens(rest);
        assert(is_word(fields[0].0) && is_word(fields[0].1));
        lemma_field_token(fields[0]);
        let token = field_token(fields[0]);
        let tail = joined_fields(rest);
        let joined = joined_fields(fields);
        assert(joined =~= seq![' '] + (token + tail));
        lemma_tokens_separator_first(' ', token + tail, true);
        assert forall|i: int| 0 <= i < token.len() implies !is_separator(#[trigger] token[i], true) by {}
        lemma_tokens_word_first(token, tail, true);
        assert(field_tokens(fields) =~= seq![token] + field_tokens(rest));
        if rest.len() == 0 {
            assert(joined.last() == token.last());
            assert(token.last() == fields[0].1.last());
            assert(fields[0].1.last() == fields[0].1[fields[0].1.len() - 1]);
        } else {
            assert(joined.last() == tail.last());
        }
        assert forall|i: int| 0 <= i < joined.len() implies is_printable(#[trigger] joined[i]) by {
            if i > 0 && i <= token.len() {
                assert(joined[i] == token[i - 1]);
            } else if i > token.len() {
                assert(joined[i] == tail[i - token.len() - 1]);
            }
        }
    }
}

proof fn lemma_word_field(fields: Seq<(Seq<char>, Seq<char>)>, index: int)
    requires
        word_fields(fields),
        0 <= index < fields.len(),
    ensures
        is_word(fields[index].0),
        is_word(fields[index].1),
{
}

/// The keys of the first `count` tokens are the first `count` keys.
proof fn lemma_field_keys_prefix(fields: Seq<(Seq<char>, Seq<char>)>, count: int)
    requires
        0 <= count <= fields.len(),
        word_fields(fields),
    ensures
        forall|j: int|
            0 <= j < count ==> #[trigger] field_keys(field_tokens(fields).take(count))[j]
                == fields[j].0,
        field_keys(field_tokens(fields).take(count)).len() == count,
{
    assert forall|j: int| 0 <= j < count implies #[trigger] field_keys(
        field_tokens(fields).take(count),
    )[j] == fields[j].0 by {
        lemma_word_field(fields, j);
        lemma_field_token(fields[j]);
        assert(field_tokens(fields).take(count)[j] == field_token(fields[j]));
    }
}

/// Acceptable fields raise no error from `start` on.
proof fn lemma_fields_accepted(
    fields: Seq<(Seq<char>, Seq<char>)>,
    allowed: Seq<Seq<char>>,
    start: nat,
)
    requires
        acceptable_fields(fields, allowed),
    ensures
        fields_error(field_tokens(fields), allowed, start) is None,
    decreases fields.len() - start,
{
    let all = field_tokens(fields);
    if start < fields.len() {
        let field = fields[start as int];
        assert(is_word(field.0) && is_word(field.1) && allowed.contains(field.0));
        lemma_field_token(field);
        let token = all[start as int];
        assert(token == field_token(field));
        assert(token.take(field.0.len() as int) =~= field.0);
        assert(token.skip(field.0.len() + 1int) =~= field.1);
        assert(!field.1.contains('=')) by {
            if field.1.contains('=') {
                let k = choose|k: int| 0 <= k < field.1.len() && field.1[k] == '=';
                assert(is_word_char(field.1[k]));
            }
        }
        lemma_field_keys_prefix(fields, start as int);
        let seen = field_keys(all.take(start as int));
        assert(!seen.contains(field.0)) by {
            if seen.contains(field.0) {
                let j = choose|j: int| 0 <= j < seen.len() && seen[j] == field.0;
                assert(seen[j] == fields[j].0);
            }
        }
        assert(field_token_error(token, seen, allowed) is None);
        lemma_fields_accepted(fields, allowed, start + 1);
    }
}

/// Each key finds its own value.
proof fn lemma_field_lookup(fields: Seq<(Seq<char>, Seq<char>)>, index: int)
    requires
        0 <= index < fields.len(),
        word_fields(fields),
        forall|i: int, j: int| 0 <= i < j < fields.len() ==> #[trigger] fields[i].0 != #[trigger] fields[j].0,
    ensures
        field_lookup(field_tokens(fields), fields[index].0) == Some(fields[index].1),
    decreases index,
{
    let all = field_tokens(fields);
    assert(is_word(fields[0].0) && is_word(fields[0].1));
    lemma_field_token(fields[0]);
    assert(all[0] == field_token(fields[0]));
    if index > 0 {
        let rest = fields.drop_first();
        assert(all.drop_first() =~= field_tokens(rest));
        assert(fields[0].0 != fields[index].0);
        assert forall|i: int| 0 <= i < rest.len() implies is_word(#[trigger] rest[i].0) && is_word(
            rest[i].1,
        ) by {
            assert(rest[i] == fields[i + 1]);
            assert(is_word(fields[i + 1].0) && is_word(fields[i + 1].1));
        }
        assert forall|i: int, j: int| 0 <= i < j < rest.len() implies #[trigger] rest[i].0
            != #[trigger] rest[j].0 by {
            assert(rest[i] == fields[i + 1]);
            assert(rest[j] == fields[j + 1]);
        }
        lemma_field_lookup(rest, index - 1);
        assert(rest[index - 1] == fields[index]);
    }
}

/// Trimming leaves text that starts and ends with non-whitespace alone.
proof fn lemma_trim_unchanged(text: Seq<char>)
    requires
        text.len() > 0,
        !is_unicode_whitespace(text[0]),
        !is_unicode_whitespace(text.last()),
    ensures
        trim(text) == text,
{
    lemma_trim_end_unchanged(text);
}

/// A versioned line of acceptable fields, led by `v=1`, parses to the body
/// of its kind.
pub proof fn lemma_versioned_line_parses(
    name: Seq<char>,
    kind: MessageKind,
    fields: Seq<(Seq<char>, Seq<char>)>,
)
    requires
        message_kind(name) == Some(kind),
        is_word(name),
        fields.len() > 0,
        fields[0] == version_field(),
        acceptable_fields(fields, allowed_fields(kind)),
    ensures
        parse_versioned_spec(versioned_line(name, fields)) == versioned_body_spec(
            kind,
            field_tokens(fields),
        ),
        forall|i: int|
            0 <= i < versioned_line(name, fields).len() ==> is_printable(
                #[trigger] versioned_line(name, fields)[i],
            ),
{
    let joined = joined_fields(fields);
    let body = name + joined;
    let line = versioned_line(name, fields);
    lemma_joined_tokens(fields);
    // The terminator.
    assert(line =~= body + seq![';']);
    assert(line.subrange(line.len() - 1, line.len() as int) =~= seq![';']);
    assert(line.subrange(0, line.len() - 1) =~= body);
    assert(strip_suffix(line, seq![';']) == Some(body));
    // No surrounding whitespace.
    assert(body[0] == name[0]);
    assert(is_word_char(name[0]));
    assert(body.last() == joined.last());
    lemma_trim_unchanged(body);
    // The kind ends at the first space.
    assert forall|j: int| 0 <= j < name.len() implies body[j] != ' ' by {
        assert(body[j] == name[j]);
        assert(is_word_char(name[j]));
    }
    assert(body[name.len() as int] == joined[0]);
    lemma_first_index_of_unique(body, ' ', name.len());
    assert(body.take(name.len() as int) =~= name);
    let rest = body.skip(name.len() + 1int);
    assert(joined =~= seq![' '] + rest);
    lemma_tokens_separator_first(' ', rest, true);
    // The fields.
    lemma_fields_accepted(fields, allowed_fields(kind), 0);
    lemma_field_lookup(fields, 0);
    assert(fields[0].0 == "v"@);
    // Every character is printable ASCII.
    assert forall|i: int| 0 <= i < line.len() implies is_printable(#[trigger] line[i]) by {
        if i < name.len() {
            assert(line[i] == name[i]);
            assert(is_word_char(name[i]));
        } else if i < name.len() + joined.len() {
            assert(line[i] == joined[i - name.len()]);
        }
    }
}

// ---------------------------------------------------------------------------
// Words the protocol writes
// ---------------------------------------------------------------------------
proof fn lemma_hex_id_word(value: Seq<char>)
    requires
        valid_hex_id(value),
    ensures
        is_word(value),
{
    assert forall|i: int| 0 <= i < value.len() implies is_word_char(#[trigger] value[i]) by {
        assert(is_hex_char(value[i]));
    }
}

proof fn lemma_action_word(value: Seq<char>)
    requires
        valid_action(value),
    ensures
        is_word(value),
{
    assert forall|i: int| 0 <= i < value.len() implies is_word_char(#[trigger] value[i]) by {
        assert(is_action_char(value[i]));
    }
}

proof fn lemma_decimal_word(value: nat)
    ensures
        is_word(decimal(value)),
{
    lemma_decimal_roundtrip(value);
    assert forall|i: int| 0 <= i < decimal(value).len() implies is_word_char(
        #[trigger] decimal(value)[i],
    ) by {
        assert(all_digits(decimal(value)));
    }
}

proof fn lemma_decimal_u16(value: u16)
    ensures
        parse_u16_spec(decimal(value as nat)) == Some(value),
        decimal(value as nat).len() <= 5,
{
    lemma_parse_decimal(value as nat);
    reveal_with_fuel(decimal, 5);
}

proof fn lemma_decimal_u64(value: u64)
    ensures
        parse_u64_spec(decimal(value as nat)) == Some(value),
{
    lemma_parse_decimal(value as nat);
}

/// Printable ASCII holds no control character and encodes one byte per
/// character.
proof fn lemma_printable_text(text: Seq<char>)
    requires
        forall|i: int| 0 <= i < text.len() ==> is_printable(#[trigger] text[i]),
    ensures
        !has_control(text),
        is_ascii_chars(text),
        utf8_len(text) == text.len(),
{
    assert forall|i: int| 0 <= i < text.len() implies '\0' <= #[trigger] text[i] <= '\u{7f}' by {
        assert(is_printable(text[i]));
    }
    is_ascii_chars_encode_utf8(text);
}

/// Text that differs from `prefix` at `index` neither starts with it nor
/// equals it.
proof fn lemma_differs_at(text: Seq<char>, prefix: Seq<char>, index: int)
    requires
        0 <= index < prefix.len(),
        index < text.len(),
        text[index] != prefix[index],
    ensures
        strip_prefix(text, prefix) is None,
        text != prefix,
{
    if prefix.len() <= text.len() {
        assert(text.subrange(0, prefix.len() as int)[index] == text[index]);
    }
}

/// The keys and kind names of the protocol.
proof fn lemma_protocol_words()
    ensures
        is_word("v"@),
        is_word("nonce"@),
        is_word("companion"@),
        is_word("port"@),
        is_word("session"@),
        is_word("seq"@),
        is_word("action"@),
        is_word("status"@),
        is_word("logged"@),
        is_word("discover"@),
        is_word("offer"@),
        is_word("hello"@),
        is_word("welcome"@),
        is_word("event"@),
        is_word("ack"@),
        "v"@ != "nonce"@,
        "v"@ != "companion"@,
        "v"@ != "port"@,
        "v"@ != "session"@,
        "v"@ != "seq"@,
        "v"@ != "action"@,
        "v"@ != "status"@,
        "nonce"@ != "companion"@,
        "nonce"@ != "port"@,
        "companion"@ != "port"@,
        "session"@ != "seq"@,
        "session"@ != "action"@,
        "session"@ != "status"@,
        "seq"@ != "action"@,
        "seq"@ != "status"@,
        message_kind("discover"@) == Some(MessageKind::Discover),
        message_kind("offer"@) == Some(MessageKind::Offer),
        message_kind("hello"@) == Some(MessageKind::Hello),
        message_kind("welcome"@) == Some(MessageKind::Welcome),
        message_kind("event"@) == Some(MessageKind::Event),
        message_kind("ack"@) == Some(MessageKind::Ack),
        "discover"@.len() == 8,
        "offer"@.len() == 5,
        "nonce"@.len() == 5,
        "companion"@.len() == 9,
        "port"@.len() == 4,
        "v"@.len() == 1,
        "display "@.len() == 8 && "display "@[0] == 'd',
        "display: "@.len() == 9 && "display: "@[0] == 'd',
        "display"@.len() == 7 && "display"@[0] == 'd',
        "display:"@.len() == 8 && "display:"@[0] == 'd',
        "event action="@.len() == 13 && "event action="@[0] == 'e' && "event action="@[6] == 'a',
        "hello"@[0] == 'h',
        "welcome"@[0] == 'w',
        "event"@[0] == 'e' && "event"@.len() == 5,
        "ack"@[0] == 'a',
        "v"@[0] == 'v',
{
    reveal_strlit("v");
    reveal_strlit("nonce");
    reveal_strlit("companion");
    reveal_strlit("port");
    reveal_strlit("session");
    reveal_strlit("seq");
    reveal_strlit("action");
    reveal_strlit("status");
    reveal_strlit("logged");
    reveal_strlit("discover");
    reveal_strlit("offer");
    reveal_strlit("hello");
    reveal_strlit("welcome");
    reveal_strlit("event");
    reveal_strlit("ack");
    reveal_strlit("display ");
    reveal_strlit("display: ");
    reveal_strlit("display");
    reveal_strlit("display:");
    reveal_strlit("event action=");
    assert("nonce"@[0] != "companion"@[0]);
    assert("nonce"@[0] != "port"@[0]);
    assert("companion"@[0] != "port"@[0]);
    assert("session"@[1] != "seq"@[1] || "session"@.len() != "seq"@.len());
    assert("session"@[0] != "action"@[0]);
    assert("session"@[1] != "status"@[1]);
    assert("seq"@[0] != "action"@[0]);
    assert("seq"@[1] != "status"@[1]);
    assert("v"@.len() != "nonce"@.len());
    assert("v"@.len() != "companion"@.len());
    assert("v"@.len() != "port"@.len());
    assert("v"@.len() != "session"@.len());
    assert("v"@.len() != "seq"@.len());
    assert("v"@.len() != "action"@.len());
    assert("v"@.len() != "status"@.len());
    assert("offer"@ != "discover"@) by {
        assert("offer"@[0] != "discover"@[0]);
    }
    assert("hello"@ != "discover"@ && "hello"@ != "offer"@) by {
        assert("hello"@[0] != "discover"@[0]);
        assert("hello"@[0] != "offer"@[0]);
    }
    assert("welcome"@ != "discover"@ && "welcome"@ != "offer"@ && "welcome"@ != "hello"@) by {
        assert("welcome"@[0] != "discover"@[0]);
        assert("welcome"@[0] != "offer"@[0]);
        assert("welcome"@[0] != "hello"@[0]);
    }
    assert("event"@ != "discover"@ && "event"@ != "offer"@ && "event"@ != "hello"@ && "event"@
        != "welcome"@) by {
        assert("event"@[0] != "discover"@[0]);
        assert("event"@[0] != "offer"@[0]);
        assert("event"@[0] != "hello"@[0]);
        assert("event"@[0] != "welcome"@[0]);
    }
    assert("ack"@ != "discover"@ && "ack"@ != "offer"@ && "ack"@ != "hello"@ && "ack"@
        != "welcome"@ && "ack"@ != "event"@) by {
        assert("ack"@[0] != "discover"@[0]);
        assert("ack"@[0] != "offer"@[0]);
        assert("ack"@[0] != "hello"@[0]);
        assert("ack"@[0] != "welcome"@[0]);
        assert("ack"@[0] != "event"@[0]);
    }
}

// ---------------------------------------------------------------------------
// Round trips
// ---------------------------------------------------------------------------
/// A newline adds one byte.
proof fn lemma_newline_len(line: Seq<char>)
    ensures
        utf8_len(line + seq!['\n']) == utf8_len(line) + 1,
{
    lemma_encode_utf8_concat(line, seq!['\n']);
    assert(is_ascii_chars(seq!['\n']));
    is_ascii_chars_encode_utf8(seq!['\n']);
}

/// The content of a line sent with its newline is the line.
proof fn lemma_stream_content(line: Seq<char>)
    requires
        line.len() > 0,
        line.last() != '\r',
    ensures
        without_last(without_last(line + seq!['\n'], '\n'), '\r') == line,
{
    let sent = line + seq!['\n'];
    assert(sent.subrange(sent.len() - 1, sent.len() as int) =~= seq!['\n']);
    assert(sent.subrange(0, sent.len() - 1) =~= line);
    assert(line.subrange(line.len() - 1, line.len() as int)[0] == line.last());
}

/// Two acceptable fields: `v=1` and one more.
proof fn lemma_two_fields(kind: MessageKind, key: Seq<char>, value: Seq<char>)
    requires
        allowed_fields(kind)[1] == key,
        allowed_fields(kind)[0] == "v"@,
        is_word(key),
        is_word(value),
        key != "v"@,
    ensures
        acceptable_fields(seq![version_field(), (key, value)], allowed_fields(kind)),
{
    lemma_protocol_words();
    lemma_decimal_word(PROTOCOL_VERSION as nat);
    let fields = seq![version_field(), (key, value)];
    assert forall|i: int| #![trigger fields[i]] 0 <= i < fields.len() implies is_word(fields[i].0)
        && is_word(fields[i].1) && allowed_fields(kind).contains(fields[i].0) by {
        if i == 0 {
            assert(allowed_fields(kind)[0] == fields[i].0);
        } else {
            assert(allowed_fields(kind)[1] == fields[i].0);
        }
    }
}

/// Four acceptable fields: `v=1` and three more, with distinct keys.
proof fn lemma_four_fields(
    kind: MessageKind,
    fields: Seq<(Seq<char>, Seq<char>)>,
)
    requires
        fields.len() == 4,
        fields[0] == version_field(),
        forall|i: int| 0 <= i < 4 ==> #[trigger] allowed_fields(kind)[i] == fields[i].0,
        forall|i: int| 0 < i < 4 ==> is_word(#[trigger] fields[i].1),
        forall|i: int, j: int| 0 <= i < j < 4 ==> #[trigger] fields[i].0 != #[trigger] fields[j].0,
        forall|i: int| 0 <= i < 4 ==> is_word(#[trigger] allowed_fields(kind)[i]),
        allowed_fields(kind).len() == 4,
    ensures
        acceptable_fields(fields, allowed_fields(kind)),
{
    lemma_protocol_words();
    lemma_decimal_word(PROTOCOL_VERSION as nat);
    assert forall|i: int| #![trigger fields[i]] 0 <= i < fields.len() implies is_word(fields[i].0)
        && is_word(fields[i].1) && allowed_fields(kind).contains(fields[i].0) by {
        assert(allowed_fields(kind)[i] == fields[i].0);
        assert(is_word(allowed_fields(kind)[i]));
        if i > 0 {
            assert(is_word(fields[i].1));
        }
    }
}

/// Every discovery message that formats parses back to itself from the
/// bytes of its text.
pub proof fn lemma_discovery_roundtrip(message: DiscoveryView)
    ensures
        format_discovery_spec(message) matches Ok(line) ==> parse_discovery_spec(encode_utf8(line))
            == Ok::<DiscoveryView, crate::transport::ProtocolErrorView>(message),
{
    lemma_protocol_words();
    lemma_decimal_word(PROTOCOL_VERSION as nat);
    if let Ok(line) = format_discovery_spec(message) {
        match message {
            DiscoveryView::Discover { nonce } => {
                lemma_hex_id_word(nonce);
                let fields = seq![version_field(), ("nonce"@, nonce)];
                lemma_two_fields(MessageKind::Discover, "nonce"@, nonce);
                lemma_versioned_line_parses("discover"@, MessageKind::Discover, fields);
                lemma_field_lookup(fields, 1);
                lemma_printable_text(line);
                reveal_with_fuel(joined_fields, 3);
                assert(line.len() <= MAX_DISCOVERY_DATAGRAM_BYTES);
            },
            DiscoveryView::Offer { nonce, companion, port } => {
                lemma_hex_id_word(nonce);
                lemma_hex_id_word(companion);
                lemma_decimal_u16(port);
                lemma_decimal_word(port as nat);
                let fields = seq![
                    version_field(),
                    ("nonce"@, nonce),
                    ("companion"@, companion),
                    ("port"@, decimal(port as nat)),
                ];
                lemma_four_fields(MessageKind::Offer, fields);
                lemma_versioned_line_parses("offer"@, MessageKind::Offer, fields);
                lemma_field_lookup(fields, 1);
                lemma_field_lookup(fields, 2);
                lemma_field_lookup(fields, 3);
                lemma_printable_text(line);
                reveal_with_fuel(joined_fields, 5);
                assert(line.len() <= MAX_DISCOVERY_DATAGRAM_BYTES);
            },
        }
        encode_utf8_valid_utf8(line);
        encode_utf8_decode_utf8(line);
    }
}

/// A versioned line that is not a display line nor a legacy event, sent on
/// the stream, parses as the stream message it carries.
proof fn lemma_versioned_on_stream(line: Seq<char>)
    requires
        line.len() > 0,
        line.last() == ';',
        forall|i: int| 0 <= i < line.len() ==> is_printable(#[trigger] line[i]),
        utf8_len(line + seq!['\n']) - 1 <= crate::transport::MAX_STREAM_FRAME_BYTES,
        display_spec(line) is None,
        legacy_event_spec(line) is None,
    ensures
        parse_stream_spec(line + seq!['\n']) == match parse_versioned_spec(line) {
            Ok(message) => crate::transport_parse::stream_of_versioned(message),
            Err(error) => Err(error),
        },
{
    lemma_stream_content(line);
    lemma_newline_len(line);
    lemma_printable_text(line);
}

proof fn lemma_hello_roundtrip(session: Seq<char>)
    ensures
        format_stream_spec(StreamView::Hello { session }) matches Ok(sent) ==> parse_stream_spec(
            sent,
        ) == Ok::<StreamView, crate::transport::ProtocolErrorView>(StreamView::Hello { session }),
{
    lemma_protocol_words();
    lemma_decimal_word(PROTOCOL_VERSION as nat);
    if let Ok(sent) = format_stream_spec(StreamView::Hello { session }) {
        lemma_hex_id_word(session);
        let fields = seq![version_field(), ("session"@, session)];
        lemma_two_fields(MessageKind::Hello, "session"@, session);
        lemma_versioned_line_parses("hello"@, MessageKind::Hello, fields);
        lemma_field_lookup(fields, 1);
        let line = versioned_line("hello"@, fields);
        assert(sent == line + seq!['\n']);
        assert(line[0] == 'h');
        lemma_differs_at(line, "display "@, 0);
        lemma_differs_at(line, "display: "@, 0);
        lemma_differs_at(line, "display"@, 0);
        lemma_differs_at(line, "display:"@, 0);
        lemma_differs_at(line, "event action="@, 0);
        lemma_versioned_on_stream(line);
    }
}

proof fn lemma_welcome_roundtrip(companion: Seq<char>)
    ensures
        format_stream_spec(StreamView::Welcome { companion }) matches Ok(sent) ==> parse_stream_spec(
            sent,
        ) == Ok::<StreamView, crate::transport::ProtocolErrorView>(StreamView::Welcome { companion }),
{
    lemma_protocol_words();
    lemma_decimal_word(PROTOCOL_VERSION as nat);
    if let Ok(sent) = format_stream_spec(StreamView::Welcome { companion }) {
        lemma_hex_id_word(companion);
        let fields = seq![version_field(), ("companion"@, companion)];
        lemma_two_fields(MessageKind::Welcome, "companion"@, companion);
        lemma_versioned_line_parses("welcome"@, MessageKind::Welcome, fields);
        lemma_field_lookup(fields, 1);
        let line = versioned_line("welcome"@, fields);
        assert(sent == line + seq!['\n']);
        assert(line[0] == 'w');
        lemma_differs_at(line, "display "@, 0);
        lemma_differs_at(line, "display: "@, 0);
        lemma_differs_at(line, "display"@, 0);
        lemma_differs_at(line, "display:"@, 0);
        lemma_differs_at(line, "event action="@, 0);
        lemma_versioned_on_stream(line);
    }
}

proof fn lemma_event_roundtrip(session: Seq<char>, seq: u64, action: Seq<char>)
    ensures
        format_stream_spec(StreamView::Event { session, seq, action }) matches Ok(sent) ==> parse_stream_spec(
            sent,
        ) == Ok::<StreamView, crate::transport::ProtocolErrorView>(StreamView::Event { session, seq, action }),
{
    lemma_protocol_words();
    lemma_decimal_word(PROTOCOL_VERSION as nat);
    if let Ok(sent) = format_stream_spec(StreamView::Event { session, seq, action }) {
        lemma_hex_id_word(session);
        lemma_action_word(action);
        lemma_decimal_u64(seq);
        lemma_decimal_word(seq as nat);
        let fields = seq![
            version_field(),
            ("session"@, session),
            ("seq"@, decimal(seq as nat)),
            ("action"@, action),
        ];
        lemma_four_fields(MessageKind::Event, fields);
        lemma_versioned_line_parses("event"@, MessageKind::Event, fields);
        lemma_field_lookup(fields, 1);
        lemma_field_lookup(fields, 2);
        lemma_field_lookup(fields, 3);
        let line = versioned_line("event"@, fields);
        assert(sent == line + seq!['\n']);
        reveal_with_fuel(joined_fields, 2);
        assert(line[0] == 'e');
        assert(line[6] == 'v');
        lemma_differs_at(line, "display "@, 0);
        lemma_differs_at(line, "display: "@, 0);
        lemma_differs_at(line, "display"@, 0);
        lemma_differs_at(line, "display:"@, 0);
        lemma_differs_at(line, "event action="@, 6);
        lemma_versioned_on_stream(line);
    }
}

proof fn lemma_ack_roundtrip(session: Seq<char>, seq: u64, status: AckStatus)
    ensures
        format_stream_spec(StreamView::Ack { session, seq, status }) matches Ok(sent) ==> parse_stream_spec(
            sent,
        ) == Ok::<StreamView, crate::transport::ProtocolErrorView>(StreamView::Ack { session, seq, status }),
{
    lemma_protocol_words();
    lemma_decimal_word(PROTOCOL_VERSION as nat);
    if let Ok(sent) = format_stream_spec(StreamView::Ack { session, seq, status }) {
        lemma_hex_id_word(session);
        lemma_decimal_u64(seq);
        lemma_decimal_word(seq as nat);
        let fields = seq![
            version_field(),
            ("session"@, session),
            ("seq"@, decimal(seq as nat)),
            ("status"@, ack_status_text(status)),
        ];
        lemma_four_fields(MessageKind::Ack, fields);
        lemma_versioned_line_parses("ack"@, MessageKind::Ack, fields);
        lemma_field_lookup(fields, 1);
        lemma_field_lookup(fields, 2);
        lemma_field_lookup(fields, 3);
        let line = versioned_line("ack"@, fields);
        assert(sent == line + seq!['\n']);
        assert(line[0] == 'a');
        lemma_differs_at(line, "display "@, 0);
        lemma_differs_at(line, "display: "@, 0);
        lemma_differs_at(line, "display"@, 0);
        lemma_differs_at(line, "display:"@, 0);
        lemma_differs_at(line, "event action="@, 0);
        lemma_versioned_on_stream(line);
    }
}

proof fn lemma_display_roundtrip(text: Seq<char>)
    ensures
        format_stream_spec(StreamView::Display { text }) matches Ok(sent) ==> parse_stream_spec(
            sent,
        ) == Ok::<StreamView, crate::transport::ProtocolErrorView>(StreamView::Display { text }),
{
    lemma_protocol_words();
    lemma_decimal_word(PROTOCOL_VERSION as nat);
    if let Ok(sent) = format_stream_spec(StreamView::Display { text }) {
        let line = "display "@ + text;
        assert(sent =~= line + seq!['\n']);
        assert(line.last() == text.last());
        assert(!crate::text::is_control(text[text.len() - 1]));
        lemma_stream_content(line);
        lemma_newline_len(line);
        lemma_strip_prefix_concat("display "@, text);
        assert(!has_control(line)) by {
            reveal_strlit("display ");
            if has_control(line) {
                let i = choose|i: int| 0 <= i < line.len() && crate::text::is_control(
                    #[trigger] line[i],
                );
                if i >= 8 {
                    assert(line[i] == text[i - 8]);
                }
            }
        }
    }
}

proof fn lemma_legacy_event_roundtrip(action: Seq<char>)
    ensures
        format_stream_spec(StreamView::LegacyEvent { action }) matches Ok(sent) ==> parse_stream_spec(
            sent,
        ) == Ok::<StreamView, crate::transport::ProtocolErrorView>(StreamView::LegacyEvent { action }),
{
    lemma_protocol_words();
    lemma_decimal_word(PROTOCOL_VERSION as nat);
    if let Ok(sent) = format_stream_spec(StreamView::LegacyEvent { action }) {
        lemma_action_word(action);
        let line = "event action="@ + action + seq![';'];
        assert(sent =~= line + seq!['\n']);
        lemma_stream_content(line);
        lemma_newline_len(line);
        assert(line =~= "event action="@ + (action + seq![';']));
        lemma_strip_prefix_concat("event action="@, action + seq![';']);
        let rest = action + seq![';'];
        assert(rest.subrange(rest.len() - 1, rest.len() as int) =~= seq![';']);
        assert(rest.subrange(0, rest.len() - 1) =~= action);
        assert(line[0] == 'e');
        lemma_differs_at(line, "display "@, 0);
        lemma_differs_at(line, "display: "@, 0);
        lemma_differs_at(line, "display"@, 0);
        lemma_differs_at(line, "display:"@, 0);
        assert forall|i: int| 0 <= i < line.len() implies is_printable(#[trigger] line[i]) by {
            reveal_strlit("event action=");
            if 13 <= i < line.len() - 1 {
                assert(line[i] == action[i - 13]);
                assert(is_word_char(action[i - 13]));
            }
        }
        lemma_printable_text(line);
    }
}

/// Every stream message that formats parses back to itself from its line.
pub proof fn lemma_stream_roundtrip(message: StreamView)
    ensures
        format_stream_spec(message) matches Ok(line) ==> parse_stream_spec(line) == Ok::<
            StreamView,
            crate::transport::ProtocolErrorView,
        >(message),
{
    match message {
        StreamView::Hello { session } => lemma_hello_roundtrip(session),
        StreamView::Welcome { companion } => lemma_welcome_roundtrip(companion),
        StreamView::Event { session, seq, action } => lemma_event_roundtrip(session, seq, action),
        StreamView::Ack { session, seq, status } => lemma_ack_roundtrip(session, seq, status),
        StreamView::Display { text } => lemma_display_roundtrip(text),
        StreamView::LegacyEvent { action } => lemma_legacy_event_roundtrip(action),
    }
}

/// A valid action formats as a legacy event line.
pub proof fn lemma_legacy_event_formats(action: Seq<char>)
    requires
        valid_action(action),
    ensures
        format_stream_spec(StreamView::LegacyEvent { action }) == Ok::<
            Seq<char>,
            crate::transport::ProtocolErrorView,
        >("event action="@ + action + seq![';', '\n']),
{
    lemma_action_word(action);
    reveal_strlit("event action=");
    let body = "event action="@ + action + seq![';'];
    assert forall|i: int| 0 <= i < body.len() implies is_printable(#[trigger] body[i]) by {
        if 13 <= i < body.len() - 1 {
            assert(body[i] == action[i - 13]);
            assert(is_word_char(action[i - 13]));
        }
    }
    lemma_printable_text(body);
    lemma_newline_len(body);
    assert(body + seq!['\n'] =~= "event action="@ + action + seq![';', '\n']);
}


proof fn lemma_byte_hex(byte: u8)
    ensures
        zero_padded(hex(byte as nat), 2).len() == 2,
        forall|i: int| 0 <= i < 2 ==> is_hex_char(#[trigger] zero_padded(hex(byte as nat), 2)[i]),
{
    reveal_with_fuel(hex, 2);
    let high = (byte / 16) as nat;
    let low = (byte % 16) as nat;
    assert(is_hex_char(hex_digit(high)));
    assert(is_hex_char(hex_digit(low)));
    if byte < 16 {
        assert(zero_padded(hex(byte as nat), 2) =~= seq!['0', hex_digit(byte as nat)]);
    } else {
        assert(hex(high) =~= seq![hex_digit(high)]);
        assert(zero_padded(hex(byte as nat), 2) =~= seq![hex_digit(high), hex_digit(low)]);
    }
}

proof fn lemma_hex_bytes_shape(bytes: Seq<u8>)
    ensures
        hex_bytes(bytes).len() == 2 * bytes.len(),
        forall|i: int| 0 <= i < hex_bytes(bytes).len() ==> is_hex_char(#[trigger] hex_bytes(bytes)[i]),
    decreases bytes.len(),
{
    if bytes.len() > 0 {
        let rest = bytes.drop_last();
        lemma_hex_bytes_shape(rest);
        lemma_byte_hex(bytes.last());
        let pair = zero_padded(hex(bytes.last() as nat), 2);
        assert forall|i: int| 0 <= i < hex_bytes(bytes).len() implies is_hex_char(
            #[trigger] hex_bytes(bytes)[i],
        ) by {
            if i < hex_bytes(rest).len() {
                assert(hex_bytes(bytes)[i] == hex_bytes(rest)[i]);
            } else {
                assert(hex_bytes(bytes)[i] == pair[i - hex_bytes(rest).len()]);
            }
        }
    }
}

/// Sixteen random bytes always give an identifier of the protocol's shape:
/// thirty-two hexadecimal digits.
pub proof fn lemma_generated_id_is_valid(random: Seq<u8>)
    requires
        random.len() == 16,
    ensures
        valid_hex_id(hex_bytes(random)),
{
    lemma_hex_bytes_shape(random);
}


/// Whether every field of a stream message is valid: identifiers of 32
/// hexadecimal digits, action names of 1 to 64 `[a-z0-9._-]` characters,
/// display text of 1 to 256 bytes with no control character.
pub open spec fn stream_fields_valid(message: StreamView) -> bool {
    match message {
        StreamView::Hello { session } => valid_hex_id(session),
        StreamView::Welcome { companion } => valid_hex_id(companion),
        StreamView::Event { session, action, .. } => valid_hex_id(session) && valid_action(action),
        StreamView::Ack { session, .. } => valid_hex_id(session),
        StreamView::Display { text } => display_text_error(text) is None,
        StreamView::LegacyEvent { action } => valid_action(action),
    }
}

/// Ten to the power `exponent`.
spec fn pow10(exponent: nat) -> nat
    decreases exponent,
{
    if exponent == 0 {
        1
    } else {
        10 * pow10((exponent - 1) as nat)
    }
}

proof fn lemma_decimal_len(value: nat, digits: nat)
    requires
        digits >= 1,
        value < pow10(digits),
    ensures
        decimal(value).len() <= digits,
    decreases digits,
{
    if value >= 10 {
        let rest = (digits - 1) as nat;
        if digits == 1 {
            assert(pow10(1) == 10) by {
                reveal_with_fuel(pow10, 2);
            }
        }
        assert(value / 10 < pow10(rest)) by (nonlinear_arith)
            requires
                value < 10 * pow10(rest),
        ;
        lemma_decimal_len(value / 10, rest);
    }
}

proof fn lemma_u64_decimal_len(value: u64)
    ensures
        decimal(value as nat).len() <= 20,
{
    assert(pow10(20) == 100000000000000000000) by {
        reveal_with_fuel(pow10, 21);
    }
    lemma_decimal_len(value as nat, 20);
}

/// Every character encodes to at most four bytes.
proof fn lemma_utf8_len_bound(text: Seq<char>)
    ensures
        utf8_len(text) <= 4 * text.len(),
    decreases text.len(),
{
    if text.len() > 0 {
        lemma_utf8_len_bound(text.drop_first());
    }
}

/// A stream message formats exactly when its fields are valid: no valid
/// message outgrows the frame limit. Its line ends with the newline and
/// parses back to the message.
pub proof fn lemma_stream_format_succeeds_exactly_on_valid_fields(message: StreamView)
    ensures
        format_stream_spec(message) is Ok <==> stream_fields_valid(message),
        format_stream_spec(message) matches Ok(line) ==> line.len() > 0 && line.last() == '\n'
            && parse_stream_spec(line) == Ok::<StreamView, crate::transport::ProtocolErrorView>(
            message,
        ),
{
    lemma_stream_roundtrip(message);
    if let Ok(line) = stream_line_spec(message) {
        reveal_with_fuel(joined_fields, 5);
        lemma_utf8_len_bound(line);
        match message {
            StreamView::Event { seq, .. } => {
                lemma_u64_decimal_len(seq);
                reveal_strlit("event");
                reveal_strlit("v");
                reveal_strlit("session");
                reveal_strlit("seq");
                reveal_strlit("action");
                assert(decimal(PROTOCOL_VERSION as nat).len() == 1);
            },
            StreamView::Ack { seq, .. } => {
                lemma_u64_decimal_len(seq);
                reveal_strlit("ack");
                reveal_strlit("v");
                reveal_strlit("session");
                reveal_strlit("seq");
                reveal_strlit("status");
                reveal_strlit("logged");
                assert(decimal(PROTOCOL_VERSION as nat).len() == 1);
            },
            StreamView::Hello { .. } => {
                reveal_strlit("hello");
                reveal_strlit("v");
                reveal_strlit("session");
                assert(decimal(PROTOCOL_VERSION as nat).len() == 1);
            },
            StreamView::Welcome { .. } => {
                reveal_strlit("welcome");
                reveal_strlit("v");
                reveal_strlit("companion");
                assert(decimal(PROTOCOL_VERSION as nat).len() == 1);
            },
            StreamView::LegacyEvent { .. } => {
                reveal_strlit("event action=");
            },
            StreamView::Display { text } => {
                reveal_strlit("display ");
                lemma_encode_utf8_concat("display "@ + text, seq!['\n']);
                lemma_encode_utf8_concat("display "@, text);
                lemma_utf8_len_bound("display "@);
                lemma_utf8_len_bound(seq!['\n']);
            },
        }
    }
}

} // verus!
