//! Parsing of the line protocol: versioned envelopes, display text and the
//! legacy event form, with the channel each message may travel on.
use crate::text::{
    any_control, chars_equal, push_decimal, chars_to_string, find_char, first_index_of, has_prefix,
    lemma_first_index_of, parse_u16, parse_u16_spec, parse_u64, parse_u64_spec, split_tokens,
    starts_with, str_to_chars, strip_prefix, strip_suffix, sub_chars, token_views, tokens, trim,
    trimmed, utf8_decode,
};
use crate::transport::{
    PROTOCOL_VERSION, ack_status_text, display_text_error, has_control, invalid, invalid_view, string_utf8_len,
    utf8_len, valid_action, version_field, valid_hex_id, validate_action, validate_display_text, validate_hex_id,
    AckStatus, DiscoveryMessage, DiscoveryView, ProtocolError, ProtocolErrorView, StreamMessage,
    StreamView, MAX_DISCOVERY_DATAGRAM_BYTES, result_view, MAX_STREAM_FRAME_BYTES,
};
use vstd::prelude::*;
use vstd::utf8::{decode_utf8, valid_utf8};

verus! {

// ---------------------------------------------------------------------------
// Fields
// ---------------------------------------------------------------------------
/// The key of a `key=value` token: what precedes its first `=`.
pub open spec fn field_key(token: Seq<char>) -> Seq<char> {
    match first_index_of(token, '=') {
        Some(index) => token.take(index as int),
        None => token,
    }
}

/// The value of a `key=value` token: what follows its first `=`.
pub open spec fn field_value(token: Seq<char>) -> Seq<char> {
    match first_index_of(token, '=') {
        Some(index) => token.skip(index + 1int),
        None => Seq::empty(),
    }
}

/// The keys of `tokens`.
pub open spec fn field_keys(tokens: Seq<Seq<char>>) -> Seq<Seq<char>> {
    tokens.map_values(|token: Seq<char>| field_key(token))
}

/// Why a token is refused after tokens with the keys `seen`, if it is: it
/// must be `key=value` with a non-empty key, a non-empty value without `=`, a
/// key not seen before, and a key that is allowed or starts with `x-`.
pub open spec fn field_token_error(
    token: Seq<char>,
    seen: Seq<Seq<char>>,
    allowed: Seq<Seq<char>>,
) -> Option<ProtocolErrorView> {
    match first_index_of(token, '=') {
        None => Some(ProtocolErrorView::MalformedField(token)),
        Some(index) => {
            let key = token.take(index as int);
            let value = token.skip(index + 1int);
            if key.len() == 0 || value.len() == 0 || value.contains('=') {
                Some(ProtocolErrorView::MalformedField(token))
            } else if seen.contains(key) {
                Some(ProtocolErrorView::DuplicateField(key))
            } else if allowed.contains(key) || starts_with(key, "x-"@) {
                None
            } else {
                Some(ProtocolErrorView::UnknownField(key))
            }
        },
    }
}

/// The first refused token from `start` on, in order.
pub open spec fn fields_error(tokens: Seq<Seq<char>>, allowed: Seq<Seq<char>>, start: nat) -> Option<
    ProtocolErrorView,
>
    decreases tokens.len() - start,
{
    if start >= tokens.len() {
        None
    } else {
        match field_token_error(tokens[start as int], field_keys(tokens.take(start as int)), allowed) {
            Some(error) => Some(error),
            None => fields_error(tokens, allowed, start + 1),
        }
    }
}

/// The value of the first token whose key is `name`.
pub open spec fn field_lookup(tokens: Seq<Seq<char>>, name: Seq<char>) -> Option<Seq<char>>
    decreases tokens.len(),
{
    if tokens.len() == 0 {
        None
    } else if field_key(tokens[0]) == name {
        Some(field_value(tokens[0]))
    } else {
        field_lookup(tokens.drop_first(), name)
    }
}

/// A required field: its value, or `MissingField`.
pub open spec fn required_spec(tokens: Seq<Seq<char>>, name: Seq<char>) -> Result<
    Seq<char>,
    ProtocolErrorView,
> {
    match field_lookup(tokens, name) {
        Some(value) => Ok(value),
        None => Err(ProtocolErrorView::MissingField(name)),
    }
}

// ---------------------------------------------------------------------------
// Versioned envelopes
// ---------------------------------------------------------------------------
/// The kinds of versioned message.
#[derive(Clone, Copy, Debug, PartialEq, Eq, Structural)]
pub enum MessageKind {
    Discover,
    Offer,
    Hello,
    Welcome,
    Event,
    Ack,
}

/// The kind named by `name`, if any.
pub open spec fn message_kind(name: Seq<char>) -> Option<MessageKind> {
    if name == "discover"@ {
        Some(MessageKind::Discover)
    } else if name == "offer"@ {
        Some(MessageKind::Offer)
    } else if name == "hello"@ {
        Some(MessageKind::Hello)
    } else if name == "welcome"@ {
        Some(MessageKind::Welcome)
    } else if name == "event"@ {
        Some(MessageKind::Event)
    } else if name == "ack"@ {
        Some(MessageKind::Ack)
    } else {
        None
    }
}

/// The field names a kind of message may carry.
pub open spec fn allowed_fields(kind: MessageKind) -> Seq<Seq<char>> {
    match kind {
        MessageKind::Discover => seq!["v"@, "nonce"@],
        MessageKind::Offer => seq!["v"@, "nonce"@, "companion"@, "port"@],
        MessageKind::Hello => seq!["v"@, "session"@],
        MessageKind::Welcome => seq!["v"@, "companion"@],
        MessageKind::Event => seq!["v"@, "session"@, "seq"@, "action"@],
        MessageKind::Ack => seq!["v"@, "session"@, "seq"@, "status"@],
    }
}

/// The content of a versioned message.
pub enum VersionedView {
    Discover { nonce: Seq<char> },
    Offer { nonce: Seq<char>, companion: Seq<char>, port: u16 },
    Hello { session: Seq<char> },
    Welcome { companion: Seq<char> },
    Event { session: Seq<char>, seq: u64, action: Seq<char> },
    Ack { session: Seq<char>, seq: u64, status: AckStatus },
}

/// The `seq` field: its value as a `u64`.
pub open spec fn seq_spec(tokens: Seq<Seq<char>>) -> Result<u64, ProtocolErrorView> {
    match required_spec(tokens, "seq"@) {
        Err(error) => Err(error),
        Ok(text) => match parse_u64_spec(text) {
            Some(value) => Ok(value),
            None => Err(invalid_view("seq"@, text)),
        },
    }
}

/// A message of a known kind, from its checked fields.
pub open spec fn versioned_body_spec(kind: MessageKind, tokens: Seq<Seq<char>>) -> Result<
    VersionedView,
    ProtocolErrorView,
> {
    match kind {
        MessageKind::Discover => match required_spec(tokens, "nonce"@) {
            Err(error) => Err(error),
            Ok(nonce) => if !valid_hex_id(nonce) {
                Err(invalid_view("nonce"@, nonce))
            } else {
                Ok(VersionedView::Discover { nonce })
            },
        },
        MessageKind::Offer => match required_spec(tokens, "nonce"@) {
            Err(error) => Err(error),
            Ok(nonce) => match required_spec(tokens, "companion"@) {
                Err(error) => Err(error),
                Ok(companion) => match required_spec(tokens, "port"@) {
                    Err(error) => Err(error),
                    Ok(port_text) => match parse_u16_spec(port_text) {
                        None => Err(invalid_view("port"@, port_text)),
                        Some(port) => if !valid_hex_id(nonce) {
                            Err(invalid_view("nonce"@, nonce))
                        } else if !valid_hex_id(companion) {
                            Err(invalid_view("companion"@, companion))
                        } else if port == 0 {
                            Err(invalid_view("port"@, "0"@))
                        } else {
                            Ok(VersionedView::Offer { nonce, companion, port })
                        },
                    },
                },
            },
        },
        MessageKind::Hello => match required_spec(tokens, "session"@) {
            Err(error) => Err(error),
            Ok(session) => if !valid_hex_id(session) {
                Err(invalid_view("session"@, session))
            } else {
                Ok(VersionedView::Hello { session })
            },
        },
        MessageKind::Welcome => match required_spec(tokens, "companion"@) {
            Err(error) => Err(error),
            Ok(companion) => if !valid_hex_id(companion) {
                Err(invalid_view("companion"@, companion))
            } else {
                Ok(VersionedView::Welcome { companion })
            },
        },
        MessageKind::Event => match required_spec(tokens, "session"@) {
            Err(error) => Err(error),
            Ok(session) => match seq_spec(tokens) {
                Err(error) => Err(error),
                Ok(seq) => match required_spec(tokens, "action"@) {
                    Err(error) => Err(error),
                    Ok(action) => if !valid_hex_id(session) {
                        Err(invalid_view("session"@, session))
                    } else if !valid_action(action) {
                        Err(invalid_view("action"@, action))
                    } else {
                        Ok(VersionedView::Event { session, seq, action })
                    },
                },
            },
        },
        MessageKind::Ack => match required_spec(tokens, "session"@) {
            Err(error) => Err(error),
            Ok(session) => match seq_spec(tokens) {
                Err(error) => Err(error),
                Ok(seq) => match required_spec(tokens, "status"@) {
                    Err(error) => Err(error),
                    Ok(status) => if status != ack_status_text(AckStatus::Logged) {
                        Err(invalid_view("status"@, status))
                    } else if !valid_hex_id(session) {
                        Err(invalid_view("session"@, session))
                    } else {
                        Ok(VersionedView::Ack { session, seq, status: AckStatus::Logged })
                    },
                },
            },
        },
    }
}

/// What parsing a versioned envelope gives: the `;` terminator, no
/// surrounding whitespace, a known kind before the first space, acceptable
/// fields after it, `v=1`, and the kind's own fields.
pub open spec fn parse_versioned_spec(line: Seq<char>) -> Result<VersionedView, ProtocolErrorView> {
    match strip_suffix(line, seq![';']) {
        None => Err(ProtocolErrorView::MissingTerminator),
        Some(body) => if trim(body) != body {
            Err(ProtocolErrorView::MalformedField(body))
        } else {
            match first_index_of(body, ' ') {
                None => Err(ProtocolErrorView::UnknownMessage(body)),
                Some(index) => {
                    let name = body.take(index as int);
                    let rest = body.skip(index + 1int);
                    match message_kind(name) {
                        None => Err(ProtocolErrorView::UnknownMessage(name)),
                        Some(kind) => {
                            let fields = tokens(rest, true);
                            match fields_error(fields, allowed_fields(kind), 0) {
                                Some(error) => Err(error),
                                None => match required_spec(fields, "v"@) {
                                    Err(error) => Err(error),
                                    Ok(version) => if version != version_field().1 {
                                        Err(ProtocolErrorView::UnsupportedVersion(version))
                                    } else {
                                        versioned_body_spec(kind, fields)
                                    },
                                },
                            }
                        },
                    }
                },
            }
        },
    }
}

// ---------------------------------------------------------------------------
// Executable parsing
// ---------------------------------------------------------------------------
/// The key and value of a token.
fn split_field(token: &[char]) -> (parts: (Vec<char>, Vec<char>))
    ensures
        parts.0@ == field_key(token@),
        parts.1@ == field_value(token@),
{
    let len = token.len();
    proof {
        lemma_first_index_of(token@, '=');
    }
    match find_char(token, '=') {
        Some(index) => {
            let key = sub_chars(token, 0, index);
            let value = sub_chars(token, index + 1, len);
            proof {
                assert(key@ =~= token@.take(index as int));
                assert(value@ =~= token@.skip(index + 1int));
            }
            (key, value)
        },
        None => {
            let key = sub_chars(token, 0, token.len());
            assert(key@ =~= token@);
            (key, Vec::new())
        },
    }
}

/// Whether `name` is among `names`.
fn contains_name(names: &Vec<Vec<char>>, name: &[char]) -> (found: bool)
    ensures
        found == token_views(names@).contains(name@),
{
    let mut index: usize = 0;
    while index < names.len()
        invariant
            index <= names@.len(),
            forall|i: int| 0 <= i < index ==> names@[i]@ != name@,
        decreases names@.len() - index,
    {
        if chars_equal(names[index].as_slice(), name) {
            assert(token_views(names@)[index as int] == name@);
            return true;
        }
        index = index + 1;
    }
    proof {
        if token_views(names@).contains(name@) {
            let i = choose|i: int| 0 <= i < token_views(names@).len() && token_views(names@)[i] == name@;
            assert(names@[i]@ == name@);
        }
    }
    false
}

/// Whether `name` equals the text `literal`.
fn is_named(name: &[char], literal: &str) -> (result: bool)
    ensures
        result == (name@ == literal@),
{
    let expected = str_to_chars(literal);
    chars_equal(name, expected.as_slice())
}

/// Whether a kind of message allows the field `key`.
fn is_allowed(kind: MessageKind, key: &[char]) -> (result: bool)
    ensures
        result == allowed_fields(kind).contains(key@),
{
    let v = is_named(key, "v");
    let result = match kind {
        MessageKind::Discover => v || is_named(key, "nonce"),
        MessageKind::Offer => v || is_named(key, "nonce") || is_named(key, "companion") || is_named(
            key,
            "port",
        ),
        MessageKind::Hello => v || is_named(key, "session"),
        MessageKind::Welcome => v || is_named(key, "companion"),
        MessageKind::Event => v || is_named(key, "session") || is_named(key, "seq") || is_named(
            key,
            "action",
        ),
        MessageKind::Ack => v || is_named(key, "session") || is_named(key, "seq") || is_named(
            key,
            "status",
        ),
    };
    proof {
        let allowed = allowed_fields(kind);
        if result {
            if key@ == "v"@ {
                assert(allowed[0] == key@);
            } else {
                assert(exists|i: int| 0 <= i < allowed.len() && allowed[i] == key@);
            }
        } else {
            assert forall|i: int| 0 <= i < allowed.len() implies allowed[i] != key@ by {}
        }
    }
    result
}

/// The key of `token` when it is acceptable after `earlier`, or the error.
fn check_field(token: &[char], keys: &Vec<Vec<char>>, kind: MessageKind) -> (result: Result<
    Vec<char>,
    ProtocolError,
>)
    ensures
        match result {
            Ok(key) => key@ == field_key(token@) && field_token_error(
                token@,
                token_views(keys@),
                allowed_fields(kind),
            ) is None,
            Err(error) => field_token_error(token@, token_views(keys@), allowed_fields(kind))
                == Some(error@),
        },
{
    let index = match find_char(token, '=') {
        Some(index) => index,
        None => return Err(ProtocolError::MalformedField(chars_to_string(token))),
    };
    let len = token.len();
    proof {
        lemma_first_index_of(token@, '=');
    }
    let key = sub_chars(token, 0, index);
    let value = sub_chars(token, index + 1, len);
    proof {
        assert(key@ =~= token@.take(index as int));
        assert(value@ =~= token@.skip(index + 1int));
    }
    if key.len() == 0 || value.len() == 0 || crate::text::contains_char(value.as_slice(), '=') {
        return Err(ProtocolError::MalformedField(chars_to_string(token)));
    }
    if contains_name(keys, key.as_slice()) {
        return Err(ProtocolError::DuplicateField(chars_to_string(key.as_slice())));
    }
    if is_allowed(kind, key.as_slice()) {
        return Ok(key);
    }
    let extension = str_to_chars("x-");
    if has_prefix(key.as_slice(), extension.as_slice()) {
        return Ok(key);
    }
    Err(ProtocolError::UnknownField(chars_to_string(key.as_slice())))
}

/// Check every token of `rest` as a field of a `kind` message.
fn parse_fields(rest: &[char], kind: MessageKind) -> (result: Result<Vec<Vec<char>>, ProtocolError>)
    ensures
        match result {
            Ok(fields) => token_views(fields@) == tokens(rest@, true) && fields_error(
                tokens(rest@, true),
                allowed_fields(kind),
                0,
            ) is None,
            Err(error) => fields_error(tokens(rest@, true), allowed_fields(kind), 0) == Some(
                error@,
            ),
        },
{
    let fields = split_tokens(rest, true);
    let ghost all = token_views(fields@);
    let ghost allowed = allowed_fields(kind);
    let mut keys: Vec<Vec<char>> = Vec::new();
    let mut index: usize = 0;
    assert(field_keys(all.take(0)) =~= token_views(keys@));
    while index < fields.len()
        invariant
            all == token_views(fields@),
            all == tokens(rest@, true),
            allowed == allowed_fields(kind),
            index <= fields@.len(),
            token_views(keys@) == field_keys(all.take(index as int)),
            fields_error(all, allowed, 0) == fields_error(all, allowed, index as nat),
        decreases fields@.len() - index,
    {
        assert(all[index as int] == fields@[index as int]@);
        match check_field(fields[index].as_slice(), &keys, kind) {
            Err(error) => {
                return Err(error);
            },
            Ok(key) => {
                let ghost before = keys@;
                keys.push(key);
                proof {
                    assert(all.take(index + 1) =~= all.take(index as int).push(all[index as int]));
                    assert(token_views(keys@) =~= token_views(before).push(key@));
                    assert(field_keys(all.take(index + 1)) =~= field_keys(all.take(index as int)).push(
                        field_key(all[index as int]),
                    ));
                }
                index = index + 1;
            },
        }
    }
    Ok(fields)
}

/// The value of the required field `name`.
fn required(fields: &Vec<Vec<char>>, name: &'static str) -> (result: Result<Vec<char>, ProtocolError>)
    ensures
        match result {
            Ok(value) => required_spec(token_views(fields@), name@) == Ok::<
                Seq<char>,
                ProtocolErrorView,
            >(value@),
            Err(error) => required_spec(token_views(fields@), name@) == Err::<
                Seq<char>,
                ProtocolErrorView,
            >(error@),
        },
{
    let ghost all = token_views(fields@);
    let wanted = str_to_chars(name);
    let mut index: usize = 0;
    assert(all.skip(0) =~= all);
    while index < fields.len()
        invariant
            all == token_views(fields@),
            wanted@ == name@,
            index <= fields@.len(),
            field_lookup(all, name@) == field_lookup(all.skip(index as int), name@),
        decreases fields@.len() - index,
    {
        let (key, value) = split_field(fields[index].as_slice());
        proof {
            assert(all.skip(index as int)[0] == fields@[index as int]@);
            assert(all.skip(index as int).drop_first() =~= all.skip(index + 1));
        }
        if chars_equal(key.as_slice(), wanted.as_slice()) {
            return Ok(value);
        }
        index = index + 1;
    }
    Err(ProtocolError::MissingField(name))
}

/// The kind of message named `name`.
fn kind_of(name: &[char]) -> (kind: Option<MessageKind>)
    ensures
        kind == message_kind(name@),
{
    if is_named(name, "discover") {
        Some(MessageKind::Discover)
    } else if is_named(name, "offer") {
        Some(MessageKind::Offer)
    } else if is_named(name, "hello") {
        Some(MessageKind::Hello)
    } else if is_named(name, "welcome") {
        Some(MessageKind::Welcome)
    } else if is_named(name, "event") {
        Some(MessageKind::Event)
    } else if is_named(name, "ack") {
        Some(MessageKind::Ack)
    } else {
        None
    }
}

/// A parsed versioned message.
enum ParsedVersioned {
    Discover { nonce: String },
    Offer { nonce: String, companion: String, port: u16 },
    Hello { session: String },
    Welcome { companion: String },
    Event { session: String, seq: u64, action: String },
    Ack { session: String, seq: u64, status: AckStatus },
}

impl View for ParsedVersioned {
    type V = VersionedView;

    closed spec fn view(&self) -> VersionedView {
        match self {
            ParsedVersioned::Discover { nonce } => VersionedView::Discover { nonce: nonce@ },
            ParsedVersioned::Offer { nonce, companion, port } => VersionedView::Offer {
                nonce: nonce@,
                companion: companion@,
                port: *port,
            },
            ParsedVersioned::Hello { session } => VersionedView::Hello { session: session@ },
            ParsedVersioned::Welcome { companion } => VersionedView::Welcome {
                companion: companion@,
            },
            ParsedVersioned::Event { session, seq, action } => VersionedView::Event {
                session: session@,
                seq: *seq,
                action: action@,
            },
            ParsedVersioned::Ack { session, seq, status } => VersionedView::Ack {
                session: session@,
                seq: *seq,
                status: *status,
            },
        }
    }
}

/// The `seq` field as a number.
fn parse_seq(fields: &Vec<Vec<char>>) -> (result: Result<u64, ProtocolError>)
    ensures
        match result {
            Ok(value) => seq_spec(token_views(fields@)) == Ok::<u64, ProtocolErrorView>(value),
            Err(error) => seq_spec(token_views(fields@)) == Err::<u64, ProtocolErrorView>(error@),
        },
{
    let text = match required(fields, "seq") {
        Ok(text) => text,
        Err(error) => return Err(error),
    };
    match parse_u64(text.as_slice()) {
        Some(value) => Ok(value),
        None => Err(invalid("seq", text.as_slice())),
    }
}

fn offer_body(fields: &Vec<Vec<char>>) -> (result: Result<ParsedVersioned, ProtocolError>)
    ensures
        match result {
            Ok(parsed) => versioned_body_spec(MessageKind::Offer, token_views(fields@)) == Ok::<
                VersionedView,
                ProtocolErrorView,
            >(parsed@),
            Err(error) => versioned_body_spec(MessageKind::Offer, token_views(fields@)) == Err::<
                VersionedView,
                ProtocolErrorView,
            >(error@),
        },
{
    let nonce = match required(fields, "nonce") {
        Ok(value) => value,
        Err(error) => return Err(error),
    };
    let companion = match required(fields, "companion") {
        Ok(value) => value,
        Err(error) => return Err(error),
    };
    let port_text = match required(fields, "port") {
        Ok(value) => value,
        Err(error) => return Err(error),
    };
    let port = match parse_u16(port_text.as_slice()) {
        Some(port) => port,
        None => return Err(invalid("port", port_text.as_slice())),
    };
    if let Err(error) = validate_hex_id("nonce", nonce.as_slice()) {
        return Err(error);
    }
    if let Err(error) = validate_hex_id("companion", companion.as_slice()) {
        return Err(error);
    }
    if let Err(error) = crate::transport::validate_port(port) {
        return Err(error);
    }
    Ok(
        ParsedVersioned::Offer {
            nonce: chars_to_string(nonce.as_slice()),
            companion: chars_to_string(companion.as_slice()),
            port,
        },
    )
}

fn event_body(fields: &Vec<Vec<char>>) -> (result: Result<ParsedVersioned, ProtocolError>)
    ensures
        match result {
            Ok(parsed) => versioned_body_spec(MessageKind::Event, token_views(fields@)) == Ok::<
                VersionedView,
                ProtocolErrorView,
            >(parsed@),
            Err(error) => versioned_body_spec(MessageKind::Event, token_views(fields@)) == Err::<
                VersionedView,
                ProtocolErrorView,
            >(error@),
        },
{
    let session = match required(fields, "session") {
        Ok(value) => value,
        Err(error) => return Err(error),
    };
    let seq = match parse_seq(fields) {
        Ok(value) => value,
        Err(error) => return Err(error),
    };
    let action = match required(fields, "action") {
        Ok(value) => value,
        Err(error) => return Err(error),
    };
    if let Err(error) = validate_hex_id("session", session.as_slice()) {
        return Err(error);
    }
    if let Err(error) = validate_action(action.as_slice()) {
        return Err(error);
    }
    Ok(
        ParsedVersioned::Event {
            session: chars_to_string(session.as_slice()),
            seq,
            action: chars_to_string(action.as_slice()),
        },
    )
}

fn ack_body(fields: &Vec<Vec<char>>) -> (result: Result<ParsedVersioned, ProtocolError>)
    ensures
        match result {
            Ok(parsed) => versioned_body_spec(MessageKind::Ack, token_views(fields@)) == Ok::<
                VersionedView,
                ProtocolErrorView,
            >(parsed@),
            Err(error) => versioned_body_spec(MessageKind::Ack, token_views(fields@)) == Err::<
                VersionedView,
                ProtocolErrorView,
            >(error@),
        },
{
    let session = match required(fields, "session") {
        Ok(value) => value,
        Err(error) => return Err(error),
    };
    let seq = match parse_seq(fields) {
        Ok(value) => value,
        Err(error) => return Err(error),
    };
    let status = match required(fields, "status") {
        Ok(value) => value,
        Err(error) => return Err(error),
    };
    if !is_named(status.as_slice(), AckStatus::Logged.as_str()) {
        return Err(invalid("status", status.as_slice()));
    }
    if let Err(error) = validate_hex_id("session", session.as_slice()) {
        return Err(error);
    }
    Ok(
        ParsedVersioned::Ack {
            session: chars_to_string(session.as_slice()),
            seq,
            status: AckStatus::Logged,
        },
    )
}

/// A single hexadecimal identifier field.
fn id_field(fields: &Vec<Vec<char>>, name: &'static str) -> (result: Result<String, ProtocolError>)
    ensures
        match result {
            Ok(value) => required_spec(token_views(fields@), name@) == Ok::<
                Seq<char>,
                ProtocolErrorView,
            >(value@) && valid_hex_id(value@),
            Err(error) => match required_spec(token_views(fields@), name@) {
                Ok(value) => !valid_hex_id(value) && error@ == invalid_view(name@, value),
                Err(missing) => missing == error@,
            },
        },
{
    let value = match required(fields, name) {
        Ok(value) => value,
        Err(error) => return Err(error),
    };
    if let Err(error) = validate_hex_id(name, value.as_slice()) {
        return Err(error);
    }
    Ok(chars_to_string(value.as_slice()))
}

/// A message of a known kind, from its checked fields.
fn versioned_body(kind: MessageKind, fields: &Vec<Vec<char>>) -> (result: Result<
    ParsedVersioned,
    ProtocolError,
>)
    ensures
        match result {
            Ok(parsed) => versioned_body_spec(kind, token_views(fields@)) == Ok::<
                VersionedView,
                ProtocolErrorView,
            >(parsed@),
            Err(error) => versioned_body_spec(kind, token_views(fields@)) == Err::<
                VersionedView,
                ProtocolErrorView,
            >(error@),
        },
{
    match kind {
        MessageKind::Discover => match id_field(fields, "nonce") {
            Ok(nonce) => Ok(ParsedVersioned::Discover { nonce }),
            Err(error) => Err(error),
        },
        MessageKind::Offer => offer_body(fields),
        MessageKind::Hello => match id_field(fields, "session") {
            Ok(session) => Ok(ParsedVersioned::Hello { session }),
            Err(error) => Err(error),
        },
        MessageKind::Welcome => match id_field(fields, "companion") {
            Ok(companion) => Ok(ParsedVersioned::Welcome { companion }),
            Err(error) => Err(error),
        },
        MessageKind::Event => event_body(fields),
        MessageKind::Ack => ack_body(fields),
    }
}

/// Parse a versioned envelope.
fn parse_versioned(line: &[char]) -> (result: Result<ParsedVersioned, ProtocolError>)
    ensures
        match result {
            Ok(parsed) => parse_versioned_spec(line@) == Ok::<VersionedView, ProtocolErrorView>(
                parsed@,
            ),
            Err(error) => parse_versioned_spec(line@) == Err::<VersionedView, ProtocolErrorView>(
                error@,
            ),
        },
{
    let len = line.len();
    if len == 0 || line[len - 1] != ';' {
        proof {
            if len > 0 {
                assert(line@.subrange(len - 1, len as int)[0] != ';');
            }
        }
        return Err(ProtocolError::MissingTerminator);
    }
    let body = sub_chars(line, 0, len - 1);
    proof {
        assert(line@.subrange(len - 1, len as int) =~= seq![';']);
        assert(strip_suffix(line@, seq![';']) == Some(body@));
    }
    let stripped = trimmed(body.as_slice());
    if !chars_equal(stripped.as_slice(), body.as_slice()) {
        return Err(ProtocolError::MalformedField(chars_to_string(body.as_slice())));
    }
    let body_len = body.len();
    proof {
        lemma_first_index_of(body@, ' ');
    }
    let space = match find_char(body.as_slice(), ' ') {
        Some(space) => space,
        None => return Err(ProtocolError::UnknownMessage(chars_to_string(body.as_slice()))),
    };
    let name = sub_chars(body.as_slice(), 0, space);
    let rest = sub_chars(body.as_slice(), space + 1, body_len);
    proof {
        assert(name@ =~= body@.take(space as int));
        assert(rest@ =~= body@.skip(space + 1int));
    }
    let kind = match kind_of(name.as_slice()) {
        Some(kind) => kind,
        None => return Err(ProtocolError::UnknownMessage(chars_to_string(name.as_slice()))),
    };
    let fields = match parse_fields(rest.as_slice(), kind) {
        Ok(fields) => fields,
        Err(error) => return Err(error),
    };
    let version = match required(&fields, "v") {
        Ok(version) => version,
        Err(error) => return Err(error),
    };
    let mut expected: Vec<char> = Vec::new();
    push_decimal(&mut expected, PROTOCOL_VERSION as u64);
    assert(expected@ =~= version_field().1);
    if !chars_equal(version.as_slice(), expected.as_slice()) {
        return Err(ProtocolError::UnsupportedVersion(chars_to_string(version.as_slice())));
    }
    versioned_body(kind, &fields)
}

// ---------------------------------------------------------------------------
// Stream and discovery messages
// ---------------------------------------------------------------------------
/// `line` without one trailing `c`, if it ends in one.
pub open spec fn without_last(line: Seq<char>, c: char) -> Seq<char> {
    match strip_suffix(line, seq![c]) {
        Some(rest) => rest,
        None => line,
    }
}

/// The display form: `Some` when the line is a display line, holding the
/// text or why it is refused.
pub open spec fn display_spec(line: Seq<char>) -> Option<Result<Seq<char>, ProtocolErrorView>> {
    let text = match strip_prefix(line, "display "@) {
        Some(text) => Some(text),
        None => strip_prefix(line, "display: "@),
    };
    match text {
        Some(text) => Some(
            match display_text_error(text) {
                Some(error) => Err(error),
                None => Ok(text),
            },
        ),
        None => if line == "display"@ || line == "display:"@ {
            Some(Err(ProtocolErrorView::MissingField("text"@)))
        } else {
            None
        },
    }
}

/// The legacy event form `event action=<action>;`: `Some` when the line has
/// that shape, holding the action or why it is refused.
pub open spec fn legacy_event_spec(line: Seq<char>) -> Option<Result<Seq<char>, ProtocolErrorView>> {
    match strip_prefix(line, "event action="@) {
        None => None,
        Some(rest) => match strip_suffix(rest, seq![';']) {
            None => None,
            Some(action) => Some(
                if valid_action(action) {
                    Ok(action)
                } else {
                    Err(invalid_view("action"@, action))
                },
            ),
        },
    }
}

/// A versioned message on the TCP stream.
pub open spec fn stream_of_versioned(message: VersionedView) -> Result<StreamView, ProtocolErrorView> {
    match message {
        VersionedView::Hello { session } => Ok(StreamView::Hello { session }),
        VersionedView::Welcome { companion } => Ok(StreamView::Welcome { companion }),
        VersionedView::Event { session, seq, action } => Ok(
            StreamView::Event { session, seq, action },
        ),
        VersionedView::Ack { session, seq, status } => Ok(StreamView::Ack { session, seq, status }),
        VersionedView::Discover { .. } => Err(ProtocolErrorView::WrongChannel("TCP stream"@)),
        VersionedView::Offer { .. } => Err(ProtocolErrorView::WrongChannel("TCP stream"@)),
    }
}

/// A versioned message on UDP discovery.
pub open spec fn discovery_of_versioned(message: VersionedView) -> Result<
    DiscoveryView,
    ProtocolErrorView,
> {
    match message {
        VersionedView::Discover { nonce } => Ok(DiscoveryView::Discover { nonce }),
        VersionedView::Offer { nonce, companion, port } => Ok(
            DiscoveryView::Offer { nonce, companion, port },
        ),
        _ => Err(ProtocolErrorView::WrongChannel("UDP discovery"@)),
    }
}

/// What parsing a stream line gives. One trailing LF and then one CR are
/// dropped; the rest must fit the frame limit, be non-empty and free of
/// control characters; it is then display text, a legacy event or a
/// versioned message valid on the stream, tried in that order.
pub open spec fn parse_stream_spec(line: Seq<char>) -> Result<StreamView, ProtocolErrorView> {
    let content = without_last(without_last(line, '\n'), '\r');
    if utf8_len(content) > MAX_STREAM_FRAME_BYTES {
        Err(
            ProtocolErrorView::TooLong {
                limit: MAX_STREAM_FRAME_BYTES as nat,
                actual: utf8_len(content),
            },
        )
    } else if content.len() == 0 {
        Err(ProtocolErrorView::Empty)
    } else if has_control(content) {
        Err(ProtocolErrorView::ControlCharacter)
    } else {
        match display_spec(content) {
            Some(Ok(text)) => Ok(StreamView::Display { text }),
            Some(Err(error)) => Err(error),
            None => match legacy_event_spec(content) {
                Some(Ok(action)) => Ok(StreamView::LegacyEvent { action }),
                Some(Err(error)) => Err(error),
                None => match parse_versioned_spec(content) {
                    Ok(message) => stream_of_versioned(message),
                    Err(error) => Err(error),
                },
            },
        }
    }
}

/// What parsing a discovery datagram gives: at most 512 bytes of UTF-8,
/// non-empty, free of control characters, holding a versioned message valid
/// on discovery.
pub open spec fn parse_discovery_spec(input: Seq<u8>) -> Result<DiscoveryView, ProtocolErrorView> {
    if input.len() > MAX_DISCOVERY_DATAGRAM_BYTES {
        Err(
            ProtocolErrorView::TooLong {
                limit: MAX_DISCOVERY_DATAGRAM_BYTES as nat,
                actual: input.len(),
            },
        )
    } else if !valid_utf8(input) {
        Err(ProtocolErrorView::InvalidUtf8)
    } else {
        let line = decode_utf8(input);
        if line.len() == 0 {
            Err(ProtocolErrorView::Empty)
        } else if has_control(line) {
            Err(ProtocolErrorView::ControlCharacter)
        } else {
            match parse_versioned_spec(line) {
                Ok(message) => discovery_of_versioned(message),
                Err(error) => Err(error),
            }
        }
    }
}

/// Parse display text, if `line` is a display line.
fn parse_display(line: &[char]) -> (result: Result<Option<String>, ProtocolError>)
    ensures
        match display_spec(line@) {
            None => result == Ok::<Option<String>, ProtocolError>(None),
            Some(Ok(text)) => result matches Ok(Some(parsed)) && parsed@ == text,
            Some(Err(error)) => result matches Err(refused) && refused@ == error,
        },
{
    let plain = str_to_chars("display ");
    let colon = str_to_chars("display: ");
    let start = if has_prefix(line, plain.as_slice()) {
        plain.len()
    } else if has_prefix(line, colon.as_slice()) {
        colon.len()
    } else {
        if is_named(line, "display") || is_named(line, "display:") {
            return Err(ProtocolError::MissingField("text"));
        }
        return Ok(None);
    };
    let text = sub_chars(line, start, line.len());
    let owned = chars_to_string(text.as_slice());
    let byte_len = string_utf8_len(&owned);
    if let Err(error) = validate_display_text(text.as_slice(), byte_len) {
        return Err(error);
    }
    Ok(Some(owned))
}

/// Parse the legacy event form, if `line` has its shape.
fn parse_legacy_event(line: &[char]) -> (result: Result<Option<String>, ProtocolError>)
    ensures
        match legacy_event_spec(line@) {
            None => result == Ok::<Option<String>, ProtocolError>(None),
            Some(Ok(action)) => result matches Ok(Some(parsed)) && parsed@ == action,
            Some(Err(error)) => result matches Err(refused) && refused@ == error,
        },
{
    let prefix = str_to_chars("event action=");
    if !has_prefix(line, prefix.as_slice()) {
        return Ok(None);
    }
    let len = line.len();
    if len == prefix.len() || line[len - 1] != ';' {
        proof {
            let rest = line@.subrange(prefix@.len() as int, len as int);
            if rest.len() > 0 {
                assert(rest.subrange(rest.len() - 1, rest.len() as int)[0] == line@[len - 1]);
            }
        }
        return Ok(None);
    }
    let action = sub_chars(line, prefix.len(), len - 1);
    proof {
        let rest = line@.subrange(prefix@.len() as int, len as int);
        assert(rest.subrange(rest.len() - 1, rest.len() as int) =~= seq![';']);
        assert(rest.subrange(0, rest.len() - 1) =~= action@);
    }
    if let Err(error) = validate_action(action.as_slice()) {
        return Err(error);
    }
    Ok(Some(chars_to_string(action.as_slice())))
}

/// Parse one stream line, with or without its LF or CRLF.
pub fn parse_stream_message(line: &str) -> (result: Result<StreamMessage, ProtocolError>)
    ensures
        result_view(result) == parse_stream_spec(line@),
{
    let chars = str_to_chars(line);
    let mut end = chars.len();
    if end > 0 && chars[end - 1] == '\n' {
        end = end - 1;
    }
    let ghost first = chars@.subrange(0, end as int);
    proof {
        if chars@.len() > 0 && chars@[chars@.len() - 1] == '\n' {
            assert(chars@.subrange(chars@.len() - 1, chars@.len() as int) =~= seq!['\n']);
        } else if chars@.len() > 0 {
            assert(chars@.subrange(chars@.len() - 1, chars@.len() as int)[0] != '\n');
        }
        if end == chars@.len() {
            assert(first =~= chars@);
        }
        assert(first == without_last(line@, '\n'));
    }
    if end > 0 && chars[end - 1] == '\r' {
        end = end - 1;
    }
    let content = sub_chars(chars.as_slice(), 0, end);
    proof {
        if first.len() > 0 && first[first.len() - 1] == '\r' {
            assert(first.subrange(first.len() - 1, first.len() as int) =~= seq!['\r']);
            assert(first.subrange(0, first.len() - 1) =~= content@);
        } else {
            if first.len() > 0 {
                assert(first.subrange(first.len() - 1, first.len() as int)[0] != '\r');
            }
            assert(first =~= content@);
        }
        assert(content@ == without_last(without_last(line@, '\n'), '\r'));
    }
    let owned = chars_to_string(content.as_slice());
    let byte_len = string_utf8_len(&owned);
    if byte_len > MAX_STREAM_FRAME_BYTES {
        return Err(ProtocolError::TooLong { limit: MAX_STREAM_FRAME_BYTES, actual: byte_len });
    }
    if content.len() == 0 {
        return Err(ProtocolError::Empty);
    }
    if any_control(content.as_slice()) {
        return Err(ProtocolError::ControlCharacter);
    }
    match parse_display(content.as_slice()) {
        Err(error) => return Err(error),
        Ok(Some(text)) => return Ok(StreamMessage::Display { text }),
        Ok(None) => {},
    }
    match parse_legacy_event(content.as_slice()) {
        Err(error) => return Err(error),
        Ok(Some(action)) => return Ok(StreamMessage::LegacyEvent { action }),
        Ok(None) => {},
    }
    match parse_versioned(content.as_slice()) {
        Err(error) => Err(error),
        Ok(ParsedVersioned::Hello { session }) => Ok(StreamMessage::Hello { session }),
        Ok(ParsedVersioned::Welcome { companion }) => Ok(StreamMessage::Welcome { companion }),
        Ok(ParsedVersioned::Event { session, seq, action }) => Ok(
            StreamMessage::Event { session, seq, action },
        ),
        Ok(ParsedVersioned::Ack { session, seq, status }) => Ok(
            StreamMessage::Ack { session, seq, status },
        ),
        Ok(ParsedVersioned::Discover { .. }) => Err(ProtocolError::WrongChannel("TCP stream")),
        Ok(ParsedVersioned::Offer { .. }) => Err(ProtocolError::WrongChannel("TCP stream")),
    }
}

/// Parse one discovery datagram.
pub fn parse_discovery_message(input: &[u8]) -> (result: Result<DiscoveryMessage, ProtocolError>)
    ensures
        result_view(result) == parse_discovery_spec(input@),
{
    if input.len() > MAX_DISCOVERY_DATAGRAM_BYTES {
        return Err(
            ProtocolError::TooLong { limit: MAX_DISCOVERY_DATAGRAM_BYTES, actual: input.len() },
        );
    }
    let line = match utf8_decode(input) {
        Some(line) => line,
        None => return Err(ProtocolError::InvalidUtf8),
    };
    let chars = str_to_chars(line);
    if chars.len() == 0 {
        return Err(ProtocolError::Empty);
    }
    if any_control(chars.as_slice()) {
        return Err(ProtocolError::ControlCharacter);
    }
    match parse_versioned(chars.as_slice()) {
        Err(error) => Err(error),
        Ok(ParsedVersioned::Discover { nonce }) => Ok(DiscoveryMessage::Discover { nonce }),
        Ok(ParsedVersioned::Offer { nonce, companion, port }) => Ok(
            DiscoveryMessage::Offer { nonce, companion, port },
        ),
        Ok(_) => Err(ProtocolError::WrongChannel("UDP discovery")),
    }
}

} // verus!
