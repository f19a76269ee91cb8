//! Bounded line protocol between the Kindle client and its companion.
//!
//! TCP carries ordered stream messages; UDP carries discovery only. Every
//! versioned message is a semicolon-terminated ASCII envelope
//! `kind v=1 key=value ...;`; `display` keeps its free-text form.
use crate::text::{
    any_control, chars_to_string, decimal, is_control, push_chars, push_decimal, push_str,
    str_to_chars,
};
use vstd::prelude::*;
use vstd::utf8::{encode_utf8, is_ascii_chars, is_ascii_chars_encode_utf8};

verus! {

pub const PROTOCOL_VERSION: u8 = 1;

pub const DEFAULT_TCP_PORT: u16 = 5581;

pub const DEFAULT_DISCOVERY_PORT: u16 = 5580;

pub const MAX_DISCOVERY_DATAGRAM_BYTES: usize = 512;

pub const MAX_STREAM_FRAME_BYTES: usize = 1024;

pub const MAX_DISPLAY_TEXT_BYTES: usize = 256;

pub const HEX_ID_BYTES: usize = 32;

/// Longest accepted action name, in bytes.
pub const MAX_ACTION_BYTES: usize = 64;

// ---------------------------------------------------------------------------
// Messages and their views
// ---------------------------------------------------------------------------
#[derive(Clone, Debug, PartialEq, Eq)]
pub enum DiscoveryMessage {
    Discover { nonce: String },
    Offer { nonce: String, companion: String, port: u16 },
}

/// The content of a discovery message.
pub enum DiscoveryView {
    Discover { nonce: Seq<char> },
    Offer { nonce: Seq<char>, companion: Seq<char>, port: u16 },
}

impl View for DiscoveryMessage {
    type V = DiscoveryView;

    open spec fn view(&self) -> DiscoveryView {
        match self {
            DiscoveryMessage::Discover { nonce } => DiscoveryView::Discover { nonce: nonce@ },
            DiscoveryMessage::Offer { nonce, companion, port } => DiscoveryView::Offer {
                nonce: nonce@,
                companion: companion@,
                port: *port,
            },
        }
    }
}

#[derive(Clone, Copy, Debug, PartialEq, Eq, Structural)]
pub enum AckStatus {
    Logged,
}

/// Wire text of an acknowledgement status.
pub open spec fn ack_status_text(status: AckStatus) -> Seq<char> {
    match status {
        AckStatus::Logged => "logged"@,
    }
}

impl AckStatus {
    pub fn as_str(self) -> (text: &'static str)
        ensures
            text@ == ack_status_text(self),
    {
        match self {
            AckStatus::Logged => "logged",
        }
    }
}

#[derive(Clone, Debug, PartialEq, Eq)]
pub enum StreamMessage {
    Hello { session: String },
    Welcome { companion: String },
    Event { session: String, seq: u64, action: String },
    Ack { session: String, seq: u64, status: AckStatus },
    Display { text: String },
    LegacyEvent { action: String },
}

/// The content of a stream message.
pub enum StreamView {
    Hello { session: Seq<char> },
    Welcome { companion: Seq<char> },
    Event { session: Seq<char>, seq: u64, action: Seq<char> },
    Ack { session: Seq<char>, seq: u64, status: AckStatus },
    Display { text: Seq<char> },
    LegacyEvent { action: Seq<char> },
}

impl View for StreamMessage {
    type V = StreamView;

    open spec fn view(&self) -> StreamView {
        match self {
            StreamMessage::Hello { session } => StreamView::Hello { session: session@ },
            StreamMessage::Welcome { companion } => StreamView::Welcome { companion: companion@ },
            StreamMessage::Event { session, seq, action } => StreamView::Event {
                session: session@,
                seq: *seq,
                action: action@,
            },
            StreamMessage::Ack { session, seq, status } => StreamView::Ack {
                session: session@,
                seq: *seq,
                status: *status,
            },
            StreamMessage::Display { text } => StreamView::Display { text: text@ },
            StreamMessage::LegacyEvent { action } => StreamView::LegacyEvent { action: action@ },
        }
    }
}

#[derive(Clone, Debug, PartialEq, Eq)]
pub enum ProtocolError {
    Empty,
    TooLong { limit: usize, actual: usize },
    InvalidUtf8,
    ControlCharacter,
    MissingTerminator,
    MissingField(&'static str),
    DuplicateField(String),
    UnknownField(String),
    MalformedField(String),
    UnsupportedVersion(String),
    InvalidValue { field: &'static str, value: String },
    UnknownMessage(String),
    WrongChannel(&'static str),
}

/// The content of a protocol error.
pub enum ProtocolErrorView {
    Empty,
    TooLong { limit: nat, actual: nat },
    InvalidUtf8,
    ControlCharacter,
    MissingTerminator,
    MissingField(Seq<char>),
    DuplicateField(Seq<char>),
    UnknownField(Seq<char>),
    MalformedField(Seq<char>),
    UnsupportedVersion(Seq<char>),
    InvalidValue { field: Seq<char>, value: Seq<char> },
    UnknownMessage(Seq<char>),
    WrongChannel(Seq<char>),
}

impl View for ProtocolError {
    type V = ProtocolErrorView;

    open spec fn view(&self) -> ProtocolErrorView {
        match self {
            ProtocolError::Empty => ProtocolErrorView::Empty,
            ProtocolError::TooLong { limit, actual } => ProtocolErrorView::TooLong {
                limit: *limit as nat,
                actual: *actual as nat,
            },
            ProtocolError::InvalidUtf8 => ProtocolErrorView::InvalidUtf8,
            ProtocolError::ControlCharacter => ProtocolErrorView::ControlCharacter,
            ProtocolError::MissingTerminator => ProtocolErrorView::MissingTerminator,
            ProtocolError::MissingField(field) => ProtocolErrorView::MissingField(field@),
            ProtocolError::DuplicateField(field) => ProtocolErrorView::DuplicateField(field@),
            ProtocolError::UnknownField(field) => ProtocolErrorView::UnknownField(field@),
            ProtocolError::MalformedField(field) => ProtocolErrorView::MalformedField(field@),
            ProtocolError::UnsupportedVersion(version) => ProtocolErrorView::UnsupportedVersion(
                version@,
            ),
            ProtocolError::InvalidValue { field, value } => ProtocolErrorView::InvalidValue {
                field: field@,
                value: value@,
            },
            ProtocolError::UnknownMessage(message) => ProtocolErrorView::UnknownMessage(message@),
            ProtocolError::WrongChannel(channel) => ProtocolErrorView::WrongChannel(channel@),
        }
    }
}

/// The view of a result whose success value has a view.
pub open spec fn result_view<T: View>(result: Result<T, ProtocolError>) -> Result<
    T::V,
    ProtocolErrorView,
> {
    match result {
        Ok(value) => Ok(value@),
        Err(error) => Err(error@),
    }
}

// ---------------------------------------------------------------------------
// Field validation
// ---------------------------------------------------------------------------
/// Number of bytes in the UTF-8 encoding of `text`.
pub open spec fn utf8_len(text: Seq<char>) -> nat {
    encode_utf8(text).len()
}

/// An ASCII hexadecimal digit.
pub open spec fn is_hex_char(c: char) -> bool {
    ('0' <= c && c <= '9') || ('a' <= c && c <= 'f') || ('A' <= c && c <= 'F')
}

/// A 128-bit identifier: exactly 32 ASCII hexadecimal digits.
pub open spec fn valid_hex_id(value: Seq<char>) -> bool {
    value.len() == HEX_ID_BYTES && forall|i: int| 0 <= i < value.len() ==> is_hex_char(#[trigger] value[i])
}

/// A character allowed in an action name.
pub open spec fn is_action_char(c: char) -> bool {
    ('a' <= c && c <= 'z') || ('0' <= c && c <= '9') || c == '.' || c == '_' || c == '-'
}

/// An action name: 1 to 64 characters of `[a-z0-9._-]`.
pub open spec fn valid_action(value: Seq<char>) -> bool {
    0 < value.len() <= MAX_ACTION_BYTES && forall|i: int|
        0 <= i < value.len() ==> is_action_char(#[trigger] value[i])
}

/// Whether some character of `text` is a control character.
pub open spec fn has_control(text: Seq<char>) -> bool {
    exists|i: int| 0 <= i < text.len() && is_control(#[trigger] text[i])
}

/// Why display text is refused, if it is.
pub open spec fn display_text_error(text: Seq<char>) -> Option<ProtocolErrorView> {
    if text.len() == 0 {
        Some(ProtocolErrorView::MissingField("text"@))
    } else if utf8_len(text) > MAX_DISPLAY_TEXT_BYTES {
        Some(ProtocolErrorView::TooLong { limit: MAX_DISPLAY_TEXT_BYTES as nat, actual: utf8_len(text) })
    } else if has_control(text) {
        Some(ProtocolErrorView::ControlCharacter)
    } else {
        None
    }
}

/// The error for a refused field value.
pub open spec fn invalid_view(field: Seq<char>, value: Seq<char>) -> ProtocolErrorView {
    ProtocolErrorView::InvalidValue { field, value }
}

pub(crate) fn invalid(field: &'static str, value: &[char]) -> (error: ProtocolError)
    ensures
        error@ == invalid_view(field@, value@),
{
    ProtocolError::InvalidValue { field, value: chars_to_string(value) }
}

fn is_hex_digit(c: char) -> (result: bool)
    ensures
        result == is_hex_char(c),
{
    ('0' <= c && c <= '9') || ('a' <= c && c <= 'f') || ('A' <= c && c <= 'F')
}

fn is_action_digit(c: char) -> (result: bool)
    ensures
        result == is_action_char(c),
{
    ('a' <= c && c <= 'z') || ('0' <= c && c <= '9') || c == '.' || c == '_' || c == '-'
}

/// Accept a 32-digit hexadecimal identifier.
pub fn validate_hex_id(field: &'static str, value: &[char]) -> (result: Result<(), ProtocolError>)
    ensures
        match result {
            Ok(()) => valid_hex_id(value@),
            Err(error) => !valid_hex_id(value@) && error@ == invalid_view(field@, value@),
        },
{
    if value.len() != HEX_ID_BYTES {
        return Err(invalid(field, value));
    }
    let mut index: usize = 0;
    while index < value.len()
        invariant
            index <= value@.len(),
            forall|i: int| 0 <= i < index ==> is_hex_char(#[trigger] value@[i]),
        decreases value@.len() - index,
    {
        if !is_hex_digit(value[index]) {
            return Err(invalid(field, value));
        }
        index = index + 1;
    }
    Ok(())
}

/// Accept an action name.
pub fn validate_action(value: &[char]) -> (result: Result<(), ProtocolError>)
    ensures
        match result {
            Ok(()) => valid_action(value@),
            Err(error) => !valid_action(value@) && error@ == invalid_view("action"@, value@),
        },
{
    if value.len() == 0 || value.len() > MAX_ACTION_BYTES {
        return Err(invalid("action", value));
    }
    let mut index: usize = 0;
    while index < value.len()
        invariant
            index <= value@.len(),
            forall|i: int| 0 <= i < index ==> is_action_char(#[trigger] value@[i]),
        decreases value@.len() - index,
    {
        if !is_action_digit(value[index]) {
            return Err(invalid("action", value));
        }
        index = index + 1;
    }
    Ok(())
}

/// Accept display text whose UTF-8 encoding is `byte_len` bytes long.
pub fn validate_display_text(value: &[char], byte_len: usize) -> (result: Result<(), ProtocolError>)
    requires
        byte_len == utf8_len(value@),
    ensures
        match result {
            Ok(()) => display_text_error(value@) is None,
            Err(error) => display_text_error(value@) == Some(error@),
        },
{
    if value.len() == 0 {
        return Err(ProtocolError::MissingField("text"));
    }
    if byte_len > MAX_DISPLAY_TEXT_BYTES {
        return Err(ProtocolError::TooLong { limit: MAX_DISPLAY_TEXT_BYTES, actual: byte_len });
    }
    if any_control(value) {
        return Err(ProtocolError::ControlCharacter);
    }
    Ok(())
}

/// Accept a non-zero port.
pub fn validate_port(port: u16) -> (result: Result<(), ProtocolError>)
    ensures
        match result {
            Ok(()) => port != 0,
            Err(error) => port == 0 && error@ == invalid_view("port"@, "0"@),
        },
{
    if port == 0 {
        let zero = str_to_chars("0");
        Err(invalid("port", zero.as_slice()))
    } else {
        Ok(())
    }
}

// ---------------------------------------------------------------------------
// UTF-8 lengths
// ---------------------------------------------------------------------------
/// The encoding of a concatenation is the concatenation of the encodings.
pub proof fn lemma_encode_utf8_concat(left: Seq<char>, right: Seq<char>)
    ensures
        encode_utf8(left + right) == encode_utf8(left) + encode_utf8(right),
    decreases left.len(),
{
    if left.len() == 0 {
        assert(left + right =~= right);
        assert(encode_utf8(left) + encode_utf8(right) =~= encode_utf8(right));
    } else {
        assert((left + right)[0] == left[0]);
        assert((left + right).drop_first() =~= left.drop_first() + right);
        lemma_encode_utf8_concat(left.drop_first(), right);
        assert(encode_utf8(left + right) =~= encode_utf8(left) + encode_utf8(right));
    }
}

/// ASCII text encodes to one byte per character.
pub proof fn lemma_ascii_utf8_len(text: Seq<char>)
    requires
        is_ascii_chars(text),
    ensures
        utf8_len(text) == text.len(),
{
    is_ascii_chars_encode_utf8(text);
}

/// Byte length of `text` as a `String`.
pub fn string_utf8_len(text: &String) -> (len: usize)
    ensures
        len == utf8_len(text@),
{
    let bytes = text.as_str().as_bytes();
    bytes.len()
}

// ---------------------------------------------------------------------------
// Formatting
// ---------------------------------------------------------------------------
/// The space-separated `key=value` fields, each preceded by a space.
pub open spec fn joined_fields(fields: Seq<(Seq<char>, Seq<char>)>) -> Seq<char>
    decreases fields.len(),
{
    if fields.len() == 0 {
        Seq::empty()
    } else {
        seq![' '] + fields[0].0 + seq!['='] + fields[0].1 + joined_fields(fields.drop_first())
    }
}

/// A versioned envelope: the kind, its fields and the terminating `;`.
pub open spec fn versioned_line(kind: Seq<char>, fields: Seq<(Seq<char>, Seq<char>)>) -> Seq<
    char,
> {
    kind + joined_fields(fields) + seq![';']
}

/// The `v=1` field.
pub open spec fn version_field() -> (Seq<char>, Seq<char>) {
    ("v"@, decimal(PROTOCOL_VERSION as nat))
}

/// What formatting a discovery message gives.
pub open spec fn format_discovery_spec(message: DiscoveryView) -> Result<
    Seq<char>,
    ProtocolErrorView,
> {
    match message {
        DiscoveryView::Discover { nonce } => if !valid_hex_id(nonce) {
            Err(invalid_view("nonce"@, nonce))
        } else {
            Ok(versioned_line("discover"@, seq![version_field(), ("nonce"@, nonce)]))
        },
        DiscoveryView::Offer { nonce, companion, port } => if !valid_hex_id(nonce) {
            Err(invalid_view("nonce"@, nonce))
        } else if !valid_hex_id(companion) {
            Err(invalid_view("companion"@, companion))
        } else if port == 0 {
            Err(invalid_view("port"@, "0"@))
        } else {
            Ok(
                versioned_line(
                    "offer"@,
                    seq![
                        version_field(),
                        ("nonce"@, nonce),
                        ("companion"@, companion),
                        ("port"@, decimal(port as nat)),
                    ],
                ),
            )
        },
    }
}

/// The line of a stream message before the frame-size check.
pub open spec fn stream_line_spec(message: StreamView) -> Result<Seq<char>, ProtocolErrorView> {
    match message {
        StreamView::Hello { session } => if !valid_hex_id(session) {
            Err(invalid_view("session"@, session))
        } else {
            Ok(versioned_line("hello"@, seq![version_field(), ("session"@, session)]) + seq!['\n'])
        },
        StreamView::Welcome { companion } => if !valid_hex_id(companion) {
            Err(invalid_view("companion"@, companion))
        } else {
            Ok(
                versioned_line("welcome"@, seq![version_field(), ("companion"@, companion)])
                    + seq!['\n'],
            )
        },
        StreamView::Event { session, seq, action } => if !valid_hex_id(session) {
            Err(invalid_view("session"@, session))
        } else if !valid_action(action) {
            Err(invalid_view("action"@, action))
        } else {
            Ok(
                versioned_line(
                    "event"@,
                    seq![
                        version_field(),
                        ("session"@, session),
                        ("seq"@, decimal(seq as nat)),
                        ("action"@, action),
                    ],
                ) + seq!['\n'],
            )
        },
        StreamView::Ack { session, seq, status } => if !valid_hex_id(session) {
            Err(invalid_view("session"@, session))
        } else {
            Ok(
                versioned_line(
                    "ack"@,
                    seq![
                        version_field(),
                        ("session"@, session),
                        ("seq"@, decimal(seq as nat)),
                        ("status"@, ack_status_text(status)),
                    ],
                ) + seq!['\n'],
            )
        },
        StreamView::Display { text } => match display_text_error(text) {
            Some(error) => Err(error),
            None => Ok("display "@ + text + seq!['\n']),
        },
        StreamView::LegacyEvent { action } => if !valid_action(action) {
            Err(invalid_view("action"@, action))
        } else {
            Ok("event action="@ + action + seq![';', '\n'])
        },
    }
}

/// What formatting a stream message gives: its line, unless the line
/// without its newline exceeds the frame limit.
pub open spec fn format_stream_spec(message: StreamView) -> Result<Seq<char>, ProtocolErrorView> {
    match stream_line_spec(message) {
        Err(error) => Err(error),
        Ok(line) => if utf8_len(line) - 1 > MAX_STREAM_FRAME_BYTES {
            Err(
                ProtocolErrorView::TooLong {
                    limit: MAX_STREAM_FRAME_BYTES as nat,
                    actual: (utf8_len(line) - 1) as nat,
                },
            )
        } else {
            Ok(line)
        },
    }
}

/// Append ` key=value`.
fn push_field(out: &mut Vec<char>, key: &str, value: &[char])
    ensures
        final(out)@ == old(out)@ + seq![' '] + key@ + seq!['='] + value@,
{
    out.push(' ');
    push_str(out, key);
    out.push('=');
    push_chars(out, value);
}

/// Append ` v=1`.
fn push_version(out: &mut Vec<char>)
    ensures
        final(out)@ == old(out)@ + seq![' '] + version_field().0 + seq!['='] + version_field().1,
{
    out.push(' ');
    push_str(out, "v");
    out.push('=');
    push_decimal(out, PROTOCOL_VERSION as u64);
}

pub fn format_discovery_message(message: &DiscoveryMessage) -> (result: Result<
    String,
    ProtocolError,
>)
    ensures
        result_view(result) == format_discovery_spec(message@),
{
    match message {
        DiscoveryMessage::Discover { nonce } => {
            let nonce_chars = str_to_chars(nonce.as_str());
            if let Err(error) = validate_hex_id("nonce", nonce_chars.as_slice()) {
                return Err(error);
            }
            let mut out: Vec<char> = Vec::new();
            push_str(&mut out, "discover");
            push_version(&mut out);
            push_field(&mut out, "nonce", nonce_chars.as_slice());
            out.push(';');
            proof {
                reveal_with_fuel(joined_fields, 3);
                assert(out@ =~= versioned_line(
                    "discover"@,
                    seq![version_field(), ("nonce"@, nonce@)],
                ));
            }
            Ok(chars_to_string(out.as_slice()))
        },
        DiscoveryMessage::Offer { nonce, companion, port } => {
            let nonce_chars = str_to_chars(nonce.as_str());
            if let Err(error) = validate_hex_id("nonce", nonce_chars.as_slice()) {
                return Err(error);
            }
            let companion_chars = str_to_chars(companion.as_str());
            if let Err(error) = validate_hex_id("companion", companion_chars.as_slice()) {
                return Err(error);
            }
            if let Err(error) = validate_port(*port) {
                return Err(error);
            }
            let mut port_chars: Vec<char> = Vec::new();
            push_decimal(&mut port_chars, *port as u64);
            let mut out: Vec<char> = Vec::new();
            push_str(&mut out, "offer");
            push_version(&mut out);
            push_field(&mut out, "nonce", nonce_chars.as_slice());
            push_field(&mut out, "companion", companion_chars.as_slice());
            push_field(&mut out, "port", port_chars.as_slice());
            out.push(';');
            proof {
                reveal_with_fuel(joined_fields, 5);
                assert(port_chars@ =~= decimal(*port as nat));
                assert(out@ =~= versioned_line(
                    "offer"@,
                    seq![
                        version_field(),
                        ("nonce"@, nonce@),
                        ("companion"@, companion@),
                        ("port"@, decimal(*port as nat)),
                    ],
                ));
            }
            Ok(chars_to_string(out.as_slice()))
        },
    }
}

fn hello_line(session: &String) -> (result: Result<Vec<char>, ProtocolError>)
    ensures
        match result {
            Ok(line) => stream_line_spec(StreamView::Hello { session: session@ }) == Ok::<
                Seq<char>,
                ProtocolErrorView,
            >(line@),
            Err(error) => stream_line_spec(StreamView::Hello { session: session@ }) == Err::<
                Seq<char>,
                ProtocolErrorView,
            >(error@),
        },
{
    let session_chars = str_to_chars(session.as_str());
    if let Err(error) = validate_hex_id("session", session_chars.as_slice()) {
        return Err(error);
    }
    let mut out: Vec<char> = Vec::new();
    push_str(&mut out, "hello");
    push_version(&mut out);
    push_field(&mut out, "session", session_chars.as_slice());
    out.push(';');
    out.push('\n');
    proof {
        reveal_with_fuel(joined_fields, 3);
        assert(out@ =~= versioned_line("hello"@, seq![version_field(), ("session"@, session@)])
            + seq!['\n']);
    }
    Ok(out)
}

fn welcome_line(companion: &String) -> (result: Result<Vec<char>, ProtocolError>)
    ensures
        match result {
            Ok(line) => stream_line_spec(StreamView::Welcome { companion: companion@ }) == Ok::<
                Seq<char>,
                ProtocolErrorView,
            >(line@),
            Err(error) => stream_line_spec(StreamView::Welcome { companion: companion@ }) == Err::<
                Seq<char>,
                ProtocolErrorView,
            >(error@),
        },
{
    let companion_chars = str_to_chars(companion.as_str());
    if let Err(error) = validate_hex_id("companion", companion_chars.as_slice()) {
        return Err(error);
    }
    let mut out: Vec<char> = Vec::new();
    push_str(&mut out, "welcome");
    push_version(&mut out);
    push_field(&mut out, "companion", companion_chars.as_slice());
    out.push(';');
    out.push('\n');
    proof {
        reveal_with_fuel(joined_fields, 3);
        assert(out@ =~= versioned_line("welcome"@, seq![version_field(), ("companion"@, companion@)])
            + seq!['\n']);
    }
    Ok(out)
}

fn event_line(session: &String, seq: u64, action: &String) -> (result: Result<
    Vec<char>,
    ProtocolError,
>)
    ensures
        match result {
            Ok(line) => stream_line_spec(
                StreamView::Event { session: session@, seq, action: action@ },
            ) == Ok::<Seq<char>, ProtocolErrorView>(line@),
            Err(error) => stream_line_spec(
                StreamView::Event { session: session@, seq, action: action@ },
            ) == Err::<Seq<char>, ProtocolErrorView>(error@),
        },
{
    let session_chars = str_to_chars(session.as_str());
    if let Err(error) = validate_hex_id("session", session_chars.as_slice()) {
        return Err(error);
    }
    let action_chars = str_to_chars(action.as_str());
    if let Err(error) = validate_action(action_chars.as_slice()) {
        return Err(error);
    }
    let mut seq_chars: Vec<char> = Vec::new();
    push_decimal(&mut seq_chars, seq);
    let mut out: Vec<char> = Vec::new();
    push_str(&mut out, "event");
    push_version(&mut out);
    push_field(&mut out, "session", session_chars.as_slice());
    push_field(&mut out, "seq", seq_chars.as_slice());
    push_field(&mut out, "action", action_chars.as_slice());
    out.push(';');
    out.push('\n');
    proof {
        reveal_with_fuel(joined_fields, 5);
        assert(seq_chars@ =~= decimal(seq as nat));
        assert(out@ =~= versioned_line(
            "event"@,
            seq![
                version_field(),
                ("session"@, session@),
                ("seq"@, decimal(seq as nat)),
                ("action"@, action@),
            ],
        ) + seq!['\n']);
    }
    Ok(out)
}

fn ack_line(session: &String, seq: u64, status: AckStatus) -> (result: Result<
    Vec<char>,
    ProtocolError,
>)
    ensures
        match result {
            Ok(line) => stream_line_spec(StreamView::Ack { session: session@, seq, status })
                == Ok::<Seq<char>, ProtocolErrorView>(line@),
            Err(error) => stream_line_spec(StreamView::Ack { session: session@, seq, status })
                == Err::<Seq<char>, ProtocolErrorView>(error@),
        },
{
    let session_chars = str_to_chars(session.as_str());
    if let Err(error) = validate_hex_id("session", session_chars.as_slice()) {
        return Err(error);
    }
    let mut seq_chars: Vec<char> = Vec::new();
    push_decimal(&mut seq_chars, seq);
    let status_chars = str_to_chars(status.as_str());
    let mut out: Vec<char> = Vec::new();
    push_str(&mut out, "ack");
    push_version(&mut out);
    push_field(&mut out, "session", session_chars.as_slice());
    push_field(&mut out, "seq", seq_chars.as_slice());
    push_field(&mut out, "status", status_chars.as_slice());
    out.push(';');
    out.push('\n');
    proof {
        reveal_with_fuel(joined_fields, 5);
        assert(seq_chars@ =~= decimal(seq as nat));
        assert(out@ =~= versioned_line(
            "ack"@,
            seq![
                version_field(),
                ("session"@, session@),
                ("seq"@, decimal(seq as nat)),
                ("status"@, ack_status_text(status)),
            ],
        ) + seq!['\n']);
    }
    Ok(out)
}

fn display_line(text: &String) -> (result: Result<Vec<char>, ProtocolError>)
    ensures
        match result {
            Ok(line) => stream_line_spec(StreamView::Display { text: text@ }) == Ok::<
                Seq<char>,
                ProtocolErrorView,
            >(line@),
            Err(error) => stream_line_spec(StreamView::Display { text: text@ }) == Err::<
                Seq<char>,
                ProtocolErrorView,
            >(error@),
        },
{
    let text_chars = str_to_chars(text.as_str());
    let byte_len = string_utf8_len(text);
    if let Err(error) = validate_display_text(text_chars.as_slice(), byte_len) {
        return Err(error);
    }
    let mut out: Vec<char> = Vec::new();
    push_str(&mut out, "display ");
    push_chars(&mut out, text_chars.as_slice());
    out.push('\n');
    assert(out@ =~= "display "@ + text@ + seq!['\n']);
    Ok(out)
}

fn legacy_event_line(action: &String) -> (result: Result<Vec<char>, ProtocolError>)
    ensures
        match result {
            Ok(line) => stream_line_spec(StreamView::LegacyEvent { action: action@ }) == Ok::<
                Seq<char>,
                ProtocolErrorView,
            >(line@),
            Err(error) => stream_line_spec(StreamView::LegacyEvent { action: action@ }) == Err::<
                Seq<char>,
                ProtocolErrorView,
            >(error@),
        },
{
    let action_chars = str_to_chars(action.as_str());
    if let Err(error) = validate_action(action_chars.as_slice()) {
        return Err(error);
    }
    let mut out: Vec<char> = Vec::new();
    push_str(&mut out, "event action=");
    push_chars(&mut out, action_chars.as_slice());
    out.push(';');
    out.push('\n');
    assert(out@ =~= "event action="@ + action@ + seq![';', '\n']);
    Ok(out)
}

/// The line of a stream message, before the frame-size check.
fn stream_line(message: &StreamMessage) -> (result: Result<Vec<char>, ProtocolError>)
    ensures
        match result {
            Ok(line) => stream_line_spec(message@) == Ok::<Seq<char>, ProtocolErrorView>(line@),
            Err(error) => stream_line_spec(message@) == Err::<Seq<char>, ProtocolErrorView>(
                error@,
            ),
        },
{
    match message {
        StreamMessage::Hello { session } => hello_line(session),
        StreamMessage::Welcome { companion } => welcome_line(companion),
        StreamMessage::Event { session, seq, action } => event_line(session, *seq, action),
        StreamMessage::Ack { session, seq, status } => ack_line(session, *seq, *status),
        StreamMessage::Display { text } => display_line(text),
        StreamMessage::LegacyEvent { action } => legacy_event_line(action),
    }
}

pub fn format_stream_message(message: &StreamMessage) -> (result: Result<String, ProtocolError>)
    ensures
        result_view(result) == format_stream_spec(message@),
{
    let line = match stream_line(message) {
        Ok(line) => line,
        Err(error) => return Err(error),
    };
    let text = chars_to_string(line.as_slice());
    let byte_len = string_utf8_len(&text);
    let content_len = byte_len.saturating_sub(1);
    proof {
        lemma_stream_line_nonempty(message@);
        if line@.len() > 0 {
            assert(line@ =~= seq![line@[0]] + line@.drop_first());
            lemma_encode_utf8_concat(seq![line@[0]], line@.drop_first());
        }
    }
    if content_len > MAX_STREAM_FRAME_BYTES {
        return Err(ProtocolError::TooLong { limit: MAX_STREAM_FRAME_BYTES, actual: content_len });
    }
    Ok(text)
}

/// Every formatted stream line ends in a newline, so it is never empty.
proof fn lemma_stream_line_nonempty(message: StreamView)
    ensures
        stream_line_spec(message) matches Ok(line) ==> line.len() > 0 && utf8_len(line) >= 1,
{
    if let Ok(line) = stream_line_spec(message) {
        let last = seq![line.last()];
        assert(line =~= line.drop_last() + last);
        lemma_encode_utf8_concat(line.drop_last(), last);
        assert(encode_utf8(last).len() >= 1);
    }
}

/// The description of a protocol error.
pub open spec fn protocol_error_text(error: ProtocolErrorView) -> Seq<char> {
    match error {
        ProtocolErrorView::Empty => "empty protocol message"@,
        ProtocolErrorView::TooLong { limit, actual } => "protocol message is "@ + decimal(actual)
            + " bytes; limit is "@ + decimal(limit),
        ProtocolErrorView::InvalidUtf8 => "protocol message is not valid UTF-8"@,
        ProtocolErrorView::ControlCharacter => "protocol message contains a control character"@,
        ProtocolErrorView::MissingTerminator => "versioned protocol message lacks ';' terminator"@,
        ProtocolErrorView::MissingField(field) => "protocol message lacks required field '"@
            + field + "'"@,
        ProtocolErrorView::DuplicateField(field) => "protocol message repeats field '"@ + field
            + "'"@,
        ProtocolErrorView::UnknownField(field) => "protocol message has unknown field '"@ + field
            + "'"@,
        ProtocolErrorView::MalformedField(field) => "malformed protocol field '"@ + field + "'"@,
        ProtocolErrorView::UnsupportedVersion(version) => "unsupported protocol version '"@
            + version + "'"@,
        ProtocolErrorView::InvalidValue { field, value } => "invalid value '"@ + value
            + "' for field '"@ + field + "'"@,
        ProtocolErrorView::UnknownMessage(message) => "unknown protocol message '"@ + message
            + "'"@,
        ProtocolErrorView::WrongChannel(channel) => "message is not valid on "@ + channel,
    }
}

impl ProtocolError {
    /// A description of the error.
    pub fn message(&self) -> (text: String)
        ensures
            text@ == protocol_error_text(self@),
    {
        let mut out: Vec<char> = Vec::new();
        match self {
            ProtocolError::Empty => push_str(&mut out, "empty protocol message"),
            ProtocolError::TooLong { limit, actual } => {
                push_str(&mut out, "protocol message is ");
                push_decimal(&mut out, *actual as u64);
                push_str(&mut out, " bytes; limit is ");
                push_decimal(&mut out, *limit as u64);
            },
            ProtocolError::InvalidUtf8 => push_str(&mut out, "protocol message is not valid UTF-8"),
            ProtocolError::ControlCharacter => push_str(
                &mut out,
                "protocol message contains a control character",
            ),
            ProtocolError::MissingTerminator => push_str(
                &mut out,
                "versioned protocol message lacks ';' terminator",
            ),
            ProtocolError::MissingField(field) => {
                push_str(&mut out, "protocol message lacks required field '");
                push_str(&mut out, field);
                push_str(&mut out, "'");
            },
            ProtocolError::DuplicateField(field) => {
                push_str(&mut out, "protocol message repeats field '");
                push_str(&mut out, field.as_str());
                push_str(&mut out, "'");
            },
            ProtocolError::UnknownField(field) => {
                push_str(&mut out, "protocol message has unknown field '");
                push_str(&mut out, field.as_str());
                push_str(&mut out, "'");
            },
            ProtocolError::MalformedField(field) => {
                push_str(&mut out, "malformed protocol field '");
                push_str(&mut out, field.as_str());
                push_str(&mut out, "'");
            },
            ProtocolError::UnsupportedVersion(version) => {
                push_str(&mut out, "unsupported protocol version '");
                push_str(&mut out, version.as_str());
                push_str(&mut out, "'");
            },
            ProtocolError::InvalidValue { field, value } => {
                push_str(&mut out, "invalid value '");
                push_str(&mut out, value.as_str());
                push_str(&mut out, "' for field '");
                push_str(&mut out, field);
                push_str(&mut out, "'");
            },
            ProtocolError::UnknownMessage(message) => {
                push_str(&mut out, "unknown protocol message '");
                push_str(&mut out, message.as_str());
                push_str(&mut out, "'");
            },
            ProtocolError::WrongChannel(channel) => {
                push_str(&mut out, "message is not valid on ");
                push_str(&mut out, channel);
            },
        }
        assert(out@ =~= protocol_error_text(self@));
        chars_to_string(out.as_slice())
    }
}


} // verus!
