//! The TCP companion's decisions: its command line, the bounded cache of
//! logged events, what each line from the Kindle asks for, how discovery
//! datagrams are answered and which operator lines are sent.
//!
//! Sockets, files, the clock and threads stay with the caller, which acts on
//! each decision and reports back what it needs to.
use crate::text::{
    chars_equal, chars_to_string, parse_u16, parse_u16_spec, push_str, str_to_chars, sub_chars,
    trim, trim_end, trim_end_len, trimmed,
};
use crate::transport::{
    format_discovery_message, format_discovery_spec, format_stream_message, format_stream_spec,
    AckStatus, DiscoveryMessage, DiscoveryView, ProtocolError, ProtocolErrorView, StreamMessage,
    StreamView, DEFAULT_DISCOVERY_PORT, DEFAULT_TCP_PORT,
};
use crate::transport_parse::{parse_discovery_message, parse_discovery_spec, parse_stream_message, parse_stream_spec};
use vstd::prelude::*;

verus! {

pub const DEFAULT_LOG_FILE: &'static str = "companion.log";

pub const DEFAULT_IDENTITY_FILE: &'static str = "companion.id";

/// How many logged events are remembered for duplicate detection.
pub const DEDUP_CAPACITY: usize = 256;

/// The usage line of the command line.
pub const USAGE: &'static str = "usage: companion [port] [log-file] [identity-file] [discovery-port]";

/// The companion's configuration.
#[derive(Clone, Debug, PartialEq, Eq)]
pub struct Config {
    pub port: u16,
    pub discovery_port: u16,
    pub log_path: String,
    pub identity_path: String,
}

/// The content of a configuration.
pub struct ConfigView {
    pub port: u16,
    pub discovery_port: u16,
    pub log_path: Seq<char>,
    pub identity_path: Seq<char>,
}

impl View for Config {
    type V = ConfigView;

    open spec fn view(&self) -> ConfigView {
        ConfigView {
            port: self.port,
            discovery_port: self.discovery_port,
            log_path: self.log_path@,
            identity_path: self.identity_path@,
        }
    }
}

/// Why a command line is refused.
#[derive(Clone, Debug, PartialEq, Eq)]
pub enum CliError {
    /// More than four arguments.
    Usage,
    InvalidTcpPort(String),
    InvalidDiscoveryPort(String),
}

/// The content of a command-line error.
pub enum CliErrorView {
    Usage,
    InvalidTcpPort(Seq<char>),
    InvalidDiscoveryPort(Seq<char>),
}

impl View for CliError {
    type V = CliErrorView;

    open spec fn view(&self) -> CliErrorView {
        match self {
            CliError::Usage => CliErrorView::Usage,
            CliError::InvalidTcpPort(value) => CliErrorView::InvalidTcpPort(value@),
            CliError::InvalidDiscoveryPort(value) => CliErrorView::InvalidDiscoveryPort(value@),
        }
    }
}

impl CliError {
    pub fn message(&self) -> (text: String)
        ensures
            text@ == match self@ {
                CliErrorView::Usage => USAGE@,
                CliErrorView::InvalidTcpPort(value) => "invalid TCP port '"@ + value + "'"@,
                CliErrorView::InvalidDiscoveryPort(value) => "invalid discovery port '"@ + value
                    + "'"@,
            },
    {
        let mut out: Vec<char> = Vec::new();
        match self {
            CliError::Usage => {
                push_str(&mut out, USAGE);
            },
            CliError::InvalidTcpPort(value) => {
                push_str(&mut out, "invalid TCP port '");
                push_str(&mut out, value.as_str());
                push_str(&mut out, "'");
                assert(out@ =~= "invalid TCP port '"@ + value@ + "'"@);
            },
            CliError::InvalidDiscoveryPort(value) => {
                push_str(&mut out, "invalid discovery port '");
                push_str(&mut out, value.as_str());
                push_str(&mut out, "'");
                assert(out@ =~= "invalid discovery port '"@ + value@ + "'"@);
            },
        }
        chars_to_string(out.as_slice())
    }
}

/// A port argument: a nonzero `u16`.
pub open spec fn port_argument(value: Seq<char>) -> Option<u16> {
    match parse_u16_spec(value) {
        Some(port) => if port != 0 {
            Some(port)
        } else {
            None
        },
        None => None,
    }
}

/// The configuration a command line `companion [port] [log-file]
/// [identity-file] [discovery-port]` gives, with the identity file from the
/// environment when the command line names none.
pub open spec fn config_spec(args: Seq<Seq<char>>, identity_env: Option<Seq<char>>) -> Result<
    ConfigView,
    CliErrorView,
> {
    if args.len() > 5 {
        Err(CliErrorView::Usage)
    } else if args.len() > 1 && port_argument(args[1]) is None {
        Err(CliErrorView::InvalidTcpPort(args[1]))
    } else if args.len() > 4 && port_argument(args[4]) is None {
        Err(CliErrorView::InvalidDiscoveryPort(args[4]))
    } else {
        Ok(
            ConfigView {
                port: if args.len() > 1 {
                    port_argument(args[1])->0
                } else {
                    DEFAULT_TCP_PORT
                },
                discovery_port: if args.len() > 4 {
                    port_argument(args[4])->0
                } else {
                    DEFAULT_DISCOVERY_PORT
                },
                log_path: if args.len() > 2 {
                    args[2]
                } else {
                    DEFAULT_LOG_FILE@
                },
                identity_path: if args.len() > 3 {
                    args[3]
                } else {
                    match identity_env {
                        Some(path) => path,
                        None => DEFAULT_IDENTITY_FILE@,
                    }
                },
            },
        )
    }
}

/// The text of each argument.
pub open spec fn argument_texts(args: Seq<String>) -> Seq<Seq<char>> {
    args.map_values(|arg: String| arg@)
}

/// The text of an optional argument.
pub open spec fn optional_text(text: Option<&str>) -> Option<Seq<char>> {
    match text {
        Some(text) => Some(text@),
        None => None,
    }
}

fn port_value(value: &String) -> (port: Option<u16>)
    ensures
        port == port_argument(value@),
{
    let chars = str_to_chars(value.as_str());
    match parse_u16(chars.as_slice()) {
        Some(port) => if port != 0 {
            Some(port)
        } else {
            None
        },
        None => None,
    }
}

fn owned(text: &str) -> (owned: String)
    ensures
        owned@ == text@,
{
    let chars = str_to_chars(text);
    chars_to_string(chars.as_slice())
}

impl Config {
    /// Parse the command line; its first element names the program.
    pub fn from_args(args: &[String], identity_env: Option<&str>) -> (result: Result<
        Config,
        CliError,
    >)
        ensures
            match config_spec(argument_texts(args@), optional_text(identity_env)) {
                Ok(config) => result matches Ok(parsed) && parsed@ == config,
                Err(error) => result matches Err(refused) && refused@ == error,
            },
    {
        let ghost texts = argument_texts(args@);
        if args.len() > 5 {
            return Err(CliError::Usage);
        }
        let port = if args.len() > 1 {
            assert(texts[1] == args@[1]@);
            match port_value(&args[1]) {
                Some(port) => port,
                None => return Err(CliError::InvalidTcpPort(args[1].clone())),
            }
        } else {
            DEFAULT_TCP_PORT
        };
        let discovery_port = if args.len() > 4 {
            assert(texts[4] == args@[4]@);
            match port_value(&args[4]) {
                Some(port) => port,
                None => return Err(CliError::InvalidDiscoveryPort(args[4].clone())),
            }
        } else {
            DEFAULT_DISCOVERY_PORT
        };
        let log_path = if args.len() > 2 {
            assert(texts[2] == args@[2]@);
            owned(args[2].as_str())
        } else {
            owned(DEFAULT_LOG_FILE)
        };
        let identity_path = if args.len() > 3 {
            assert(texts[3] == args@[3]@);
            owned(args[3].as_str())
        } else {
            match identity_env {
                Some(path) => owned(path),
                None => owned(DEFAULT_IDENTITY_FILE),
            }
        };
        Ok(Config { port, discovery_port, log_path, identity_path })
    }
}

// ---------------------------------------------------------------------------
// Duplicate detection
// ---------------------------------------------------------------------------
/// The events most recently logged, oldest first, at most `capacity` of them
/// and each at most once.
pub struct DedupCache {
    capacity: usize,
    order: Vec<(String, u64)>,
}

/// The content of a remembered event.
pub open spec fn key_view(key: (String, u64)) -> (Seq<char>, u64) {
    (key.0@, key.1)
}

/// The cache after remembering `key`: unchanged when the cache holds
/// nothing or already has it, else `key` is added last and the oldest entry
/// leaves when the cache is over capacity.
pub open spec fn remember(order: Seq<(Seq<char>, u64)>, capacity: nat, key: (Seq<char>, u64)) -> Seq<
    (Seq<char>, u64),
> {
    if capacity == 0 || order.contains(key) {
        order
    } else if order.len() + 1 > capacity {
        order.push(key).drop_first()
    } else {
        order.push(key)
    }
}

impl DedupCache {
    pub closed spec fn spec_capacity(&self) -> nat {
        self.capacity as nat
    }

    /// The remembered events, oldest first.
    pub closed spec fn spec_order(&self) -> Seq<(Seq<char>, u64)> {
        self.order@.map_values(|key: (String, u64)| key_view(key))
    }

    /// At most `capacity` events, none twice.
    pub open spec fn well_formed(&self) -> bool {
        &&& self.spec_order().len() <= self.spec_capacity()
        &&& self.spec_order().no_duplicates()
    }

    pub fn new(capacity: usize) -> (cache: Self)
        ensures
            cache.spec_capacity() == capacity,
            cache.spec_order() == Seq::<(Seq<char>, u64)>::empty(),
            cache.well_formed(),
    {
        let cache = DedupCache { capacity, order: Vec::new() };
        assert(cache.spec_order() =~= Seq::<(Seq<char>, u64)>::empty());
        cache
    }

    /// Whether the event was logged recently.
    pub fn contains(&self, session: &str, seq: u64) -> (found: bool)
        ensures
            found == self.spec_order().contains((session@, seq)),
    {
        let wanted = str_to_chars(session);
        let mut index: usize = 0;
        while index < self.order.len()
            invariant
                index <= self.order@.len(),
                wanted@ == session@,
                forall|j: int| 0 <= j < index ==> self.spec_order()[j] != (session@, seq),
            decreases self.order@.len() - index,
        {
            let entry = &self.order[index];
            let entry_chars = str_to_chars(entry.0.as_str());
            if entry.1 == seq && chars_equal(entry_chars.as_slice(), wanted.as_slice()) {
                assert(self.spec_order()[index as int] == (session@, seq));
                return true;
            }
            index = index + 1;
        }
        proof {
            if self.spec_order().contains((session@, seq)) {
                let j = choose|j: int|
                    0 <= j < self.spec_order().len() && self.spec_order()[j] == (session@, seq);
                assert(self.spec_order()[j] != (session@, seq));
            }
        }
        false
    }

    /// Remember a logged event, forgetting the oldest beyond capacity.
    pub fn insert(&mut self, session: String, seq: u64)
        requires
            old(self).well_formed(),
        ensures
            final(self).well_formed(),
            final(self).spec_capacity() == old(self).spec_capacity(),
            final(self).spec_order() == remember(
                old(self).spec_order(),
                old(self).spec_capacity(),
                (session@, seq),
            ),
    {
        if self.capacity == 0 || self.contains(session.as_str(), seq) {
            return;
        }
        let ghost before = self.spec_order();
        self.order.push((session, seq));
        assert(self.spec_order() =~= before.push((session@, seq)));
        if self.order.len() > self.capacity {
            self.order.remove(0);
            assert(self.spec_order() =~= before.push((session@, seq)).drop_first());
        }
        proof {
            let after = before.push((session@, seq));
            assert(after.no_duplicates()) by {
                assert forall|i: int, j: int|
                    0 <= i < after.len() && 0 <= j < after.len() && i != j implies after[i]
                    != after[j] by {
                    if i < before.len() && j < before.len() {
                    } else if i == before.len() {
                        assert(before[j] != (session@, seq)) by {
                            if before[j] == (session@, seq) {
                                assert(before.contains((session@, seq)));
                            }
                        }
                    } else {
                        assert(before[i] != (session@, seq)) by {
                            if before[i] == (session@, seq) {
                                assert(before.contains((session@, seq)));
                            }
                        }
                    }
                }
            }
        }
    }
}

/// Once an event is logged and remembered, the same line on the same
/// connection is a duplicate: it is acknowledged and not logged again, as
/// long as the cache holds anything at all.
pub proof fn lemma_logged_event_is_not_logged_again(
    negotiated: Option<Seq<char>>,
    line: Seq<char>,
    companion: Seq<char>,
    logged: Seq<(Seq<char>, u64)>,
    capacity: nat,
)
    requires
        capacity > 0,
        line_spec(negotiated, line, companion, logged).1 is LogEvent,
    ensures
        ({
            let (after, first) = line_spec(negotiated, line, companion, logged);
            let remembered = remember(logged, capacity, (first->LogEvent_session, first->LogEvent_seq));
            let (_, second) = line_spec(after, line, companion, remembered);
            &&& second is Duplicate
            &&& second->Duplicate_ack == first->LogEvent_ack
        }),
{
    let (after, first) = line_spec(negotiated, line, companion, logged);
    let key = (first->LogEvent_session, first->LogEvent_seq);
    let pushed = logged.push(key);
    assert(pushed[pushed.len() - 1] == key);
    if logged.len() + 1 > capacity {
        assert(pushed.drop_first()[pushed.len() - 2] == key);
    }
}

/// Remembering keeps the cache within its capacity and free of repeats, and
/// a remembered event is found while the cache holds anything.
pub proof fn lemma_remember_is_bounded(order: Seq<(Seq<char>, u64)>, capacity: nat, key: (Seq<char>, u64))
    requires
        order.len() <= capacity,
        order.no_duplicates(),
    ensures
        remember(order, capacity, key).len() <= capacity,
        remember(order, capacity, key).no_duplicates(),
        capacity > 0 ==> remember(order, capacity, key).contains(key),
{
    if capacity > 0 && !order.contains(key) {
        let pushed = order.push(key);
        assert(pushed[pushed.len() - 1] == key);
        assert(pushed.no_duplicates()) by {
            assert forall|i: int, j: int|
                0 <= i < pushed.len() && 0 <= j < pushed.len() && i != j implies pushed[i]
                != pushed[j] by {
                if i == order.len() && order[j] == key {
                    assert(order.contains(key));
                }
                if j == order.len() && order[i] == key {
                    assert(order.contains(key));
                }
            }
        }
        if order.len() + 1 > capacity {
            assert(pushed.drop_first()[pushed.len() - 2] == key);
        }
    }
}

// ---------------------------------------------------------------------------
// One Kindle connection
// ---------------------------------------------------------------------------
/// What one line from the Kindle asks of the companion.
#[derive(Clone, Debug, PartialEq, Eq)]
pub enum LineAction {
    /// A blank line.
    Skip,
    /// Not a valid stream message; reported and skipped.
    Rejected(ProtocolError),
    /// A second Hello on a negotiated connection; reported and skipped.
    RepeatedHello,
    /// Send this reply to a Hello.
    Reply(StreamMessage),
    /// An event whose session this connection did not negotiate.
    UnnegotiatedEvent,
    /// Append `record` to the log, remember the event, then send `ack`.
    LogEvent { record: String, session: String, seq: u64, ack: StreamMessage },
    /// An event already logged: send `ack` only.
    Duplicate { session: String, seq: u64, ack: StreamMessage },
    /// Append `record` to the log.
    LogLegacy { record: String },
    /// A message that only the companion sends.
    WrongDirection,
    /// The canonical record could not be formatted; the connection ends.
    Failed(ProtocolError),
}

/// The content of a line action.
pub enum LineView {
    Skip,
    Rejected(ProtocolErrorView),
    RepeatedHello,
    Reply(StreamView),
    UnnegotiatedEvent,
    LogEvent { record: Seq<char>, session: Seq<char>, seq: u64, ack: StreamView },
    Duplicate { session: Seq<char>, seq: u64, ack: StreamView },
    LogLegacy { record: Seq<char> },
    WrongDirection,
    Failed(ProtocolErrorView),
}

impl View for LineAction {
    type V = LineView;

    open spec fn view(&self) -> LineView {
        match self {
            LineAction::Skip => LineView::Skip,
            LineAction::Rejected(error) => LineView::Rejected(error@),
            LineAction::RepeatedHello => LineView::RepeatedHello,
            LineAction::Reply(message) => LineView::Reply(message@),
            LineAction::UnnegotiatedEvent => LineView::UnnegotiatedEvent,
            LineAction::LogEvent { record, session, seq, ack } => LineView::LogEvent {
                record: record@,
                session: session@,
                seq: *seq,
                ack: ack@,
            },
            LineAction::Duplicate { session, seq, ack } => LineView::Duplicate {
                session: session@,
                seq: *seq,
                ack: ack@,
            },
            LineAction::LogLegacy { record } => LineView::LogLegacy { record: record@ },
            LineAction::WrongDirection => LineView::WrongDirection,
            LineAction::Failed(error) => LineView::Failed(error@),
        }
    }
}

/// The log record of a message: its canonical line without the newline.
pub open spec fn record_of(message: StreamView) -> Result<Seq<char>, ProtocolErrorView> {
    match format_stream_spec(message) {
        Ok(line) => Ok(trim_end(line)),
        Err(error) => Err(error),
    }
}

/// What a line does on a connection that negotiated `negotiated`, for a
/// companion named `companion` that logged `logged`: the session afterwards
/// and the action. A Hello negotiates once; an event of the negotiated
/// session is logged once and acknowledged every time; a legacy event is
/// logged.
pub open spec fn line_spec(
    negotiated: Option<Seq<char>>,
    line: Seq<char>,
    companion: Seq<char>,
    logged: Seq<(Seq<char>, u64)>,
) -> (Option<Seq<char>>, LineView) {
    if line.len() == 0 {
        (negotiated, LineView::Skip)
    } else {
        match parse_stream_spec(line) {
            Err(error) => (negotiated, LineView::Rejected(error)),
            Ok(StreamView::Hello { session }) => if negotiated is Some {
                (negotiated, LineView::RepeatedHello)
            } else {
                (Some(session), LineView::Reply(StreamView::Welcome { companion }))
            },
            Ok(StreamView::Event { session, seq, action }) => {
                let ack = StreamView::Ack { session, seq, status: AckStatus::Logged };
                if negotiated != Some(session) {
                    (negotiated, LineView::UnnegotiatedEvent)
                } else if logged.contains((session, seq)) {
                    (negotiated, LineView::Duplicate { session, seq, ack })
                } else {
                    match record_of(StreamView::Event { session, seq, action }) {
                        Ok(record) => (negotiated, LineView::LogEvent { record, session, seq, ack }),
                        Err(error) => (negotiated, LineView::Failed(error)),
                    }
                }
            },
            Ok(StreamView::LegacyEvent { action }) => match record_of(
                StreamView::LegacyEvent { action },
            ) {
                Ok(record) => (negotiated, LineView::LogLegacy { record }),
                Err(error) => (negotiated, LineView::Failed(error)),
            },
            Ok(_) => (negotiated, LineView::WrongDirection),
        }
    }
}

/// The log record of a message.
fn record(message: &StreamMessage) -> (result: Result<String, ProtocolError>)
    ensures
        match record_of(message@) {
            Ok(text) => result matches Ok(record) && record@ == text,
            Err(error) => result matches Err(failure) && failure@ == error,
        },
{
    match format_stream_message(message) {
        Ok(line) => {
            let chars = str_to_chars(line.as_str());
            let end = trim_end_len(chars.as_slice());
            let kept = sub_chars(chars.as_slice(), 0, end);
            Ok(chars_to_string(kept.as_slice()))
        },
        Err(error) => Err(error),
    }
}

/// The state of one Kindle connection: the session its Hello negotiated.
pub struct CompanionSession {
    negotiated: Option<String>,
}

impl CompanionSession {
    pub closed spec fn spec_negotiated(&self) -> Option<Seq<char>> {
        match &self.negotiated {
            Some(session) => Some(session@),
            None => None,
        }
    }

    pub fn new() -> (session: Self)
        ensures
            session.spec_negotiated() is None,
    {
        CompanionSession { negotiated: None }
    }

    /// Decide what one line from the Kindle asks for.
    pub fn on_line(&mut self, line: &str, companion_id: &str, dedup: &DedupCache) -> (action:
        LineAction)
        ensures
            (final(self).spec_negotiated(), action@) == line_spec(
                old(self).spec_negotiated(),
                line@,
                companion_id@,
                dedup.spec_order(),
            ),
    {
        let chars = str_to_chars(line);
        if chars.len() == 0 {
            return LineAction::Skip;
        }
        let message = match parse_stream_message(line) {
            Ok(message) => message,
            Err(error) => return LineAction::Rejected(error),
        };
        match message {
            StreamMessage::Hello { session } => {
                if self.negotiated.is_some() {
                    return LineAction::RepeatedHello;
                }
                self.negotiated = Some(session);
                LineAction::Reply(StreamMessage::Welcome { companion: owned(companion_id) })
            },
            StreamMessage::Event { session, seq, action } => {
                let matches = match &self.negotiated {
                    Some(negotiated) => {
                        let expected = str_to_chars(negotiated.as_str());
                        let actual = str_to_chars(session.as_str());
                        chars_equal(expected.as_slice(), actual.as_slice())
                    },
                    None => false,
                };
                if !matches {
                    return LineAction::UnnegotiatedEvent;
                }
                let ack = StreamMessage::Ack {
                    session: session.clone(),
                    seq,
                    status: AckStatus::Logged,
                };
                if dedup.contains(session.as_str(), seq) {
                    return LineAction::Duplicate { session, seq, ack };
                }
                let event = StreamMessage::Event { session: session.clone(), seq, action };
                match record(&event) {
                    Ok(record) => LineAction::LogEvent { record, session, seq, ack },
                    Err(error) => LineAction::Failed(error),
                }
            },
            StreamMessage::LegacyEvent { action } => {
                match record(&StreamMessage::LegacyEvent { action }) {
                    Ok(record) => LineAction::LogLegacy { record },
                    Err(error) => LineAction::Failed(error),
                }
            },
            _ => LineAction::WrongDirection,
        }
    }
}

// ---------------------------------------------------------------------------
// Discovery and operator input
// ---------------------------------------------------------------------------
/// What one discovery datagram asks of the companion.
#[derive(Clone, Debug, PartialEq, Eq)]
pub enum DiscoveryReply {
    /// Send this offer back.
    Offer(String),
    /// Another companion's offer; ignored.
    IgnoredOffer,
    /// Not a valid discovery datagram; reported and ignored.
    Rejected(ProtocolError),
    /// The offer could not be formatted; reported and ignored.
    Failed(ProtocolError),
}

/// The content of a discovery reply.
pub enum DiscoveryReplyView {
    Offer(Seq<char>),
    IgnoredOffer,
    Rejected(ProtocolErrorView),
    Failed(ProtocolErrorView),
}

impl View for DiscoveryReply {
    type V = DiscoveryReplyView;

    open spec fn view(&self) -> DiscoveryReplyView {
        match self {
            DiscoveryReply::Offer(text) => DiscoveryReplyView::Offer(text@),
            DiscoveryReply::IgnoredOffer => DiscoveryReplyView::IgnoredOffer,
            DiscoveryReply::Rejected(error) => DiscoveryReplyView::Rejected(error@),
            DiscoveryReply::Failed(error) => DiscoveryReplyView::Failed(error@),
        }
    }
}

/// The answer to a discovery datagram: a Discover is answered with an offer
/// that echoes its nonce and names this companion and its TCP port.
pub open spec fn discovery_reply_spec(datagram: Seq<u8>, companion: Seq<char>, tcp_port: u16) -> DiscoveryReplyView {
    match parse_discovery_spec(datagram) {
        Ok(DiscoveryView::Discover { nonce }) => match format_discovery_spec(
            DiscoveryView::Offer { nonce, companion, port: tcp_port },
        ) {
            Ok(text) => DiscoveryReplyView::Offer(text),
            Err(error) => DiscoveryReplyView::Failed(error),
        },
        Ok(DiscoveryView::Offer { .. }) => DiscoveryReplyView::IgnoredOffer,
        Err(error) => DiscoveryReplyView::Rejected(error),
    }
}

/// Decide the answer to one discovery datagram.
pub fn discovery_reply(datagram: &[u8], companion_id: &str, tcp_port: u16) -> (reply: DiscoveryReply)
    ensures
        reply@ == discovery_reply_spec(datagram@, companion_id@, tcp_port),
{
    match parse_discovery_message(datagram) {
        Ok(DiscoveryMessage::Discover { nonce }) => {
            let offer = DiscoveryMessage::Offer {
                nonce,
                companion: owned(companion_id),
                port: tcp_port,
            };
            match format_discovery_message(&offer) {
                Ok(text) => DiscoveryReply::Offer(text),
                Err(error) => DiscoveryReply::Failed(error),
            }
        },
        Ok(DiscoveryMessage::Offer { .. }) => DiscoveryReply::IgnoredOffer,
        Err(error) => DiscoveryReply::Rejected(error),
    }
}

/// What one operator line asks for.
#[derive(Clone, Debug, PartialEq, Eq)]
pub enum OperatorInput {
    /// A blank line.
    Blank,
    /// Send this Display message to the active Kindle.
    Display(StreamMessage),
    /// A valid message other than Display; refused.
    NotDisplay,
    /// Not a valid message; refused.
    Rejected(ProtocolError),
}

/// The content of an operator decision.
pub enum OperatorView {
    Blank,
    Display(Seq<char>),
    NotDisplay,
    Rejected(ProtocolErrorView),
}

impl View for OperatorInput {
    type V = OperatorView;

    open spec fn view(&self) -> OperatorView {
        match self {
            OperatorInput::Blank => OperatorView::Blank,
            OperatorInput::Display(StreamMessage::Display { text }) => OperatorView::Display(text@),
            OperatorInput::Display(_) => OperatorView::NotDisplay,
            OperatorInput::NotDisplay => OperatorView::NotDisplay,
            OperatorInput::Rejected(error) => OperatorView::Rejected(error@),
        }
    }
}

/// What an operator line gives: only `display <text>` is sent.
pub open spec fn operator_spec(line: Seq<char>) -> OperatorView {
    if trim(line).len() == 0 {
        OperatorView::Blank
    } else {
        match parse_stream_spec(line) {
            Ok(StreamView::Display { text }) => OperatorView::Display(text),
            Ok(_) => OperatorView::NotDisplay,
            Err(error) => OperatorView::Rejected(error),
        }
    }
}

/// Decide what one operator line asks for.
pub fn operator_input(line: &str) -> (input: OperatorInput)
    ensures
        input@ == operator_spec(line@),
{
    let chars = str_to_chars(line);
    let kept = trimmed(chars.as_slice());
    if kept.len() == 0 {
        return OperatorInput::Blank;
    }
    match parse_stream_message(line) {
        Ok(StreamMessage::Display { text }) => OperatorInput::Display(StreamMessage::Display { text }),
        Ok(_) => OperatorInput::NotDisplay,
        Err(error) => OperatorInput::Rejected(error),
    }
}

/// A companion identity is usable when a Welcome can carry it.
pub fn validate_identity(identity: &str) -> (result: Result<String, ProtocolError>)
    ensures
        match format_stream_spec(StreamView::Welcome { companion: identity@ }) {
            Ok(_) => result matches Ok(valid) && valid@ == identity@,
            Err(error) => result matches Err(failure) && failure@ == error,
        },
{
    match format_stream_message(&StreamMessage::Welcome { companion: owned(identity) }) {
        Ok(_) => Ok(owned(identity)),
        Err(error) => Err(error),
    }
}

} // verus!
