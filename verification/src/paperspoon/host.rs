//! The PaperSpoon listener's decisions: its command line, which frame is
//! authoritative for the connected PaperPad, how frame ids advance, and when
//! application input is active.
//!
//! Sockets, clocks, threads and the URL launch stay with the caller, which
//! reports each send's outcome back here.
use crate::datagram::{
    format_here, here_text, parse_discover, parse_discover_spec, DEFAULT_TCP_PORT,
};
use crate::paperspoon::application_input::ApplicationInput;
use crate::paperspoon::diagnostic::DiagnosticFrame;
use crate::text::{chars_equal, chars_to_string, decimal, parse_u16, parse_u16_spec, push_decimal, push_str, str_to_chars};
use vstd::prelude::*;

verus! {

/// Default TCP port; the PaperPad side uses the same default.
pub const DEFAULT_PORT: u16 = DEFAULT_TCP_PORT;

/// Default log file for received activation lines.
pub const DEFAULT_LOG_FILE: &'static str = "paperspoon.log";

/// Whether actions are forwarded to Hammerspoon unless disabled.
pub const FORWARD_TO_HAMMERSPOON: bool = true;

/// The flag that disables forwarding.
pub const NO_FORWARD_URL_FLAG: &'static str = "--no-forward-url";

/// Parsed command line.
#[derive(Clone, Debug, PartialEq, Eq)]
pub struct Options {
    pub port: u16,
    pub log_path: String,
    /// Whether resolved actions are forwarded to Hammerspoon.
    pub forward_url: bool,
}

/// The content of parsed options.
pub struct OptionsView {
    pub port: u16,
    pub log_path: Seq<char>,
    pub forward_url: bool,
}

impl View for Options {
    type V = OptionsView;

    open spec fn view(&self) -> OptionsView {
        OptionsView { port: self.port, log_path: self.log_path@, forward_url: self.forward_url }
    }
}

/// The options before any argument.
pub open spec fn default_options() -> OptionsView {
    OptionsView { port: DEFAULT_PORT, log_path: DEFAULT_LOG_FILE@, forward_url: FORWARD_TO_HAMMERSPOON }
}

/// One argument applied to the options: the flag disables forwarding; any
/// other argument sets the port if the port is still the default and the
/// argument is a `u16`, else the log path if that is still the default, and
/// is otherwise ignored.
pub open spec fn options_step(options: OptionsView, arg: Seq<char>) -> OptionsView {
    if arg == NO_FORWARD_URL_FLAG@ {
        OptionsView { forward_url: false, ..options }
    } else if options.port == DEFAULT_PORT && parse_u16_spec(arg) is Some {
        OptionsView { port: parse_u16_spec(arg)->0, ..options }
    } else if options.log_path == DEFAULT_LOG_FILE@ {
        OptionsView { log_path: arg, ..options }
    } else {
        options
    }
}

/// The options the arguments give, applied in order.
pub open spec fn options_over(args: Seq<Seq<char>>) -> OptionsView
    decreases args.len(),
{
    if args.len() == 0 {
        default_options()
    } else {
        options_step(options_over(args.drop_last()), args.last())
    }
}

/// The options a command line gives; its first element names the program.
pub open spec fn options_spec(args: Seq<Seq<char>>) -> OptionsView {
    if args.len() == 0 {
        default_options()
    } else {
        options_over(args.subrange(1, args.len() as int))
    }
}

/// The text of each argument.
pub open spec fn argument_texts(args: Seq<String>) -> Seq<Seq<char>> {
    args.map_values(|arg: String| arg@)
}

/// Parse the command line `paperspoon [<port> <log-file>] [--no-forward-url]`.
pub fn parse_options(args: &[String]) -> (options: Options)
    ensures
        options@ == options_spec(argument_texts(args@)),
{
    let ghost texts = argument_texts(args@);
    let flag = str_to_chars(NO_FORWARD_URL_FLAG);
    let default_log = str_to_chars(DEFAULT_LOG_FILE);
    let mut port: u16 = DEFAULT_PORT;
    let mut log_path: Vec<char> = str_to_chars(DEFAULT_LOG_FILE);
    let mut forward_url: bool = FORWARD_TO_HAMMERSPOON;
    if args.len() == 0 {
        return Options { port, log_path: chars_to_string(log_path.as_slice()), forward_url };
    }
    let mut index: usize = 1;
    while index < args.len()
        invariant
            1 <= index <= args@.len(),
            texts == argument_texts(args@),
            flag@ == NO_FORWARD_URL_FLAG@,
            default_log@ == DEFAULT_LOG_FILE@,
            (OptionsView { port, log_path: log_path@, forward_url }) == options_over(
                texts.subrange(1, index as int),
            ),
        decreases args@.len() - index,
    {
        let arg = str_to_chars(args[index].as_str());
        proof {
            assert(texts.subrange(1, index + 1).drop_last() =~= texts.subrange(1, index as int));
            assert(texts.subrange(1, index + 1).last() == arg@);
        }
        if chars_equal(arg.as_slice(), flag.as_slice()) {
            forward_url = false;
        } else {
            let parsed = if port == DEFAULT_PORT {
                parse_u16(arg.as_slice())
            } else {
                None
            };
            match parsed {
                Some(value) => {
                    port = value;
                },
                None => {
                    if chars_equal(log_path.as_slice(), default_log.as_slice()) {
                        log_path = arg;
                    }
                },
            }
        }
        index = index + 1;
    }
    proof {
        assert(texts.subrange(1, args@.len() as int) =~= texts.subrange(1, index as int));
    }
    Options { port, log_path: chars_to_string(log_path.as_slice()), forward_url }
}

/// The Hammerspoon URL that carries an action id as its query parameter.
pub fn forward_url_target(action_id: &str) -> (url: String)
    ensures
        url@ == "hammerspoon://paperpad?action="@ + action_id@,
{
    let mut out: Vec<char> = Vec::new();
    push_str(&mut out, "hammerspoon://paperpad?action=");
    push_str(&mut out, action_id);
    chars_to_string(out.as_slice())
}

/// One log line: the timestamp in seconds, the origin and the record.
pub fn log_line(timestamp: u64, origin: &str, record: &str) -> (line: String)
    ensures
        line@ == decimal(timestamp as nat) + " "@ + origin@ + " "@ + record@ + "\n"@,
{
    let mut out: Vec<char> = Vec::new();
    push_decimal(&mut out, timestamp);
    push_str(&mut out, " ");
    push_str(&mut out, origin);
    push_str(&mut out, " ");
    push_str(&mut out, record);
    push_str(&mut out, "\n");
    assert(out@ =~= decimal(timestamp as nat) + " "@ + origin@ + " "@ + record@ + "\n"@);
    chars_to_string(out.as_slice())
}

/// The application viewport input may use: the rendered one, only while it
/// is the viewport PaperPad reports.
pub fn matching_application_viewport(
    reported_viewport: (u16, u16),
    rendered_application_viewport: Option<(u16, u16)>,
) -> (viewport: Option<(u16, u16)>)
    ensures
        viewport == (match rendered_application_viewport {
            Some(rendered) => if rendered == reported_viewport {
                Some(rendered)
            } else {
                None
            },
            None => None,
        }),
{
    match rendered_application_viewport {
        Some(rendered) => if rendered.0 == reported_viewport.0 && rendered.1
            == reported_viewport.1 {
            Some(rendered)
        } else {
            None
        },
        None => None,
    }
}

/// The frame PaperSpoon last sent successfully, resent after a matching
/// Hello.
#[derive(Clone, Copy, Debug, PartialEq, Eq)]
pub enum AuthoritativeFrame {
    Application { viewport: (u16, u16) },
    Diagnostic(DiagnosticFrame),
}

/// The extent of an authoritative frame.
pub open spec fn frame_dimensions(frame: AuthoritativeFrame) -> (u16, u16) {
    match frame {
        AuthoritativeFrame::Application { viewport } => viewport,
        AuthoritativeFrame::Diagnostic(frame) => (frame.width, frame.height),
    }
}

/// The application viewport a frame shows, if it is the application UI.
pub open spec fn frame_application_viewport(frame: AuthoritativeFrame) -> Option<(u16, u16)> {
    match frame {
        AuthoritativeFrame::Application { viewport } => Some(viewport),
        AuthoritativeFrame::Diagnostic(_) => None,
    }
}

impl AuthoritativeFrame {
    pub fn dimensions(self) -> (dimensions: (u16, u16))
        ensures
            dimensions == frame_dimensions(self),
    {
        match self {
            AuthoritativeFrame::Application { viewport } => viewport,
            AuthoritativeFrame::Diagnostic(frame) => frame.dimensions(),
        }
    }

    pub fn application_viewport(self) -> (viewport: Option<(u16, u16)>)
        ensures
            viewport == frame_application_viewport(self),
    {
        match self {
            AuthoritativeFrame::Application { viewport } => Some(viewport),
            AuthoritativeFrame::Diagnostic(_) => None,
        }
    }
}

/// No frame id is left: the last one, `u64::MAX`, is never issued.
#[derive(Clone, Copy, Debug, PartialEq, Eq, Structural)]
pub struct FrameIdExhausted;

impl FrameIdExhausted {
    pub fn message(&self) -> (text: &'static str)
        ensures
            text@ == "frame ID exhausted"@,
    {
        "frame ID exhausted"
    }
}

/// The frame to send after a Hello for `viewport`, and whether it is the
/// retained authoritative frame.
pub open spec fn hello_choice(
    authoritative: Option<AuthoritativeFrame>,
    viewport: (u16, u16),
) -> (AuthoritativeFrame, bool) {
    match authoritative {
        Some(frame) => if frame_dimensions(frame) == viewport {
            (frame, true)
        } else {
            (AuthoritativeFrame::Application { viewport }, false)
        },
        None => (AuthoritativeFrame::Application { viewport }, false),
    }
}

/// The frame-id counter and the authoritative frame, shared by every frame
/// producer. Ids start at one and advance only when a frame was sent.
pub struct FrameSenderState {
    next_frame_id: u64,
    authoritative: Option<AuthoritativeFrame>,
}

impl FrameSenderState {
    pub closed spec fn spec_next_frame_id(&self) -> u64 {
        self.next_frame_id
    }

    pub closed spec fn spec_authoritative(&self) -> Option<AuthoritativeFrame> {
        self.authoritative
    }

    pub fn new() -> (state: Self)
        ensures
            state.spec_next_frame_id() == 1,
            state.spec_authoritative() is None,
    {
        FrameSenderState { next_frame_id: 1, authoritative: None }
    }

    pub fn next_frame_id(&self) -> (frame_id: u64)
        ensures
            frame_id == self.spec_next_frame_id(),
    {
        self.next_frame_id
    }

    pub fn authoritative(&self) -> (frame: Option<AuthoritativeFrame>)
        ensures
            frame == self.spec_authoritative(),
    {
        self.authoritative
    }

    /// The id for the next frame, checked before anything is encoded.
    pub fn reserve_frame_id(&self) -> (result: Result<u64, FrameIdExhausted>)
        ensures
            self.spec_next_frame_id() < u64::MAX ==> result == Ok::<u64, FrameIdExhausted>(
                self.spec_next_frame_id(),
            ),
            self.spec_next_frame_id() == u64::MAX ==> result is Err,
    {
        if self.next_frame_id == u64::MAX {
            Err(FrameIdExhausted)
        } else {
            Ok(self.next_frame_id)
        }
    }

    /// Record that the frame with the reserved id reached the connection;
    /// a sent authoritative frame replaces the retained one. Returns the
    /// application viewport the sent frame shows.
    pub fn record_sent(
        &mut self,
        frame_id: u64,
        authoritative: Option<AuthoritativeFrame>,
    ) -> (application_viewport: Option<(u16, u16)>)
        requires
            frame_id == old(self).spec_next_frame_id(),
            frame_id < u64::MAX,
        ensures
            final(self).spec_next_frame_id() == frame_id + 1,
            final(self).spec_authoritative() == (match authoritative {
                Some(frame) => Some(frame),
                None => old(self).spec_authoritative(),
            }),
            application_viewport == (match authoritative {
                Some(frame) => frame_application_viewport(frame),
                None => None,
            }),
    {
        self.next_frame_id = frame_id + 1;
        match authoritative {
            Some(frame) => {
                self.authoritative = Some(frame);
                frame.application_viewport()
            },
            None => None,
        }
    }

    /// The frame to send after a Hello: the retained frame when its extent
    /// is the reported viewport, otherwise the application UI at it.
    pub fn hello_frame(&self, viewport: (u16, u16)) -> (choice: (AuthoritativeFrame, bool))
        ensures
            choice == hello_choice(self.spec_authoritative(), viewport),
    {
        match self.authoritative {
            Some(frame) => {
                let dimensions = frame.dimensions();
                if dimensions.0 == viewport.0 && dimensions.1 == viewport.1 {
                    (frame, true)
                } else {
                    (AuthoritativeFrame::Application { viewport }, false)
                }
            },
            None => (AuthoritativeFrame::Application { viewport }, false),
        }
    }
}

impl Default for FrameSenderState {
    fn default() -> (state: Self)
        ensures
            state.spec_next_frame_id() == 1,
            state.spec_authoritative() is None,
    {
        FrameSenderState::new()
    }
}

/// Install the application viewport the display now shows after a frame
/// replacement: `None` when the replacement was not sent or is not the
/// application UI. Input is active exactly for a shown application viewport.
pub fn show_application_viewport(
    input: &mut ApplicationInput,
    rendered_viewport: &mut Option<(u16, u16)>,
    shown: Option<(u16, u16)>,
)
    ensures
        *final(rendered_viewport) == shown,
        final(input).spec_viewport() == (match shown {
            Some((width, height)) => if width > 0 && height > 0 {
                Some((width, height))
            } else {
                None
            },
            None => None,
        }),
{
    *rendered_viewport = shown;
    input.set_viewport(shown);
}

/// The responder was asked to advertise TCP port 0.
#[derive(Clone, Copy, Debug, PartialEq, Eq, Structural)]
pub struct ZeroTcpPort;

impl ZeroTcpPort {
    pub fn message(&self) -> (text: &'static str)
        ensures
            text@ == "discovery cannot advertise TCP port 0"@,
    {
        "discovery cannot advertise TCP port 0"
    }
}

/// The answer to one discovery datagram: a HERE echoing a valid DISCOVER's
/// nonce with the TCP port, nothing for anything else; port 0 is never
/// advertised.
pub fn discovery_response(datagram: &[u8], tcp_port: u16) -> (response: Result<
    Option<String>,
    ZeroTcpPort,
>)
    ensures
        tcp_port == 0 ==> response is Err,
        tcp_port != 0 ==> match parse_discover_spec(datagram@) {
            Some(nonce) => response matches Ok(Some(text)) && text@ == here_text(nonce, tcp_port),
            None => response matches Ok(None),
        },
{
    if tcp_port == 0 {
        return Err(ZeroTcpPort);
    }
    match parse_discover(datagram) {
        Some(nonce) => Ok(Some(format_here(nonce.as_str(), tcp_port))),
        None => Ok(None),
    }
}

} // verus!
