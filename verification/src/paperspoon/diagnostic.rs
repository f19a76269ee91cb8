//! Operator commands for host-generated frames: `ui <width>x<height>` and
//! `frame <pattern> <width>x<height>`, and the diagnostic patterns.
use crate::framebuffer::{
    mono1_payload_len, pixel_is_black, stride_of, valid_mono1, Mono1FrameError, Mono1Pixel,
};
use crate::paperspoon::mono_renderer::MonoCanvas;
use crate::text::{
    chars_to_string, debug_quoted, debug_text, decimal, push_decimal, push_str, chars_equal, find_char, first_index_of, lemma_first_index_of, parse_u16, parse_u16_spec,
    split_tokens, str_to_chars, sub_chars, token_views, tokens,
};
use crate::v2::{encoded_message, V2EncodeError, V2MessageType, V2_MAX_PAYLOAD_LEN};
use crate::v2_payload::{encode_v2_frame, frame_payload, V2_FRAME_PREFIX_LEN};
use vstd::prelude::*;

verus! {

#[derive(Clone, Copy, Debug, PartialEq, Eq, Structural)]
pub enum DiagnosticPattern {
    White,
    Black,
    Horizontal,
    Checkerboard,
    Border,
    Corners,
}

/// The larger of two values.
pub open spec fn max_u16(a: u16, b: u16) -> u16 {
    if a >= b {
        a
    } else {
        b
    }
}

/// The smaller of two values.
pub open spec fn min_u16(a: u16, b: u16) -> u16 {
    if a <= b {
        a
    } else {
        b
    }
}

/// `a - b`, or zero.
pub open spec fn saturating_sub_u16(a: u16, b: u16) -> u16 {
    if a >= b {
        (a - b) as u16
    } else {
        0
    }
}

/// Four filled blocks of different sizes, one in each corner, so every
/// corner is distinguishable: the largest at the top left, then top right,
/// bottom left and bottom right.
pub open spec fn corner_marker_spec(x: u16, y: u16, width: u16, height: u16) -> bool {
    let largest = min_u16(min_u16(width, height), 256);
    let top_right = max_u16((largest * 3 / 4) as u16, 1);
    let bottom_left = max_u16(largest / 2, 1);
    let bottom_right = max_u16(largest / 4, 1);
    ||| (x < largest && y < largest)
    ||| (x >= saturating_sub_u16(width, top_right) && y < top_right)
    ||| (x < bottom_left && y >= saturating_sub_u16(height, bottom_left))
    ||| (x >= saturating_sub_u16(width, bottom_right) && y >= saturating_sub_u16(height, bottom_right))
}

/// Whether a pattern paints `(x, y)` black.
pub open spec fn pattern_black(pattern: DiagnosticPattern, x: u16, y: u16, width: u16, height: u16) -> bool {
    match pattern {
        DiagnosticPattern::White => false,
        DiagnosticPattern::Black => true,
        DiagnosticPattern::Horizontal => y & 1 == 0,
        DiagnosticPattern::Checkerboard => (x ^ y) & 1 == 0,
        DiagnosticPattern::Border => x == 0 || y == 0 || x == width - 1 || y == height - 1,
        DiagnosticPattern::Corners => corner_marker_spec(x, y, width, height),
    }
}

/// The name of a pattern on the command line.
pub open spec fn pattern_name(pattern: DiagnosticPattern) -> Seq<char> {
    match pattern {
        DiagnosticPattern::White => "white"@,
        DiagnosticPattern::Black => "black"@,
        DiagnosticPattern::Horizontal => "horizontal"@,
        DiagnosticPattern::Checkerboard => "checkerboard"@,
        DiagnosticPattern::Border => "border"@,
        DiagnosticPattern::Corners => "corners"@,
    }
}

/// The pattern named `name`, if any.
pub open spec fn pattern_named(name: Seq<char>) -> Option<DiagnosticPattern> {
    if name == "white"@ {
        Some(DiagnosticPattern::White)
    } else if name == "black"@ {
        Some(DiagnosticPattern::Black)
    } else if name == "horizontal"@ {
        Some(DiagnosticPattern::Horizontal)
    } else if name == "checkerboard"@ {
        Some(DiagnosticPattern::Checkerboard)
    } else if name == "border"@ {
        Some(DiagnosticPattern::Border)
    } else if name == "corners"@ {
        Some(DiagnosticPattern::Corners)
    } else {
        None
    }
}

/// Four filled blocks of different sizes make every corner distinguishable.
pub fn corner_marker(x: u16, y: u16, width: u16, height: u16) -> (black: bool)
    ensures
        black == corner_marker_spec(x, y, width, height),
{
    let smaller = if width <= height {
        width
    } else {
        height
    };
    let largest = if smaller <= 256 {
        smaller
    } else {
        256
    };
    let three_quarters = largest * 3 / 4;
    let top_right = if three_quarters >= 1 {
        three_quarters
    } else {
        1
    };
    let bottom_left = if largest / 2 >= 1 {
        largest / 2
    } else {
        1
    };
    let bottom_right = if largest / 4 >= 1 {
        largest / 4
    } else {
        1
    };
    (x < largest && y < largest) || (x >= width.saturating_sub(top_right) && y < top_right) || (x
        < bottom_left && y >= height.saturating_sub(bottom_left)) || (x >= width.saturating_sub(
        bottom_right,
    ) && y >= height.saturating_sub(bottom_right))
}

impl DiagnosticPattern {
    pub fn parse(value: &str) -> (pattern: Option<Self>)
        ensures
            pattern == pattern_named(value@),
    {
        let chars = str_to_chars(value);
        if is_text(chars.as_slice(), "white") {
            Some(DiagnosticPattern::White)
        } else if is_text(chars.as_slice(), "black") {
            Some(DiagnosticPattern::Black)
        } else if is_text(chars.as_slice(), "horizontal") {
            Some(DiagnosticPattern::Horizontal)
        } else if is_text(chars.as_slice(), "checkerboard") {
            Some(DiagnosticPattern::Checkerboard)
        } else if is_text(chars.as_slice(), "border") {
            Some(DiagnosticPattern::Border)
        } else if is_text(chars.as_slice(), "corners") {
            Some(DiagnosticPattern::Corners)
        } else {
            None
        }
    }

    pub fn name(self) -> (name: &'static str)
        ensures
            name@ == pattern_name(self),
    {
        match self {
            DiagnosticPattern::White => "white",
            DiagnosticPattern::Black => "black",
            DiagnosticPattern::Horizontal => "horizontal",
            DiagnosticPattern::Checkerboard => "checkerboard",
            DiagnosticPattern::Border => "border",
            DiagnosticPattern::Corners => "corners",
        }
    }

    pub fn is_black(self, x: u16, y: u16, width: u16, height: u16) -> (black: bool)
        requires
            x < width,
            y < height,
        ensures
            black == pattern_black(self, x, y, width, height),
            self == DiagnosticPattern::White ==> !black,
            self == DiagnosticPattern::Black ==> black,
            self == DiagnosticPattern::Horizontal ==> (black <==> y % 2 == 0),
            self == DiagnosticPattern::Checkerboard ==> (black <==> (x + y) % 2 == 0),
            self == DiagnosticPattern::Border ==> (black <==> (x == 0 || y == 0 || x + 1 == width
                || y + 1 == height)),
    {
        proof {
            lemma_pattern_meaning(x, y, width, height);
        }
        match self {
            DiagnosticPattern::White => false,
            DiagnosticPattern::Black => true,
            DiagnosticPattern::Horizontal => y & 1 == 0,
            DiagnosticPattern::Checkerboard => (x ^ y) & 1 == 0,
            DiagnosticPattern::Border => x == 0 || y == 0 || x == width - 1 || y == height - 1,
            DiagnosticPattern::Corners => corner_marker(x, y, width, height),
        }
    }
}

/// Whether `chars` spell `literal`.
fn is_text(chars: &[char], literal: &str) -> (result: bool)
    ensures
        result == (chars@ == literal@),
{
    let expected = str_to_chars(literal);
    chars_equal(chars, expected.as_slice())
}

/// A diagnostic frame: a pattern at an extent.
#[derive(Clone, Copy, Debug, PartialEq, Eq, Structural)]
pub struct DiagnosticFrame {
    pub pattern: DiagnosticPattern,
    pub width: u16,
    pub height: u16,
}

/// Why a diagnostic frame is not encoded.
#[derive(Clone, Debug, PartialEq, Eq)]
pub enum EncodeFrameError {
    /// The pixel payload's size overflows.
    PayloadSizeOverflow,
    /// The payload exceeds the protocol maximum.
    TooLarge { length: usize, maximum: usize },
    /// The frame is not a valid Mono1 frame.
    Frame(Mono1FrameError),
    /// The message could not be framed.
    Encode(V2EncodeError),
}

impl EncodeFrameError {
    /// A description of the error.
    pub fn message(&self) -> (text: String)
        ensures
            self matches EncodeFrameError::TooLarge { length, maximum } ==> text@
                == "diagnostic frame payload is "@ + decimal(length as nat) + " bytes; maximum is "@
                + decimal(maximum as nat),
    {
        let mut out: Vec<char> = Vec::new();
        match self {
            EncodeFrameError::PayloadSizeOverflow => {
                push_str(&mut out, "diagnostic frame dimensions overflow payload size");
            },
            EncodeFrameError::TooLarge { length, maximum } => {
                push_str(&mut out, "diagnostic frame payload is ");
                push_decimal(&mut out, *length as u64);
                push_str(&mut out, " bytes; maximum is ");
                push_decimal(&mut out, *maximum as u64);
                assert(out@ =~= "diagnostic frame payload is "@ + decimal(*length as nat)
                    + " bytes; maximum is "@ + decimal(*maximum as nat));
            },
            EncodeFrameError::Frame(_) => {
                push_str(&mut out, "failed to build diagnostic frame");
            },
            EncodeFrameError::Encode(_) => {
                push_str(&mut out, "failed to encode diagnostic frame");
            },
        }
        chars_to_string(out.as_slice())
    }

    /// Whether the error is that the frame exceeds the protocol maximum.
    pub fn is_too_large(&self) -> (too_large: bool)
        ensures
            too_large == (self matches EncodeFrameError::TooLarge { .. }),
    {
        match self {
            EncodeFrameError::TooLarge { .. } => true,
            _ => false,
        }
    }
}

/// `pixels` paints exactly the pattern's black pixels of a valid frame.
pub open spec fn paints_pattern(frame: DiagnosticFrame, pixels: Seq<u8>) -> bool {
    &&& valid_mono1(frame.width, frame.height, pixels)
    &&& forall|x: u16, y: u16|
        x < frame.width && y < frame.height ==> #[trigger] pixel_is_black(
            pixels,
            stride_of(frame.width),
            x,
            y,
        ) == pattern_black(frame.pattern, x, y, frame.width, frame.height)
}

/// What the simple patterns paint, over every pixel of every extent: white
/// nothing, black everything, horizontal stripes every even row (so
/// neighbouring rows always differ), the checkerboard every pixel whose
/// coordinates have an even sum (so horizontal and vertical neighbours
/// always differ), and the border the outermost rows and columns.
pub proof fn lemma_pattern_meaning(x: u16, y: u16, width: u16, height: u16)
    requires
        x < width,
        y < height,
    ensures
        !pattern_black(DiagnosticPattern::White, x, y, width, height),
        pattern_black(DiagnosticPattern::Black, x, y, width, height),
        pattern_black(DiagnosticPattern::Horizontal, x, y, width, height) <==> y % 2 == 0,
        pattern_black(DiagnosticPattern::Checkerboard, x, y, width, height) <==> (x + y) % 2 == 0,
        pattern_black(DiagnosticPattern::Border, x, y, width, height) <==> (x == 0 || y == 0 || x
            + 1 == width || y + 1 == height),
        y + 1 < height ==> pattern_black(DiagnosticPattern::Horizontal, x, y, width, height)
            != pattern_black(DiagnosticPattern::Horizontal, x, (y + 1) as u16, width, height),
        y + 1 < height ==> pattern_black(DiagnosticPattern::Checkerboard, x, y, width, height)
            != pattern_black(DiagnosticPattern::Checkerboard, x, (y + 1) as u16, width, height),
        x + 1 < width ==> pattern_black(DiagnosticPattern::Checkerboard, x, y, width, height)
            != pattern_black(DiagnosticPattern::Checkerboard, (x + 1) as u16, y, width, height),
{
    assert((y & 1 == 0) <==> y % 2 == 0) by (bit_vector);
    assert(((x ^ y) & 1 == 0) <==> (x + y) % 2 == 0) by (bit_vector);
    if y + 1 < height {
        let next = (y + 1) as u16;
        assert((next & 1 == 0) <==> next % 2 == 0) by (bit_vector);
        assert(((x ^ next) & 1 == 0) <==> (x + next) % 2 == 0) by (bit_vector);
    }
    if x + 1 < width {
        let next = (x + 1) as u16;
        assert(((next ^ y) & 1 == 0) <==> (next + y) % 2 == 0) by (bit_vector);
    }
}

/// A diagnostic frame of horizontal stripes is black exactly on its even
/// rows, whatever its extent.
pub proof fn lemma_horizontal_frame_stripes(frame: DiagnosticFrame, pixels: Seq<u8>, x: u16, y: u16)
    requires
        frame.pattern == DiagnosticPattern::Horizontal,
        paints_pattern(frame, pixels),
        x < frame.width,
        y < frame.height,
    ensures
        pixel_is_black(pixels, stride_of(frame.width), x, y) <==> y % 2 == 0,
{
    lemma_pattern_meaning(x, y, frame.width, frame.height);
}

impl DiagnosticFrame {
    pub fn pattern_name(self) -> (name: &'static str)
        ensures
            name@ == pattern_name(self.pattern),
    {
        self.pattern.name()
    }

    pub fn dimensions(self) -> (dimensions: (u16, u16))
        ensures
            dimensions == (self.width, self.height),
    {
        (self.width, self.height)
    }

    /// Render the pattern and encode it as one v2 Frame message, checking
    /// the payload size before any pixel is allocated.
    pub fn encode(self, frame_id: u64) -> (result: Result<Vec<u8>, EncodeFrameError>)
        ensures
            match result {
                Ok(encoded) => exists|pixels: Seq<u8>|
                    paints_pattern(self, pixels) && encoded@ == encoded_message(
                        V2MessageType::Frame,
                        frame_payload(frame_id, self.width, self.height, pixels),
                    ),
                Err(EncodeFrameError::PayloadSizeOverflow) => stride_of(self.width) * (
                self.height as nat) + V2_FRAME_PREFIX_LEN > usize::MAX,
                Err(EncodeFrameError::TooLarge { length, maximum }) => {
                    &&& length == stride_of(self.width) * (self.height as nat) + V2_FRAME_PREFIX_LEN
                    &&& length > V2_MAX_PAYLOAD_LEN
                    &&& maximum == V2_MAX_PAYLOAD_LEN
                },
                Err(EncodeFrameError::Frame(error)) => (self.width == 0 || self.height == 0)
                    && error == Mono1FrameError::ZeroDimension {
                    width: self.width,
                    height: self.height,
                },
                Err(EncodeFrameError::Encode(_)) => false,
            },
    {
        let pixel_bytes = match mono1_payload_len(self.width, self.height) {
            Some(bytes) => bytes,
            None => return Err(EncodeFrameError::PayloadSizeOverflow),
        };
        let payload_bytes = match V2_FRAME_PREFIX_LEN.checked_add(pixel_bytes) {
            Some(bytes) => bytes,
            None => return Err(EncodeFrameError::PayloadSizeOverflow),
        };
        if payload_bytes > V2_MAX_PAYLOAD_LEN {
            return Err(
                EncodeFrameError::TooLarge { length: payload_bytes, maximum: V2_MAX_PAYLOAD_LEN },
            );
        }
        let mut canvas = match MonoCanvas::new(self.width, self.height) {
            Ok(canvas) => canvas,
            Err(error) => return Err(EncodeFrameError::Frame(error)),
        };
        let width = self.width;
        let height = self.height;
        let mut y: u16 = 0;
        while y < height
            invariant
                canvas.well_formed(),
                canvas.spec_width() == width,
                canvas.spec_height() == height,
                width == self.width,
                height == self.height,
                y <= height,
                forall|px: u16, py: u16|
                    px < width && py < height ==> #[trigger] canvas.is_black(px, py) == (py < y
                        && pattern_black(self.pattern, px, py, width, height)),
            decreases height - y,
        {
            let mut x: u16 = 0;
            while x < width
                invariant
                    canvas.well_formed(),
                    canvas.spec_width() == width,
                    canvas.spec_height() == height,
                    width == self.width,
                    height == self.height,
                    y < height,
                    x <= width,
                    forall|px: u16, py: u16|
                        px < width && py < height ==> #[trigger] canvas.is_black(px, py) == ((py < y
                            || (py == y && px < x)) && pattern_black(
                            self.pattern,
                            px,
                            py,
                            width,
                            height,
                        )),
                decreases width - x,
            {
                if self.pattern.is_black(x, y, width, height) {
                    canvas.set_pixel(x, y, Mono1Pixel::Black);
                }
                x = x + 1;
            }
            y = y + 1;
        }
        proof {
            canvas.lemma_valid();
        }
        let ghost pixels = canvas.spec_pixels();
        proof {
            assert forall|x: u16, y: u16| x < width && y < height implies #[trigger] pixel_is_black(
                pixels,
                stride_of(width),
                x,
                y,
            ) == pattern_black(self.pattern, x, y, width, height) by {
                assert(canvas.is_black(x, y) == pattern_black(self.pattern, x, y, width, height));
            }
        }
        let frame = match canvas.into_frame() {
            Ok(frame) => frame,
            Err(error) => return Err(EncodeFrameError::Frame(error)),
        };
        assert(paints_pattern(self, pixels));
        match encode_v2_frame(frame_id, &frame) {
            Ok(encoded) => Ok(encoded),
            Err(error) => Err(EncodeFrameError::Encode(error)),
        }
    }
}

// ---------------------------------------------------------------------------
// Operator commands
// ---------------------------------------------------------------------------
#[derive(Clone, Copy, Debug, PartialEq, Eq, Structural)]
pub enum StdinCommand {
    Frame(DiagnosticFrame),
    ApplicationFrame { width: u16, height: u16 },
}

/// Why an operator command is refused.
#[derive(Clone, Debug, PartialEq, Eq)]
pub enum CommandError {
    Empty,
    UnknownCommand(String),
    UiUsage,
    FrameUsage,
    UnknownPattern(String),
    DimensionsFormat,
    InvalidWidth(String),
    InvalidHeight(String),
    ZeroDimensions,
}

/// The content of a command error.
pub enum CommandErrorView {
    Empty,
    UnknownCommand(Seq<char>),
    UiUsage,
    FrameUsage,
    UnknownPattern(Seq<char>),
    DimensionsFormat,
    InvalidWidth(Seq<char>),
    InvalidHeight(Seq<char>),
    ZeroDimensions,
}

impl View for CommandError {
    type V = CommandErrorView;

    open spec fn view(&self) -> CommandErrorView {
        match self {
            CommandError::Empty => CommandErrorView::Empty,
            CommandError::UnknownCommand(command) => CommandErrorView::UnknownCommand(command@),
            CommandError::UiUsage => CommandErrorView::UiUsage,
            CommandError::FrameUsage => CommandErrorView::FrameUsage,
            CommandError::UnknownPattern(name) => CommandErrorView::UnknownPattern(name@),
            CommandError::DimensionsFormat => CommandErrorView::DimensionsFormat,
            CommandError::InvalidWidth(text) => CommandErrorView::InvalidWidth(text@),
            CommandError::InvalidHeight(text) => CommandErrorView::InvalidHeight(text@),
            CommandError::ZeroDimensions => CommandErrorView::ZeroDimensions,
        }
    }
}

/// The text of a command error.
pub open spec fn command_error_text(error: CommandErrorView) -> Seq<char> {
    match error {
        CommandErrorView::Empty => "stdin command is empty"@,
        CommandErrorView::UnknownCommand(command) => "unknown stdin command "@ + debug_text(command),
        CommandErrorView::UiUsage => "usage: ui <width>x<height>"@,
        CommandErrorView::FrameUsage => "usage: frame <pattern> <width>x<height>"@,
        CommandErrorView::UnknownPattern(name) => "unknown frame pattern '"@ + name
            + "'; expected white, black, horizontal, checkerboard, border, or corners"@,
        CommandErrorView::DimensionsFormat => "dimensions must use <width>x<height>"@,
        CommandErrorView::InvalidWidth(text) => "invalid frame width '"@ + text + "'"@,
        CommandErrorView::InvalidHeight(text) => "invalid frame height '"@ + text + "'"@,
        CommandErrorView::ZeroDimensions => "frame dimensions must be nonzero"@,
    }
}

impl CommandError {
    /// A description of the error for the operator.
    pub fn message(&self) -> (text: String)
        ensures
            text@ == command_error_text(self@),
    {
        let mut out: Vec<char> = Vec::new();
        match self {
            CommandError::Empty => push_str(&mut out, "stdin command is empty"),
            CommandError::UnknownCommand(command) => {
                push_str(&mut out, "unknown stdin command ");
                let quoted = debug_quoted(command.as_str());
                push_str(&mut out, quoted.as_str());
            },
            CommandError::UiUsage => push_str(&mut out, "usage: ui <width>x<height>"),
            CommandError::FrameUsage => push_str(&mut out, "usage: frame <pattern> <width>x<height>"),
            CommandError::UnknownPattern(name) => {
                push_str(&mut out, "unknown frame pattern '");
                push_str(&mut out, name.as_str());
                push_str(
                    &mut out,
                    "'; expected white, black, horizontal, checkerboard, border, or corners",
                );
            },
            CommandError::DimensionsFormat => push_str(&mut out, "dimensions must use <width>x<height>"),
            CommandError::InvalidWidth(text) => {
                push_str(&mut out, "invalid frame width '");
                push_str(&mut out, text.as_str());
                push_str(&mut out, "'");
            },
            CommandError::InvalidHeight(text) => {
                push_str(&mut out, "invalid frame height '");
                push_str(&mut out, text.as_str());
                push_str(&mut out, "'");
            },
            CommandError::ZeroDimensions => push_str(&mut out, "frame dimensions must be nonzero"),
        }
        assert(out@ =~= command_error_text(self@));
        chars_to_string(out.as_slice())
    }
}

/// `<width>x<height>`: two nonzero `u16` decimals around the first `x`.
pub open spec fn dimensions_spec(text: Seq<char>) -> Result<(u16, u16), CommandErrorView> {
    match first_index_of(text, 'x') {
        None => Err(CommandErrorView::DimensionsFormat),
        Some(index) => {
            let width = text.take(index as int);
            let height = text.skip(index + 1int);
            match parse_u16_spec(width) {
                None => Err(CommandErrorView::InvalidWidth(width)),
                Some(width) => match parse_u16_spec(height) {
                    None => Err(CommandErrorView::InvalidHeight(height)),
                    Some(height) => if width == 0 || height == 0 {
                        Err(CommandErrorView::ZeroDimensions)
                    } else {
                        Ok((width, height))
                    },
                },
            }
        },
    }
}

/// What an operator line asks for: `ui <width>x<height>` or
/// `frame <pattern> <width>x<height>`, words separated by whitespace.
pub open spec fn command_spec(line: Seq<char>) -> Result<StdinCommand, CommandErrorView> {
    let words = tokens(line, false);
    if words.len() == 0 {
        Err(CommandErrorView::Empty)
    } else if words[0] == "ui"@ {
        if words.len() != 2 {
            Err(CommandErrorView::UiUsage)
        } else {
            match dimensions_spec(words[1]) {
                Ok((width, height)) => Ok(StdinCommand::ApplicationFrame { width, height }),
                Err(error) => Err(error),
            }
        }
    } else if words[0] == "frame"@ {
        if words.len() < 2 {
            Err(CommandErrorView::FrameUsage)
        } else {
            match pattern_named(words[1]) {
                None => Err(CommandErrorView::UnknownPattern(words[1])),
                Some(pattern) => if words.len() != 3 {
                    Err(CommandErrorView::FrameUsage)
                } else {
                    match dimensions_spec(words[2]) {
                        Ok((width, height)) => Ok(
                            StdinCommand::Frame(DiagnosticFrame { pattern, width, height }),
                        ),
                        Err(error) => Err(error),
                    }
                },
            }
        }
    } else {
        Err(CommandErrorView::UnknownCommand(words[0]))
    }
}

/// Parse `<width>x<height>`.
pub fn parse_dimensions(text: &[char]) -> (result: Result<(u16, u16), CommandError>)
    ensures
        match result {
            Ok(dimensions) => dimensions_spec(text@) == Ok::<(u16, u16), CommandErrorView>(
                dimensions,
            ),
            Err(error) => dimensions_spec(text@) == Err::<(u16, u16), CommandErrorView>(error@),
        },
{
    let len = text.len();
    proof {
        lemma_first_index_of(text@, 'x');
    }
    let index = match find_char(text, 'x') {
        Some(index) => index,
        None => return Err(CommandError::DimensionsFormat),
    };
    let width_text = sub_chars(text, 0, index);
    let height_text = sub_chars(text, index + 1, len);
    proof {
        assert(width_text@ =~= text@.take(index as int));
        assert(height_text@ =~= text@.skip(index + 1int));
    }
    let width = match parse_u16(width_text.as_slice()) {
        Some(width) => width,
        None => return Err(CommandError::InvalidWidth(crate::text::chars_to_string(width_text.as_slice()))),
    };
    let height = match parse_u16(height_text.as_slice()) {
        Some(height) => height,
        None => return Err(CommandError::InvalidHeight(crate::text::chars_to_string(height_text.as_slice()))),
    };
    if width == 0 || height == 0 {
        return Err(CommandError::ZeroDimensions);
    }
    Ok((width, height))
}

/// Parse one operator line.
pub fn parse_stdin_command(line: &str) -> (result: Result<StdinCommand, CommandError>)
    ensures
        match result {
            Ok(command) => command_spec(line@) == Ok::<StdinCommand, CommandErrorView>(command),
            Err(error) => command_spec(line@) == Err::<StdinCommand, CommandErrorView>(error@),
        },
{
    let chars = str_to_chars(line);
    let words = split_tokens(chars.as_slice(), false);
    let ghost views = token_views(words@);
    proof {
        assert(views.len() == words@.len());
        assert forall|i: int| 0 <= i < words@.len() implies views[i] == #[trigger] words@[i]@ by {}
    }
    if words.len() == 0 {
        return Err(CommandError::Empty);
    }
    if is_text(words[0].as_slice(), "ui") {
        if words.len() != 2 {
            return Err(CommandError::UiUsage);
        }
        return match parse_dimensions(words[1].as_slice()) {
            Ok((width, height)) => Ok(StdinCommand::ApplicationFrame { width, height }),
            Err(error) => Err(error),
        };
    }
    if !is_text(words[0].as_slice(), "frame") {
        return Err(CommandError::UnknownCommand(crate::text::chars_to_string(words[0].as_slice())));
    }
    if words.len() < 2 {
        return Err(CommandError::FrameUsage);
    }
    let name = crate::text::chars_to_string(words[1].as_slice());
    let pattern = match DiagnosticPattern::parse(name.as_str()) {
        Some(pattern) => pattern,
        None => return Err(CommandError::UnknownPattern(name)),
    };
    if words.len() != 3 {
        return Err(CommandError::FrameUsage);
    }
    match parse_dimensions(words[2].as_slice()) {
        Ok((width, height)) => Ok(StdinCommand::Frame(DiagnosticFrame { pattern, width, height })),
        Err(error) => Err(error),
    }
}

} // verus!
