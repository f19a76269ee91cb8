//! PaperPad-owned system UI: the local Exit bar in the bottom system strip.
//!
//! Exit spans the window's width less 20 px margins on both sides and fills
//! the 72 px system strip below the remote viewport; it exists whenever the
//! window is at least 41 px wide and 72 px tall. It is independent of
//! PaperSpoon actions and of the application contact: it activates only when
//! one primary contact goes down and comes up inside it.
use crate::screen::{is_layout_of, min_u16, PhysicalPoint, ScreenLayout, MAX_EXTENT, SYSTEM_UI_HEIGHT};
use crate::ui::button::{PointerEvent, PointerEventKind, PRIMARY_BUTTON_DETAIL};
use crate::ui::geometry::{
    holds_point, logical_coordinate, logical_coordinate_spec, LayoutRect, LogicalRect, TextPlacement,
    CELL_MARGIN, EXIT_BAR_HEIGHT, LABEL_TEXT_Y_OFFSET,
};
use vstd::prelude::*;

verus! {

/// Distance from the bar's center to the start of its label.
pub const EXIT_TEXT_X_OFFSET: u16 = 18;

/// The label of the Exit bar, `EXIT`.
pub const EXIT_TEXT: [u8; 4] = [69u8, 88u8, 73u8, 84u8];

#[derive(Clone, Copy, Debug, PartialEq, Eq, Structural)]
pub enum SystemAction {
    Exit,
}

/// The state of the Exit contact.
#[derive(Clone, Copy, Debug, PartialEq, Eq, Structural)]
pub enum ExitContact {
    Idle,
    Armed,
    Cancelled,
}

/// What to draw for the system UI.
#[derive(Clone, Copy, Debug, PartialEq, Eq)]
pub struct SystemDrawLayout {
    pub rectangle: LayoutRect,
    pub text: TextPlacement,
}

#[derive(Debug)]
pub struct SystemUi {
    exit_contact: ExitContact,
}

/// The Exit bar of a `width` by `height` window, both capped at
/// [`MAX_EXTENT`]: the bottom 72 rows, with a 20 px margin on each side;
/// absent when the window is narrower than 41 px or shorter than 72 px.
pub open spec fn exit_rect(width: u16, height: u16) -> Option<LogicalRect> {
    let width = min_u16(width, MAX_EXTENT);
    let height = min_u16(height, MAX_EXTENT);
    if width >= CELL_MARGIN * 2 + 1 && height >= EXIT_BAR_HEIGHT {
        Some(
            LogicalRect {
                x: CELL_MARGIN,
                y: (height - EXIT_BAR_HEIGHT) as u16,
                width: (width - CELL_MARGIN * 2) as u16,
                height: EXIT_BAR_HEIGHT,
            },
        )
    } else {
        None
    }
}

/// Whether a point is inside the Exit bar of the window.
pub open spec fn on_exit(width: u16, height: u16, point: PhysicalPoint) -> bool {
    exit_rect(width, height) matches Some(bounds) && holds_point(bounds, point)
}

/// The Exit contact after a primary press at `point`.
pub open spec fn exit_pressed(contact: ExitContact, width: u16, height: u16, point: PhysicalPoint) -> ExitContact {
    if contact == ExitContact::Idle && on_exit(width, height, point) {
        ExitContact::Armed
    } else {
        ExitContact::Cancelled
    }
}

/// Whether a primary release at `point` activates Exit.
pub open spec fn exit_released(contact: ExitContact, width: u16, height: u16, point: PhysicalPoint) -> bool {
    contact == ExitContact::Armed && on_exit(width, height, point)
}

/// The Exit contact after one pointer event: other buttons leave it alone, a
/// primary press arms or cancels it, a primary release ends it.
pub open spec fn exit_step(contact: ExitContact, event: PointerEvent, width: u16, height: u16) -> ExitContact {
    if event.detail != PRIMARY_BUTTON_DETAIL {
        contact
    } else {
        match event.kind {
            PointerEventKind::Press => exit_pressed(contact, width, height, event.point),
            PointerEventKind::Release => ExitContact::Idle,
        }
    }
}

/// The Exit contact after a sequence of events, from `contact`.
pub open spec fn exit_after(contact: ExitContact, events: Seq<PointerEvent>, width: u16, height: u16) -> ExitContact
    decreases events.len(),
{
    if events.len() == 0 {
        contact
    } else {
        exit_step(exit_after(contact, events.drop_last(), width, height), events.last(), width, height)
    }
}

/// The primary presses since the last primary release of `events`.
pub open spec fn presses_since_release(events: Seq<PointerEvent>) -> Seq<PointerEvent>
    decreases events.len(),
{
    if events.len() == 0 {
        Seq::empty()
    } else {
        let last = events.last();
        let earlier = presses_since_release(events.drop_last());
        if last.detail != PRIMARY_BUTTON_DETAIL {
            earlier
        } else {
            match last.kind {
                PointerEventKind::Press => earlier.push(last),
                PointerEventKind::Release => Seq::empty(),
            }
        }
    }
}

/// Over any sequence of events from an idle Exit contact, a primary release
/// activates Exit exactly when one primary press came since the contact was
/// last idle and both that press and the release lie in the Exit bar; events
/// of other buttons change nothing.
pub proof fn lemma_exit_over_event_sequences(
    events: Seq<PointerEvent>,
    release: PointerEvent,
    width: u16,
    height: u16,
)
    requires
        release.detail == PRIMARY_BUTTON_DETAIL,
        release.kind == PointerEventKind::Release,
    ensures
        exit_after(ExitContact::Idle, events, width, height) == ({
            let presses = presses_since_release(events);
            if presses.len() == 0 {
                ExitContact::Idle
            } else if presses.len() == 1 && on_exit(width, height, presses[0].point) {
                ExitContact::Armed
            } else {
                ExitContact::Cancelled
            }
        }),
        exit_released(exit_after(ExitContact::Idle, events, width, height), width, height, release.point)
            <==> ({
            let presses = presses_since_release(events);
            &&& presses.len() == 1
            &&& on_exit(width, height, presses[0].point)
            &&& on_exit(width, height, release.point)
        }),
    decreases events.len(),
{
    if events.len() > 0 {
        lemma_exit_over_event_sequences(events.drop_last(), release, width, height);
    }
}

/// Exit lives in PaperPad's bottom system strip: for every window at least
/// 41 px wide and 72 px tall it spans the strip's rows and the window's
/// width less 20 px on each side, so it never reaches into the remote
/// viewport; smaller windows have no Exit.
pub proof fn lemma_exit_in_system_strip(width: u16, height: u16)
    ensures
        exit_rect(width, height) is Some <==> width >= 41 && height >= 72,
        exit_rect(width, height) matches Some(exit) ==> ({
            let w = min_u16(width, MAX_EXTENT);
            let h = min_u16(height, MAX_EXTENT);
            &&& exit.x == 20
            &&& exit.width == w - 40
            &&& exit.y == h - 72
            &&& exit.y + exit.height == h
        }),
        forall|layout: ScreenLayout|
            exit_rect(width, height) is Some && #[trigger] is_layout_of(width, height, layout)
                ==> ({
                let exit = exit_rect(width, height)->0;
                let strip = layout.spec_system_ui_region();
                &&& exit.y == strip.y
                &&& exit.height == strip.height
                &&& strip.height == SYSTEM_UI_HEIGHT
                &&& exit.x + exit.width + 20 == strip.x + strip.width
                &&& exit.y == layout.spec_remote_viewport().height
            }),
{
}

/// The Exit bar of the window.
pub fn exit_bounds(width: u16, height: u16) -> (bounds: Option<LogicalRect>)
    ensures
        bounds == exit_rect(width, height),
{
    let width = if width <= MAX_EXTENT {
        width
    } else {
        MAX_EXTENT
    };
    let height = if height <= MAX_EXTENT {
        height
    } else {
        MAX_EXTENT
    };
    if width < CELL_MARGIN * 2 + 1 || height < EXIT_BAR_HEIGHT {
        return None;
    }
    Some(
        LogicalRect {
            x: CELL_MARGIN,
            y: height - EXIT_BAR_HEIGHT,
            width: width - CELL_MARGIN * 2,
            height: EXIT_BAR_HEIGHT,
        },
    )
}

/// The drawing of the Exit bar: its rectangle and its label centred on it.
pub open spec fn system_layout(width: u16, height: u16) -> Option<(LayoutRect, i16, i16)> {
    match exit_rect(width, height) {
        Some(bounds) => {
            let center_x = bounds.x + bounds.width / 2;
            let center_y = bounds.y + bounds.height / 2;
            let text_x = if center_x >= EXIT_TEXT_X_OFFSET {
                center_x - EXIT_TEXT_X_OFFSET
            } else {
                0
            };
            Some(
                (
                    LayoutRect {
                        x: logical_coordinate_spec(bounds.x as u32),
                        y: logical_coordinate_spec(bounds.y as u32),
                        width: bounds.width,
                        height: bounds.height,
                    },
                    logical_coordinate_spec(text_x as u32),
                    logical_coordinate_spec((center_y + LABEL_TEXT_Y_OFFSET) as u32),
                ),
            )
        },
        None => None,
    }
}

/// What to draw for the system UI of the window.
pub fn draw_layout(width: u16, height: u16) -> (layout: Option<SystemDrawLayout>)
    ensures
        match system_layout(width, height) {
            Some((rectangle, text_x, text_y)) => layout matches Some(layout) && layout.rectangle
                == rectangle && layout.text.x == text_x && layout.text.y == text_y
                && layout.text.text@ == EXIT_TEXT@,
            None => layout is None,
        },
{
    let bounds = match exit_bounds(width, height) {
        Some(bounds) => bounds,
        None => return None,
    };
    let center_x = bounds.x as u32 + bounds.width as u32 / 2;
    let center_y = bounds.y as u32 + bounds.height as u32 / 2;
    let text_x = if center_x >= EXIT_TEXT_X_OFFSET as u32 {
        center_x - EXIT_TEXT_X_OFFSET as u32
    } else {
        0
    };
    let text: &'static [u8] = &EXIT_TEXT;
    Some(
        SystemDrawLayout {
            rectangle: LayoutRect {
                x: logical_coordinate(bounds.x as u32),
                y: logical_coordinate(bounds.y as u32),
                width: bounds.width,
                height: bounds.height,
            },
            text: TextPlacement {
                x: logical_coordinate(text_x),
                y: logical_coordinate(center_y + LABEL_TEXT_Y_OFFSET as u32),
                text,
            },
        },
    )
}

impl SystemUi {
    pub closed spec fn spec_exit_contact(&self) -> ExitContact {
        self.exit_contact
    }

    pub fn new() -> (ui: Self)
        ensures
            ui.spec_exit_contact() == ExitContact::Idle,
    {
        SystemUi { exit_contact: ExitContact::Idle }
    }

    /// Track one pointer event; a primary release inside the Exit bar after
    /// a primary press inside it activates Exit. Events of other buttons
    /// leave the contact alone.
    pub fn handle_pointer(&mut self, event: PointerEvent, width: u16, height: u16) -> (action: Option<
        SystemAction,
    >)
        ensures
            event.detail != PRIMARY_BUTTON_DETAIL ==> action is None
                && final(self).spec_exit_contact() == old(self).spec_exit_contact(),
            final(self).spec_exit_contact() == exit_step(
                old(self).spec_exit_contact(),
                event,
                width,
                height,
            ),
            event.detail == PRIMARY_BUTTON_DETAIL ==> match event.kind {
                PointerEventKind::Press => action is None && final(self).spec_exit_contact()
                    == exit_pressed(old(self).spec_exit_contact(), width, height, event.point),
                PointerEventKind::Release => final(self).spec_exit_contact() == ExitContact::Idle
                    && (action is Some <==> exit_released(
                    old(self).spec_exit_contact(),
                    width,
                    height,
                    event.point,
                )),
            },
    {
        if event.detail != PRIMARY_BUTTON_DETAIL {
            return None;
        }
        let inside = match exit_bounds(width, height) {
            Some(bounds) => bounds.contains_physical(event.point),
            None => false,
        };
        match event.kind {
            PointerEventKind::Press => {
                self.exit_contact = match self.exit_contact {
                    ExitContact::Idle => if inside {
                        ExitContact::Armed
                    } else {
                        ExitContact::Cancelled
                    },
                    _ => ExitContact::Cancelled,
                };
                None
            },
            PointerEventKind::Release => {
                let activated = match self.exit_contact {
                    ExitContact::Armed => inside,
                    _ => false,
                };
                self.exit_contact = ExitContact::Idle;
                if activated {
                    Some(SystemAction::Exit)
                } else {
                    None
                }
            },
        }
    }

    pub fn cancel_contact(&mut self)
        ensures
            final(self).spec_exit_contact() == ExitContact::Idle,
    {
        self.exit_contact = ExitContact::Idle;
    }
}

impl Default for SystemUi {
    fn default() -> (ui: Self)
        ensures
            ui.spec_exit_contact() == ExitContact::Idle,
    {
        SystemUi::new()
    }
}

} // verus!
