//! Wire- and X11-independent state of the PaperPad window and the decisions
//! it makes on geometry changes, status text and pointer events.
use crate::screen::{
    min_u16, to_remote, PhysicalPoint, RemotePoint, ScreenLayout, ScreenRect, MAX_EXTENT,
    SYSTEM_UI_HEIGHT,
};
use crate::ui::action::{action_for_button, button_action, SemanticAction};
use crate::ui::button::{
    button_at, contact_pressed, contact_released, handle_pointer_event, Contact, ContactTracker,
    PointerEvent, PointerEventKind, PRIMARY_BUTTON_DETAIL,
};
use crate::remote_pointer::{forward_spec, pointer_fields, RemoteContact};
use crate::ui::system::{exit_pressed, exit_released, on_exit, ExitContact, SystemAction, SystemUi};
use crate::v2_payload::V2Pointer;
use vstd::prelude::*;

verus! {

/// A request to redraw the window at a size, with the status text to show.
#[derive(Clone, Copy, Debug, PartialEq, Eq)]
pub struct Redraw<'a> {
    size: (u16, u16),
    status_text: Option<&'a str>,
}

/// The text of an optional string.
pub open spec fn optional_text(text: Option<&str>) -> Option<Seq<char>> {
    match text {
        Some(text) => Some(text@),
        None => None,
    }
}

impl<'a> Redraw<'a> {
    pub closed spec fn spec_size(self) -> (u16, u16) {
        self.size
    }

    pub closed spec fn spec_status_text(self) -> Option<Seq<char>> {
        optional_text(self.status_text)
    }

    pub fn size(self) -> (size: (u16, u16))
        ensures
            size == self.spec_size(),
    {
        self.size
    }

    pub fn status_text(self) -> (text: Option<&'a str>)
        ensures
            optional_text(text) == self.spec_status_text(),
    {
        self.status_text
    }
}

/// What a reported window geometry changes.
#[derive(Clone, Copy, Debug, PartialEq, Eq)]
pub enum GeometryUpdate<'a> {
    /// A zero extent is not a real geometry.
    IgnoredZero,
    Unchanged,
    Redraw(Redraw<'a>),
}

/// What a completed pointer gesture asks for.
#[derive(Clone, Copy, Debug, PartialEq, Eq, Structural)]
pub enum Activation {
    /// Send the semantic action of a grid button.
    Send { button_id: u8, action: SemanticAction },
    /// Close the window.
    Exit,
    /// A button without an action.
    Unknown { button_id: u8 },
}

/// The activation of a grid button.
pub open spec fn activation_of(button_id: u8) -> Activation {
    match button_action(button_id) {
        Some(action) => Activation::Send { button_id, action },
        None => Activation::Unknown { button_id },
    }
}

/// The remote viewport of a window: its full width above the system strip;
/// empty for an empty window.
pub open spec fn window_remote_viewport(width: u16, height: u16) -> ScreenRect {
    if width == 0 || height == 0 {
        ScreenRect { x: 0, y: 0, width: 0, height: 0 }
    } else {
        let width = min_u16(width, MAX_EXTENT);
        let height = min_u16(height, MAX_EXTENT);
        ScreenRect {
            x: 0,
            y: 0,
            width,
            height: (height - min_u16(height, SYSTEM_UI_HEIGHT)) as u16,
        }
    }
}

/// The remote point of a physical point of a window.
pub open spec fn window_remote_point(width: u16, height: u16, point: PhysicalPoint) -> Option<RemotePoint> {
    if width == 0 || height == 0 {
        None
    } else {
        to_remote(window_remote_viewport(width, height), point)
    }
}

/// The application button a point of a window is on.
pub open spec fn window_button_at(width: u16, height: u16, point: PhysicalPoint) -> Option<u8> {
    let viewport = window_remote_viewport(width, height);
    button_at(viewport.width, viewport.height, window_remote_point(width, height, point))
}

/// The PaperPad window: its size, the application and Exit contacts and the
/// status text.
pub struct AppState {
    width: u16,
    height: u16,
    application_contact: ContactTracker,
    system_ui: SystemUi,
    remote_contact: RemoteContact,
    status_text: Option<String>,
}

impl AppState {
    pub closed spec fn spec_size(&self) -> (u16, u16) {
        (self.width, self.height)
    }

    pub closed spec fn spec_status_text(&self) -> Option<Seq<char>> {
        match &self.status_text {
            Some(text) => Some(text@),
            None => None,
        }
    }

    pub closed spec fn spec_application_contact(&self) -> Contact {
        self.application_contact.spec_contact()
    }

    pub closed spec fn spec_exit_contact(&self) -> ExitContact {
        self.system_ui.spec_exit_contact()
    }

    /// Whether a primary contact was forwarded to PaperSpoon and not ended.
    pub closed spec fn spec_remote_active(&self) -> bool {
        self.remote_contact.spec_active()
    }

    pub fn new(size: (u16, u16)) -> (state: Self)
        ensures
            state.spec_size() == size,
            state.spec_status_text() is None,
            state.spec_application_contact() == Contact::Idle,
            state.spec_exit_contact() == ExitContact::Idle,
            !state.spec_remote_active(),
    {
        AppState {
            width: size.0,
            height: size.1,
            application_contact: ContactTracker::new(),
            system_ui: SystemUi::new(),
            remote_contact: RemoteContact::new(),
            status_text: None,
        }
    }

    pub fn size(&self) -> (size: (u16, u16))
        ensures
            size == self.spec_size(),
    {
        (self.width, self.height)
    }

    /// A redraw of the current size and status text.
    pub fn redraw(&self) -> (redraw: Redraw<'_>)
        ensures
            redraw.spec_size() == self.spec_size(),
            redraw.spec_status_text() == self.spec_status_text(),
    {
        let status_text = match &self.status_text {
            Some(text) => Some(text.as_str()),
            None => None,
        };
        Redraw { size: (self.width, self.height), status_text }
    }

    /// Replace the status text and ask for a redraw showing it.
    pub fn set_status_text(&mut self, text: String) -> (redraw: Redraw<'_>)
        ensures
            final(self).spec_status_text() == Some(text@),
            final(self).spec_size() == old(self).spec_size(),
            final(self).spec_application_contact() == old(self).spec_application_contact(),
            final(self).spec_exit_contact() == old(self).spec_exit_contact(),
            final(self).spec_remote_active() == old(self).spec_remote_active(),
            redraw.spec_size() == old(self).spec_size(),
            redraw.spec_status_text() == Some(text@),
    {
        self.status_text = Some(text);
        self.redraw()
    }

    /// Adopt a reported window geometry: zero extents are ignored, the same
    /// size changes nothing, and a new size cancels every contact, the
    /// forwarded remote contact included, without sending anything, and asks
    /// for a redraw.
    pub fn update_geometry(&mut self, reported: (u16, u16)) -> (update: GeometryUpdate<'_>)
        ensures
            final(self).spec_status_text() == old(self).spec_status_text(),
            reported.0 == 0 || reported.1 == 0 || reported == old(self).spec_size()
                ==> final(self).spec_remote_active() == old(self).spec_remote_active(),
            reported.0 != 0 && reported.1 != 0 && reported != old(self).spec_size()
                ==> !final(self).spec_remote_active(),
            reported.0 == 0 || reported.1 == 0 ==> update is IgnoredZero && final(self).spec_size()
                == old(self).spec_size() && final(self).spec_application_contact() == old(
                self,
            ).spec_application_contact() && final(self).spec_exit_contact() == old(
                self,
            ).spec_exit_contact(),
            reported.0 != 0 && reported.1 != 0 && reported == old(self).spec_size() ==> update
                is Unchanged && final(self).spec_application_contact() == old(
                self,
            ).spec_application_contact() && final(self).spec_exit_contact() == old(
                self,
            ).spec_exit_contact() && final(self).spec_size() == old(self).spec_size(),
            reported.0 != 0 && reported.1 != 0 && reported != old(self).spec_size() ==> (update
                matches GeometryUpdate::Redraw(redraw) && redraw.spec_size() == reported
                && redraw.spec_status_text() == old(self).spec_status_text()
                && final(self).spec_size() == reported && final(self).spec_application_contact()
                == Contact::Idle && final(self).spec_exit_contact() == ExitContact::Idle),
    {
        if reported.0 == 0 || reported.1 == 0 {
            GeometryUpdate::IgnoredZero
        } else if reported.0 == self.width && reported.1 == self.height {
            GeometryUpdate::Unchanged
        } else {
            self.application_contact.cancel();
            self.system_ui.cancel_contact();
            self.remote_contact.cancel();
            self.width = reported.0;
            self.height = reported.1;
            GeometryUpdate::Redraw(self.redraw())
        }
    }

    /// Track one pointer event on both the Exit bar and the application
    /// grid. Exit wins when both complete; otherwise a completed grid gesture
    /// yields its button's activation.
    pub fn handle_pointer(&mut self, event: PointerEvent) -> (activation: Option<Activation>)
        ensures
            final(self).spec_size() == old(self).spec_size(),
            final(self).spec_status_text() == old(self).spec_status_text(),
            final(self).spec_remote_active() == old(self).spec_remote_active(),
            ({
                let (width, height) = old(self).spec_size();
                let hit = window_button_at(width, height, event.point);
                if event.detail != PRIMARY_BUTTON_DETAIL {
                    &&& activation is None
                    &&& final(self).spec_application_contact() == old(self).spec_application_contact()
                    &&& final(self).spec_exit_contact() == old(self).spec_exit_contact()
                } else {
                    match event.kind {
                        PointerEventKind::Press => {
                            &&& activation is None
                            &&& final(self).spec_exit_contact() == exit_pressed(
                                old(self).spec_exit_contact(),
                                width,
                                height,
                                event.point,
                            )
                            &&& final(self).spec_application_contact() == contact_pressed(
                                old(self).spec_application_contact(),
                                hit,
                            )
                        },
                        PointerEventKind::Release => {
                            &&& final(self).spec_exit_contact() == ExitContact::Idle
                            &&& final(self).spec_application_contact() == Contact::Idle
                            &&& activation == if exit_released(
                                old(self).spec_exit_contact(),
                                width,
                                height,
                                event.point,
                            ) {
                                Some(Activation::Exit)
                            } else {
                                match contact_released(old(self).spec_application_contact(), hit) {
                                    Some(button_id) => Some(activation_of(button_id)),
                                    None => None,
                                }
                            }
                        },
                    }
                }
            }),
    {
        let system_action = self.system_ui.handle_pointer(event, self.width, self.height);
        let (remote_point, remote_width, remote_height) = match ScreenLayout::new(
            self.width,
            self.height,
        ) {
            Some(layout) => {
                let viewport = layout.remote_viewport();
                (layout.physical_to_remote(event.point), viewport.width, viewport.height)
            },
            None => (None, 0, 0),
        };
        let application_button = handle_pointer_event(
            &mut self.application_contact,
            event.kind,
            event.detail,
            remote_point,
            remote_width,
            remote_height,
        );
        match system_action {
            Some(SystemAction::Exit) => Some(Activation::Exit),
            None => match application_button {
                Some(button_id) => Some(activation_for_button(button_id)),
                None => None,
            },
        }
    }

    /// Forget every partial contact, the forwarded remote contact included,
    /// without sending anything (the window was unmapped).
    pub fn cancel_contact(&mut self)
        ensures
            final(self).spec_size() == old(self).spec_size(),
            final(self).spec_status_text() == old(self).spec_status_text(),
            final(self).spec_application_contact() == Contact::Idle,
            final(self).spec_exit_contact() == ExitContact::Idle,
            !final(self).spec_remote_active(),
    {
        self.application_contact.cancel();
        self.system_ui.cancel_contact();
        self.remote_contact.cancel();
    }

    /// The pointer message to forward to PaperSpoon for one event of the
    /// current window, if any; the local controls are left alone.
    pub fn forward_pointer(&mut self, event: PointerEvent) -> (pointer: Option<V2Pointer>)
        ensures
            final(self).spec_size() == old(self).spec_size(),
            final(self).spec_status_text() == old(self).spec_status_text(),
            final(self).spec_application_contact() == old(self).spec_application_contact(),
            final(self).spec_exit_contact() == old(self).spec_exit_contact(),
            ({
                let (width, height) = old(self).spec_size();
                let (active, message) = forward_spec(
                    old(self).spec_remote_active(),
                    event,
                    width,
                    height,
                );
                &&& final(self).spec_remote_active() == active
                &&& match pointer {
                    Some(pointer) => message == Some(pointer_fields(pointer)),
                    None => message is None,
                }
            }),
    {
        self.remote_contact.forward(event, self.width, self.height)
    }
}

/// No point of the Exit bar is on an application button: Exit lies in the
/// system strip, below the remote viewport that holds the grid.
pub proof fn lemma_exit_off_the_grid(width: u16, height: u16, point: PhysicalPoint)
    ensures
        on_exit(width, height, point) ==> window_button_at(width, height, point) is None,
{
    if on_exit(width, height, point) {
        assert(window_remote_point(width, height, point) is None);
    }
}

/// The outcome of a primary press at `pressed` followed by a primary release
/// at `released` from idle contacts.
pub open spec fn tap_outcome(width: u16, height: u16, pressed: PhysicalPoint, released: PhysicalPoint) -> Option<Activation> {
    let exit = exit_pressed(ExitContact::Idle, width, height, pressed);
    let contact = contact_pressed(Contact::Idle, window_button_at(width, height, pressed));
    if exit_released(exit, width, height, released) {
        Some(Activation::Exit)
    } else {
        match contact_released(contact, window_button_at(width, height, released)) {
            Some(button_id) => Some(activation_of(button_id)),
            None => None,
        }
    }
}

/// A tap activates Exit exactly when it goes down and comes up on the Exit
/// bar, and a grid button exactly when it goes down and comes up on that
/// button: the two controls never activate each other.
pub proof fn lemma_tap_activates_one_control(
    width: u16,
    height: u16,
    pressed: PhysicalPoint,
    released: PhysicalPoint,
)
    ensures
        tap_outcome(width, height, pressed, released) == if on_exit(width, height, pressed)
            && on_exit(width, height, released) {
            Some(Activation::Exit)
        } else {
            match (window_button_at(width, height, pressed), window_button_at(width, height, released)) {
                (Some(first), Some(second)) => if first == second {
                    Some(activation_of(first))
                } else {
                    None
                },
                _ => None,
            }
        },
        tap_outcome(width, height, pressed, released) matches Some(Activation::Exit) ==> window_button_at(
            width,
            height,
            pressed,
        ) is None,
{
    lemma_exit_off_the_grid(width, height, pressed);
    lemma_exit_off_the_grid(width, height, released);
}

/// The activation of a grid button: its action, or unknown.
pub fn activation_for_button(button_id: u8) -> (activation: Activation)
    ensures
        activation == activation_of(button_id),
{
    match action_for_button(button_id) {
        Some(action) => Activation::Send { button_id, action },
        None => Activation::Unknown { button_id },
    }
}

} // verus!
