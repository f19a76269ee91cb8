//! Which pointer phases PaperPad forwards to PaperSpoon.
//!
//! Only primary contacts take part. A press inside the remote viewport is
//! forwarded as a viewport-relative `PointerDown` and opens a remote
//! contact; the release that ends it is always forwarded as a `PointerUp`,
//! at the release point when it is inside the viewport and at an
//! out-of-bounds point otherwise, so PaperSpoon can cancel the contact.
//! Releases without a forwarded press, and contacts dropped locally (a
//! geometry change or an unmapped window), send nothing.
use crate::app_state::{window_remote_point, window_remote_viewport};
use crate::screen::{RemotePoint, ScreenLayout};
use crate::ui::button::{PointerEvent, PointerEventKind, PRIMARY_BUTTON_DETAIL};
use crate::v2_payload::{V2Pointer, V2PointerPhase};
use vstd::prelude::*;

verus! {

/// The coordinate of a `PointerUp` that ends a contact outside the remote
/// viewport; no viewport reaches it, since extents stop at 32767.
pub const OUT_OF_BOUNDS: u16 = 65535;

/// The pointer message a remote point and phase make.
pub open spec fn pointer_at(phase: V2PointerPhase, point: Option<RemotePoint>) -> (V2PointerPhase, u16, u16) {
    match point {
        Some(point) => (phase, point.x, point.y),
        None => (phase, OUT_OF_BOUNDS, OUT_OF_BOUNDS),
    }
}

/// The message content of a pointer.
pub open spec fn pointer_fields(pointer: V2Pointer) -> (V2PointerPhase, u16, u16) {
    (pointer.spec_phase(), pointer.spec_x(), pointer.spec_y())
}

/// What one event does to a remote contact of a `width` by `height`
/// window: whether a contact is open afterwards, and the message to send.
pub open spec fn forward_spec(active: bool, event: PointerEvent, width: u16, height: u16) -> (
    bool,
    Option<(V2PointerPhase, u16, u16)>,
) {
    let point = window_remote_point(width, height, event.point);
    if event.detail != PRIMARY_BUTTON_DETAIL {
        (active, None)
    } else {
        match event.kind {
            PointerEventKind::Press => match point {
                Some(_) => (true, Some(pointer_at(V2PointerPhase::Down, point))),
                None => (active, None),
            },
            PointerEventKind::Release => if active {
                (false, Some(pointer_at(V2PointerPhase::Up, point)))
            } else {
                (false, None)
            },
        }
    }
}

/// Whether a primary contact was forwarded to PaperSpoon and not yet ended.
#[derive(Debug)]
pub struct RemoteContact {
    active: bool,
}

impl RemoteContact {
    pub closed spec fn spec_active(&self) -> bool {
        self.active
    }

    /// No contact is open.
    pub fn new() -> (contact: Self)
        ensures
            !contact.spec_active(),
    {
        RemoteContact { active: false }
    }

    /// Drop the contact locally; nothing is sent for it.
    pub fn cancel(&mut self)
        ensures
            !final(self).spec_active(),
    {
        self.active = false;
    }

    /// Track one pointer event of a `width` by `height` window and return
    /// the message to forward, if any.
    pub fn forward(&mut self, event: PointerEvent, width: u16, height: u16) -> (pointer: Option<
        V2Pointer,
    >)
        ensures
            ({
                let (active, message) = forward_spec(old(self).spec_active(), event, width, height);
                &&& final(self).spec_active() == active
                &&& match pointer {
                    Some(pointer) => message == Some(pointer_fields(pointer)),
                    None => message is None,
                }
            }),
    {
        if event.detail != PRIMARY_BUTTON_DETAIL {
            return None;
        }
        let point = match ScreenLayout::new(width, height) {
            Some(layout) => layout.physical_to_remote(event.point),
            None => None,
        };
        match event.kind {
            PointerEventKind::Press => match point {
                Some(point) => {
                    self.active = true;
                    Some(V2Pointer::new(V2PointerPhase::Down, point.x, point.y))
                },
                None => None,
            },
            PointerEventKind::Release => {
                if !self.active {
                    return None;
                }
                self.active = false;
                match point {
                    Some(point) => Some(V2Pointer::new(V2PointerPhase::Up, point.x, point.y)),
                    None => Some(V2Pointer::new(V2PointerPhase::Up, OUT_OF_BOUNDS, OUT_OF_BOUNDS)),
                }
            },
        }
    }
}

impl Default for RemoteContact {
    fn default() -> (contact: Self)
        ensures
            !contact.spec_active(),
    {
        RemoteContact::new()
    }
}

/// Every forwarded `PointerDown` is ended by exactly one `PointerUp`: once a
/// press is forwarded, the next primary release is forwarded as an Up,
/// inside the viewport or not, and closes the contact; a release with no
/// forwarded press is never forwarded.
pub proof fn lemma_forwarded_press_is_ended(
    active: bool,
    press: PointerEvent,
    release: PointerEvent,
    width: u16,
    height: u16,
)
    requires
        press.kind == PointerEventKind::Press,
        release.kind == PointerEventKind::Release,
        release.detail == PRIMARY_BUTTON_DETAIL,
    ensures
        forward_spec(active, press, width, height).1 is Some ==> ({
            let after_press = forward_spec(active, press, width, height).0;
            let (after_release, message) = forward_spec(after_press, release, width, height);
            &&& !after_release
            &&& message matches Some((phase, _, _)) && phase == V2PointerPhase::Up
        }),
        forward_spec(false, release, width, height) == (false, None::<(V2PointerPhase, u16, u16)>),
{
}

/// A contact that ends outside the remote viewport is forwarded at a point
/// outside every viewport, so it can never complete a remote gesture.
pub proof fn lemma_outside_release_is_out_of_bounds(release: PointerEvent, width: u16, height: u16)
    requires
        release.kind == PointerEventKind::Release,
        release.detail == PRIMARY_BUTTON_DETAIL,
        window_remote_point(width, height, release.point) is None,
    ensures
        forward_spec(true, release, width, height).1 == Some(
            (V2PointerPhase::Up, OUT_OF_BOUNDS, OUT_OF_BOUNDS),
        ),
        window_remote_viewport(width, height).width < OUT_OF_BOUNDS,
        window_remote_viewport(width, height).height < OUT_OF_BOUNDS,
{
}

} // verus!
