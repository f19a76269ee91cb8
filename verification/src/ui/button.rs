//! Wire-independent pointer records and the contact tracking of the
//! application grid: a button activates when one primary contact goes down
//! and comes up on it.
use crate::screen::{PhysicalPoint, RemotePoint};
use crate::ui::geometry::{button_grid, grid_cell, grid_side, is_window_grid, GridButton, LogicalRect};
use vstd::prelude::*;

verus! {

/// Core-X11 button detail representing a primary touch contact.
pub const PRIMARY_BUTTON_DETAIL: u8 = 1;

#[derive(Clone, Copy, Debug, PartialEq, Eq, Structural)]
pub enum PointerEventKind {
    Press,
    Release,
}

/// Normalized pointer event in window-relative physical coordinates.
#[derive(Clone, Copy, Debug, PartialEq, Eq, Structural)]
pub struct PointerEvent {
    pub kind: PointerEventKind,
    pub detail: u8,
    pub point: PhysicalPoint,
}

/// The state of the one tracked application contact.
#[derive(Clone, Copy, Debug, PartialEq, Eq, Structural)]
pub enum Contact {
    /// No contact is down.
    Idle,
    /// A primary contact went down on this button.
    Armed(u8),
    /// The contact went down outside every button, or a second press came.
    Cancelled,
}

/// Tracks one primary contact against the application grid.
#[derive(Clone, Copy, Debug, PartialEq, Eq)]
pub struct ContactTracker {
    contact: Contact,
}

/// Whether `rect` holds the remote point `x`, `y`.
pub open spec fn cell_holds(rect: LogicalRect, x: u16, y: u16) -> bool {
    rect.x <= x < rect.x + rect.width && rect.y <= y < rect.y + rect.height
}

/// The first grid cell at or after `index` that holds `x`, `y`.
pub open spec fn cell_from(width: u16, side: u16, x: u16, y: u16, index: nat) -> Option<u8>
    decreases 9 - index,
{
    if index >= 9 {
        None
    } else if cell_holds(grid_cell(width, side, index as int), x, y) {
        Some((index + 1) as u8)
    } else {
        cell_from(width, side, x, y, index + 1)
    }
}

/// The grid button of a `width` by `height` viewport under a remote point.
pub open spec fn button_at(width: u16, height: u16, point: Option<RemotePoint>) -> Option<u8> {
    match (point, grid_side(width, height)) {
        (Some(point), Some(side)) => cell_from(width, side, point.x, point.y, 0),
        _ => None,
    }
}

/// The contact after a primary press on `hit`.
pub open spec fn contact_pressed(contact: Contact, hit: Option<u8>) -> Contact {
    match contact {
        Contact::Idle => match hit {
            Some(id) => Contact::Armed(id),
            None => Contact::Cancelled,
        },
        _ => Contact::Cancelled,
    }
}

/// The button a primary release on `hit` activates.
pub open spec fn contact_released(contact: Contact, hit: Option<u8>) -> Option<u8> {
    match (contact, hit) {
        (Contact::Armed(armed), Some(released)) => if armed == released {
            Some(armed)
        } else {
            None
        },
        _ => None,
    }
}

impl ContactTracker {
    pub closed spec fn spec_contact(&self) -> Contact {
        self.contact
    }

    pub fn new() -> (tracker: Self)
        ensures
            tracker.spec_contact() == Contact::Idle,
    {
        ContactTracker { contact: Contact::Idle }
    }

    /// Forget any partial contact.
    pub fn cancel(&mut self)
        ensures
            final(self).spec_contact() == Contact::Idle,
    {
        self.contact = Contact::Idle;
    }
}

impl Default for ContactTracker {
    fn default() -> (tracker: Self)
        ensures
            tracker.spec_contact() == Contact::Idle,
    {
        ContactTracker::new()
    }
}

/// The grid button under a remote point.
fn find_button(buttons: &Vec<GridButton>, width: u16, height: u16, point: RemotePoint) -> (hit:
    Option<u8>)
    requires
        is_window_grid(buttons@, width, height),
    ensures
        hit == button_at(width, height, Some(point)),
{
    if buttons.len() == 0 {
        return None;
    }
    let ghost side = grid_side(width, height)->0;
    let mut index: usize = 0;
    while index < buttons.len()
        invariant
            is_window_grid(buttons@, width, height),
            grid_side(width, height) == Some(side),
            buttons@.len() == 9,
            index <= 9,
            button_at(width, height, Some(point)) == cell_from(
                width,
                side,
                point.x,
                point.y,
                index as nat,
            ),
        decreases 9 - index,
    {
        let button = buttons[index];
        assert(button == buttons@[index as int]);
        let bounds = button.bounds;
        if bounds.x <= point.x && (point.x as u32) < bounds.x as u32 + bounds.width as u32
            && bounds.y <= point.y && (point.y as u32) < bounds.y as u32 + bounds.height as u32 {
            return Some(button.id);
        }
        index = index + 1;
    }
    None
}

/// Track one pointer event against the grid of a `width` by `height` remote
/// viewport; a primary release on the button its press armed returns that
/// button. Events of other buttons leave the contact alone.
pub fn handle_pointer_event(
    tracker: &mut ContactTracker,
    kind: PointerEventKind,
    detail: u8,
    remote_point: Option<RemotePoint>,
    width: u16,
    height: u16,
) -> (activated: Option<u8>)
    ensures
        detail != PRIMARY_BUTTON_DETAIL ==> activated is None && final(tracker).spec_contact()
            == old(tracker).spec_contact(),
        detail == PRIMARY_BUTTON_DETAIL ==> match kind {
            PointerEventKind::Press => activated is None && final(tracker).spec_contact()
                == contact_pressed(
                old(tracker).spec_contact(),
                button_at(width, height, remote_point),
            ),
            PointerEventKind::Release => activated == contact_released(
                old(tracker).spec_contact(),
                button_at(width, height, remote_point),
            ) && final(tracker).spec_contact() == Contact::Idle,
        },
{
    if detail != PRIMARY_BUTTON_DETAIL {
        return None;
    }
    let hit = match remote_point {
        Some(point) => {
            let buttons = button_grid(width, height);
            find_button(&buttons, width, height, point)
        },
        None => None,
    };
    match kind {
        PointerEventKind::Press => {
            tracker.contact = match tracker.contact {
                Contact::Idle => match hit {
                    Some(id) => Contact::Armed(id),
                    None => Contact::Cancelled,
                },
                _ => Contact::Cancelled,
            };
            None
        },
        PointerEventKind::Release => {
            let activated = match (tracker.contact, hit) {
                (Contact::Armed(armed), Some(released)) => if armed == released {
                    Some(armed)
                } else {
                    None
                },
                _ => None,
            };
            tracker.contact = Contact::Idle;
            activated
        },
    }
}

} // verus!
