//! Host-owned application contact tracking and hit testing: a button is
//! activated by a press and a release of one contact on that same button of
//! the last application frame rendered for PaperPad.
use crate::paperspoon::application_ui::{
    button_spec, cell_side_spec, is_button_grid, is_grid_button, lemma_buttons_inside_viewport,
    rect_contains, ApplicationUi, ButtonLayout,
};
use crate::ui::action::{action_for_button, action_id, button_action, lemma_button_actions};
use crate::v2_payload::{V2Pointer, V2PointerPhase};
use vstd::prelude::*;

verus! {

#[derive(Clone, Copy, Debug, PartialEq, Eq)]
pub struct ApplicationActivation {
    pub button_id: u8,
    pub action_id: &'static str,
}

/// The state of the one tracked contact.
#[derive(Clone, Copy, Debug, PartialEq, Eq, Structural)]
pub enum ContactState {
    /// No contact is down.
    Idle,
    /// A contact went down on this button.
    Armed(u8),
    /// The contact went down outside every button, or a second press came.
    Cancelled,
}

/// Tracks one remote primary contact against the last host-rendered UI frame.
#[derive(Debug)]
pub struct ApplicationInput {
    viewport: Option<(u16, u16)>,
    contact: ContactState,
}

/// The first grid button at or after `index` that holds `x`, `y`.
pub open spec fn hit_from(width: u16, side: u16, x: u16, y: u16, index: nat) -> Option<u8>
    decreases 9 - index,
{
    if index >= 9 {
        None
    } else if rect_contains(button_spec(width, side, index as int).1, x, y) {
        Some((index + 1) as u8)
    } else {
        hit_from(width, side, x, y, index + 1)
    }
}

/// The grid button of a `width` by `height` viewport that holds `x`, `y`.
pub open spec fn grid_hit(width: u16, height: u16, x: u16, y: u16) -> Option<u8> {
    match cell_side_spec(width, height) {
        Some(side) => hit_from(width, side, x, y, 0),
        None => None,
    }
}

/// The host action of an application button: buttons 1 to 9 only.
pub open spec fn host_action(button_id: u8) -> Option<Seq<char>> {
    if 1 <= button_id <= 9 {
        match button_action(button_id) {
            Some(action) => Some(action_id(action)),
            None => None,
        }
    } else {
        None
    }
}

/// The contact after a press on `hit`.
pub open spec fn pressed(contact: ContactState, hit: Option<u8>) -> ContactState {
    match contact {
        ContactState::Idle => match hit {
            Some(id) => ContactState::Armed(id),
            None => ContactState::Cancelled,
        },
        _ => ContactState::Cancelled,
    }
}

/// The button a release on `hit` activates.
pub open spec fn released(contact: ContactState, hit: Option<u8>) -> Option<u8> {
    match (contact, hit) {
        (ContactState::Armed(armed), Some(released)) => if armed == released {
            Some(armed)
        } else {
            None
        },
        _ => None,
    }
}

/// The host action of a button, if it has one.
fn host_action_id(button_id: u8) -> (id: Option<&'static str>)
    ensures
        match id {
            Some(text) => host_action(button_id) == Some(text@),
            None => host_action(button_id) is None,
        },
{
    if button_id < 1 || button_id > 9 {
        return None;
    }
    match action_for_button(button_id) {
        Some(action) => Some(action.id()),
        None => None,
    }
}

/// The first of `buttons` that holds `x`, `y`.
fn find_hit(buttons: &Vec<ButtonLayout>, width: u16, height: u16, x: u16, y: u16) -> (hit: Option<u8>)
    requires
        is_button_grid(buttons@, width, height),
    ensures
        hit == grid_hit(width, height, x, y),
{
    let ghost side = cell_side_spec(width, height);
    if buttons.len() == 0 {
        return None;
    }
    let mut index: usize = 0;
    while index < buttons.len()
        invariant
            side is Some,
            side == cell_side_spec(width, height),
            buttons@.len() == 9,
            index <= 9,
            is_button_grid(buttons@, width, height),
            grid_hit(width, height, x, y) == hit_from(width, side->0, x, y, index as nat),
        decreases 9 - index,
    {
        assert(is_grid_button(buttons@[index as int], width, side->0, index as int));
        if buttons[index].bounds.contains(x, y) {
            return Some(buttons[index].id);
        }
        index = index + 1;
    }
    None
}

impl ApplicationInput {
    pub closed spec fn spec_viewport(&self) -> Option<(u16, u16)> {
        self.viewport
    }

    pub closed spec fn spec_contact(&self) -> ContactState {
        self.contact
    }

    /// A tracker with no application frame and no contact.
    pub fn new() -> (input: Self)
        ensures
            input.spec_viewport() is None,
            input.spec_contact() == ContactState::Idle,
    {
        ApplicationInput { viewport: None, contact: ContactState::Idle }
    }

    pub fn is_active(&self) -> (active: bool)
        ensures
            active == self.spec_viewport() is Some,
    {
        self.viewport.is_some()
    }

    /// Replace the active application viewport and cancel any partial
    /// contact. `None`, or an empty viewport, means the displayed frame is
    /// not the application UI.
    pub fn set_viewport(&mut self, viewport: Option<(u16, u16)>)
        ensures
            final(self).spec_viewport() == (match viewport {
                Some((width, height)) => if width > 0 && height > 0 {
                    Some((width, height))
                } else {
                    None
                },
                None => None,
            }),
            final(self).spec_contact() == ContactState::Idle,
    {
        self.viewport = match viewport {
            Some((width, height)) => if width > 0 && height > 0 {
                Some((width, height))
            } else {
                None
            },
            None => None,
        };
        self.contact = ContactState::Idle;
    }

    /// Track one pointer phase; a release on the button its press armed
    /// activates that button's action.
    pub fn handle_pointer(&mut self, ui: &ApplicationUi, pointer: V2Pointer) -> (activation: Option<
        ApplicationActivation,
    >)
        ensures
            final(self).spec_viewport() == old(self).spec_viewport(),
            match old(self).spec_viewport() {
                None => activation is None && final(self).spec_contact() == ContactState::Idle,
                Some((width, height)) => {
                    let hit = grid_hit(width, height, pointer.spec_x(), pointer.spec_y());
                    match pointer.spec_phase() {
                        V2PointerPhase::Down => activation is None && final(self).spec_contact()
                            == pressed(old(self).spec_contact(), hit),
                        V2PointerPhase::Up => {
                            &&& final(self).spec_contact() == ContactState::Idle
                            &&& match released(old(self).spec_contact(), hit) {
                                Some(button_id) => match host_action(button_id) {
                                    Some(id) => activation matches Some(activation)
                                        && activation.button_id == button_id
                                        && activation.action_id@ == id,
                                    None => activation is None,
                                },
                                None => activation is None,
                            }
                        },
                    }
                },
            },
    {
        let (width, height) = match self.viewport {
            Some(viewport) => viewport,
            None => {
                self.contact = ContactState::Idle;
                return None;
            },
        };
        let hit = match ui.layout(width, height) {
            Some(layout) => find_hit(&layout.buttons, width, height, pointer.x(), pointer.y()),
            None => None,
        };
        match pointer.phase() {
            V2PointerPhase::Down => {
                self.contact = match self.contact {
                    ContactState::Idle => match hit {
                        Some(id) => ContactState::Armed(id),
                        None => ContactState::Cancelled,
                    },
                    _ => ContactState::Cancelled,
                };
                None
            },
            V2PointerPhase::Up => {
                let activated = match (self.contact, hit) {
                    (ContactState::Armed(armed), Some(released)) => if armed == released {
                        match host_action_id(armed) {
                            Some(action_id) => Some(
                                ApplicationActivation { button_id: armed, action_id },
                            ),
                            None => None,
                        }
                    } else {
                        None
                    },
                    _ => None,
                };
                self.contact = ContactState::Idle;
                activated
            },
        }
    }
}

impl Default for ApplicationInput {
    fn default() -> (input: Self)
        ensures
            input.spec_viewport() is None,
            input.spec_contact() == ContactState::Idle,
    {
        ApplicationInput::new()
    }
}

/// A released contact activates a button only when the contact was armed
/// on that same button; every release disarms.
pub proof fn lemma_activation_needs_press_and_release_on_one_button(
    contact: ContactState,
    hit: Option<u8>,
)
    ensures
        released(contact, hit) matches Some(id) ==> contact == ContactState::Armed(id) && hit
            == Some(id),
        pressed(contact, hit) is Armed ==> contact == ContactState::Idle,
{
}


/// The hit found from `index` on is the first grid button from `index` on
/// that holds the point.
proof fn lemma_hit_from(width: u16, side: u16, x: u16, y: u16, index: nat)
    requires
        index <= 9,
    ensures
        match hit_from(width, side, x, y, index) {
            Some(id) => index < id <= 9 && rect_contains(
                button_spec(width, side, id - 1).1,
                x,
                y,
            ),
            None => forall|j: int|
                index <= j < 9 ==> !rect_contains(#[trigger] button_spec(width, side, j).1, x, y),
        },
    decreases 9 - index,
{
    if index < 9 && !rect_contains(button_spec(width, side, index as int).1, x, y) {
        lemma_hit_from(width, side, x, y, index + 1);
    }
}

/// The host's hit test agrees with the layout's buttons: a point hits the
/// button with a given id exactly when that layout button's half-open bounds
/// hold it, and hits nothing when no layout button holds it.
pub proof fn lemma_hit_is_layout_button(
    buttons: Seq<ButtonLayout>,
    width: u16,
    height: u16,
    x: u16,
    y: u16,
)
    requires
        is_button_grid(buttons, width, height),
    ensures
        forall|i: int|
            0 <= i < buttons.len() && rect_contains(#[trigger] buttons[i].bounds, x, y) ==> grid_hit(
                width,
                height,
                x,
                y,
            ) == Some(buttons[i].id),
        grid_hit(width, height, x, y) is None <==> forall|i: int|
            0 <= i < buttons.len() ==> !rect_contains(#[trigger] buttons[i].bounds, x, y),
        grid_hit(width, height, x, y) matches Some(id) ==> exists|i: int|
            0 <= i < buttons.len() && #[trigger] buttons[i].id == id && rect_contains(
                buttons[i].bounds,
                x,
                y,
            ),
{
    match cell_side_spec(width, height) {
        None => {},
        Some(side) => {
            lemma_hit_from(width, side, x, y, 0);
            lemma_buttons_inside_viewport(width, height, buttons);
            match grid_hit(width, height, x, y) {
                Some(id) => {
                    let k = id - 1;
                    assert(is_grid_button(buttons[k], width, side, k));
                    assert(rect_contains(buttons[k].bounds, x, y));
                    assert forall|i: int|
                        0 <= i < buttons.len() && rect_contains(
                            #[trigger] buttons[i].bounds,
                            x,
                            y,
                        ) implies grid_hit(width, height, x, y) == Some(buttons[i].id) by {
                        assert(is_grid_button(buttons[i], width, side, i));
                        if i != k {
                            assert(!(rect_contains(buttons[i].bounds, x, y) && rect_contains(
                                buttons[k].bounds,
                                x,
                                y,
                            )));
                        }
                    }
                },
                None => {
                    assert forall|i: int| 0 <= i < buttons.len() implies !rect_contains(
                        #[trigger] buttons[i].bounds,
                        x,
                        y,
                    ) by {
                        assert(is_grid_button(buttons[i], width, side, i));
                        assert(!rect_contains(button_spec(width, side, i).1, x, y));
                    }
                },
            }
        },
    }
}

/// A tap on a freshly shown application frame: a press at `press` and the
/// following release at `release` activate the layout button whose
/// half-open bounds hold both points, with that button's host action, and
/// nothing when no single button holds both.
pub proof fn lemma_tap_activates_layout_button(
    buttons: Seq<ButtonLayout>,
    width: u16,
    height: u16,
    press_x: u16,
    press_y: u16,
    release_x: u16,
    release_y: u16,
)
    requires
        is_button_grid(buttons, width, height),
    ensures
        ({
            let armed = pressed(ContactState::Idle, grid_hit(width, height, press_x, press_y));
            let activated = released(armed, grid_hit(width, height, release_x, release_y));
            &&& forall|i: int|
                0 <= i < buttons.len() && rect_contains(#[trigger] buttons[i].bounds, press_x, press_y)
                    && rect_contains(buttons[i].bounds, release_x, release_y) ==> activated == Some(
                    buttons[i].id,
                ) && host_action(buttons[i].id) == Some(
                    action_id(button_action(buttons[i].id)->0),
                )
            &&& activated is None <==> !exists|i: int|
                0 <= i < buttons.len() && rect_contains(#[trigger] buttons[i].bounds, press_x, press_y)
                    && rect_contains(buttons[i].bounds, release_x, release_y)
            &&& activated matches Some(id) ==> exists|i: int|
                0 <= i < buttons.len() && #[trigger] buttons[i].id == id && rect_contains(
                    buttons[i].bounds,
                    press_x,
                    press_y,
                ) && rect_contains(buttons[i].bounds, release_x, release_y)
        }),
{
    lemma_hit_is_layout_button(buttons, width, height, press_x, press_y);
    lemma_hit_is_layout_button(buttons, width, height, release_x, release_y);
    let hit_press = grid_hit(width, height, press_x, press_y);
    let hit_release = grid_hit(width, height, release_x, release_y);
    let armed = pressed(ContactState::Idle, hit_press);
    let activated = released(armed, hit_release);
    if let Some(side) = cell_side_spec(width, height) {
        assert forall|i: int|
            0 <= i < buttons.len() && rect_contains(#[trigger] buttons[i].bounds, press_x, press_y)
                && rect_contains(buttons[i].bounds, release_x, release_y) implies activated == Some(
            buttons[i].id,
        ) && host_action(buttons[i].id) == Some(action_id(button_action(buttons[i].id)->0)) by {
            assert(is_grid_button(buttons[i], width, side, i));
            lemma_button_actions(buttons[i].id);
        }
        if let Some(id) = activated {
            let ghost i = choose|i: int|
                0 <= i < buttons.len() && #[trigger] buttons[i].id == id && rect_contains(
                    buttons[i].bounds,
                    press_x,
                    press_y,
                );
            assert(rect_contains(buttons[i].bounds, release_x, release_y)) by {
                let ghost j = choose|j: int|
                    0 <= j < buttons.len() && #[trigger] buttons[j].id == id && rect_contains(
                        buttons[j].bounds,
                        release_x,
                        release_y,
                    );
                assert(is_grid_button(buttons[i], width, side, i));
                assert(is_grid_button(buttons[j], width, side, j));
            }
        }
    }
}
} // verus!
