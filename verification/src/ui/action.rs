//! Semantic action ids for the nine-button grid and the Exit bar.
//!
//! A button activation maps to a stable dotted action id that the transport
//! carries verbatim to PaperSpoon.
pub use crate::ui::geometry::EXIT_BUTTON_ID;
use vstd::prelude::*;

verus! {


/// A semantic action assignable to a grid button.
#[derive(Clone, Copy, Debug, PartialEq, Eq, Structural)]
pub enum SemanticAction {
    MediaPlayPause,
    MediaNext,
    MediaPrevious,
    TerminalNewWindow,
    TmuxWork,
    ZoomToggleMute,
    StubButton7,
    StubButton8,
    StubButton9,
    Exit,
}

/// The wire id of an action.
pub open spec fn action_id(action: SemanticAction) -> Seq<char> {
    match action {
        SemanticAction::MediaPlayPause => "media.play_pause"@,
        SemanticAction::MediaNext => "media.next"@,
        SemanticAction::MediaPrevious => "media.previous"@,
        SemanticAction::TerminalNewWindow => "terminal.new_window"@,
        SemanticAction::TmuxWork => "tmux.work"@,
        SemanticAction::ZoomToggleMute => "zoom.toggle_mute"@,
        SemanticAction::StubButton7 => "stub.button_7"@,
        SemanticAction::StubButton8 => "stub.button_8"@,
        SemanticAction::StubButton9 => "stub.button_9"@,
        SemanticAction::Exit => "app.exit"@,
    }
}

/// The action of a button id: 1 to 9 for the grid, [`EXIT_BUTTON_ID`] for
/// Exit.
pub open spec fn button_action(button_id: u8) -> Option<SemanticAction> {
    if button_id == EXIT_BUTTON_ID {
        Some(SemanticAction::Exit)
    } else if button_id == 1 {
        Some(SemanticAction::MediaPlayPause)
    } else if button_id == 2 {
        Some(SemanticAction::MediaNext)
    } else if button_id == 3 {
        Some(SemanticAction::MediaPrevious)
    } else if button_id == 4 {
        Some(SemanticAction::TerminalNewWindow)
    } else if button_id == 5 {
        Some(SemanticAction::TmuxWork)
    } else if button_id == 6 {
        Some(SemanticAction::ZoomToggleMute)
    } else if button_id == 7 {
        Some(SemanticAction::StubButton7)
    } else if button_id == 8 {
        Some(SemanticAction::StubButton8)
    } else if button_id == 9 {
        Some(SemanticAction::StubButton9)
    } else {
        None
    }
}

impl SemanticAction {
    /// Stable dotted wire identifier for the action.
    pub fn id(self) -> (id: &'static str)
        ensures
            id@ == action_id(self),
    {
        match self {
            SemanticAction::MediaPlayPause => "media.play_pause",
            SemanticAction::MediaNext => "media.next",
            SemanticAction::MediaPrevious => "media.previous",
            SemanticAction::TerminalNewWindow => "terminal.new_window",
            SemanticAction::TmuxWork => "tmux.work",
            SemanticAction::ZoomToggleMute => "zoom.toggle_mute",
            SemanticAction::StubButton7 => "stub.button_7",
            SemanticAction::StubButton8 => "stub.button_8",
            SemanticAction::StubButton9 => "stub.button_9",
            SemanticAction::Exit => "app.exit",
        }
    }
}

/// Map a grid button id (1..=9, plus the Exit bar id) to its semantic action;
/// `None` for any other id.
pub fn action_for_button(button_id: u8) -> (action: Option<SemanticAction>)
    ensures
        action == button_action(button_id),
{
    if button_id == EXIT_BUTTON_ID {
        return Some(SemanticAction::Exit);
    }
    match button_id {
        1 => Some(SemanticAction::MediaPlayPause),
        2 => Some(SemanticAction::MediaNext),
        3 => Some(SemanticAction::MediaPrevious),
        4 => Some(SemanticAction::TerminalNewWindow),
        5 => Some(SemanticAction::TmuxWork),
        6 => Some(SemanticAction::ZoomToggleMute),
        7 => Some(SemanticAction::StubButton7),
        8 => Some(SemanticAction::StubButton8),
        9 => Some(SemanticAction::StubButton9),
        _ => None,
    }
}

/// Distinct actions have distinct wire ids.
pub proof fn lemma_action_ids_distinct(first: SemanticAction, second: SemanticAction)
    requires
        first != second,
    ensures
        action_id(first) != action_id(second),
{
    reveal_strlit("media.play_pause");
    reveal_strlit("media.next");
    reveal_strlit("media.previous");
    reveal_strlit("terminal.new_window");
    reveal_strlit("tmux.work");
    reveal_strlit("zoom.toggle_mute");
    reveal_strlit("stub.button_7");
    reveal_strlit("stub.button_8");
    reveal_strlit("stub.button_9");
    reveal_strlit("app.exit");
    let a = action_id(first);
    let b = action_id(second);
    if a.len() == b.len() {
        if a.len() == 10 {
            assert(a[0] != b[0] || a[5] != b[5]);
        } else if a.len() == 13 {
            assert(a[12] != b[12]);
        } else if a.len() == 16 {
            assert(a[0] != b[0]);
        }
    }
}

/// Every button the grid and the Exit bar can report has an action, and no
/// other id has one.
pub proof fn lemma_button_actions(button_id: u8)
    ensures
        button_action(button_id) is Some <==> (1 <= button_id <= 9 || button_id == EXIT_BUTTON_ID),
{
}

} // verus!
