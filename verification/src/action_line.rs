//! The legacy wire form of a semantic activation: one newline-terminated
//! line `event action=<semantic-id>;` sent from the Kindle to the companion.
//! Only the stable dotted action ids leave the device.
use crate::text::{chars_to_string, push_str};
use crate::transport::{valid_action, StreamView};
use crate::transport_laws::{lemma_legacy_event_formats, lemma_stream_roundtrip};
use crate::transport_parse::parse_stream_spec;
use crate::ui::action::{action_id, SemanticAction};
use vstd::prelude::*;

verus! {

/// The line of an activation of `semantic_id`.
pub open spec fn action_line(semantic_id: Seq<char>) -> Seq<char> {
    "event action="@ + semantic_id + seq![';', '\n']
}

/// Build the one-line wire representation of a semantic activation.
pub fn format_action_line(semantic_id: &str) -> (line: String)
    ensures
        line@ == action_line(semantic_id@),
{
    let mut out: Vec<char> = Vec::new();
    push_str(&mut out, "event action=");
    push_str(&mut out, semantic_id);
    out.push(';');
    out.push('\n');
    assert(out@ =~= action_line(semantic_id@));
    chars_to_string(out.as_slice())
}

/// Every semantic action id is a valid protocol action.
pub proof fn lemma_action_ids_are_valid(action: SemanticAction)
    ensures
        valid_action(action_id(action)),
{
    reveal_strlit("media.play_pause");
    reveal_strlit("media.next");
    reveal_strlit("media.previous");
    reveal_strlit("terminal.new_window");
    reveal_strlit("tmux.work");
    reveal_strlit("zoom.toggle_mute");
    reveal_strlit("stub.button_7");
    reveal_strlit("stub.button_8");
    reveal_strlit("stub.button_9");
    reveal_strlit("app.exit");
}

/// The line of every semantic activation parses on the stream as the legacy
/// event of that action.
pub proof fn lemma_action_line_parses(action: SemanticAction)
    ensures
        parse_stream_spec(action_line(action_id(action))) == Ok::<
            StreamView,
            crate::transport::ProtocolErrorView,
        >(StreamView::LegacyEvent { action: action_id(action) }),
{
    lemma_action_ids_are_valid(action);
    lemma_legacy_event_formats(action_id(action));
    lemma_stream_roundtrip(StreamView::LegacyEvent { action: action_id(action) });
}

} // verus!
