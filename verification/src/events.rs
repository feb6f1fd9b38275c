//! Classification of raw terminal input into the small set of semantic
//! events the simulation loop understands.
//!
//! The input bridge reads raw events from the terminal, reduces each to a
//! `RawEvent` of plain values, and classifies it here; everything the
//! classification does not recognize is discarded.

use vstd::prelude::*;

verus! {

/// A loop-relevant input signal: toggle one cell, toggle the pause state,
/// or terminate the run. Produced by the input bridge, consumed in FIFO
/// order by the simulation loop.
#[derive(Clone, Copy, Debug, PartialEq, Eq, Structural)]
pub enum SemanticEvent {
    /// Flip the cell at (row, col) of the current grid.
    ToggleCell(u16, u16),
    /// Flip between `Paused` and `Running`.
    TogglePause,
    /// End the simulation loop.
    Terminate,
}

/// What a mouse event did: a button press, a drag with a button held, or
/// anything else (release, movement, scroll).
#[derive(Clone, Copy, Debug, PartialEq, Eq, Structural)]
pub enum MouseAction {
    Press,
    Drag,
    Other,
}

/// A raw terminal input event, reduced to plain values. `Key` carries a
/// printable character and whether the control modifier — and only the
/// control modifier — was held; every non-character key and every other
/// kind of terminal event arrives as `Other`.
#[derive(Clone, Copy, Debug, PartialEq, Eq, Structural)]
pub enum RawEvent {
    Mouse { action: MouseAction, row: u16, col: u16 },
    Key { ch: char, ctrl: bool },
    Other,
}

/// The classification table: a mouse press or drag toggles the cell under
/// the cursor; control-'c' terminates; 'p' (with or without modifiers,
/// but not the terminate chord) toggles pause; everything else is
/// discarded.
pub open spec fn classify_spec(e: RawEvent) -> Option<SemanticEvent> {
    match e {
        RawEvent::Mouse { action, row, col } => match action {
            MouseAction::Press => Some(SemanticEvent::ToggleCell(row, col)),
            MouseAction::Drag => Some(SemanticEvent::ToggleCell(row, col)),
            MouseAction::Other => None,
        },
        RawEvent::Key { ch, ctrl } => if ch == 'c' && ctrl {
            Some(SemanticEvent::Terminate)
        } else if ch == 'p' {
            Some(SemanticEvent::TogglePause)
        } else {
            None
        },
        RawEvent::Other => None,
    }
}

/// Classifies one raw event; `None` means the event is discarded.
pub fn classify(e: &RawEvent) -> (out: Option<SemanticEvent>)
    ensures
        out == classify_spec(*e),
{
    match e {
        RawEvent::Mouse { action, row, col } => match action {
            MouseAction::Press => Some(SemanticEvent::ToggleCell(*row, *col)),
            MouseAction::Drag => Some(SemanticEvent::ToggleCell(*row, *col)),
            MouseAction::Other => None,
        },
        RawEvent::Key { ch, ctrl } => if *ch == 'c' && *ctrl {
            Some(SemanticEvent::Terminate)
        } else if *ch == 'p' {
            Some(SemanticEvent::TogglePause)
        } else {
            None
        },
        RawEvent::Other => None,
    }
}

} // verus!
