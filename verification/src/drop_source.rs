//! The drop source controller: whether a drag goes on, ends in a drop or is
//! called off, decided anew each time the desktop shell asks.

use vstd::prelude::*;
use crate::provider::S_OK;

verus! {

/// Status that ends a drag with a drop.
pub const DRAGDROP_S_DROP: i32 = 0x0004_0100;

/// Status that calls a drag off.
pub const DRAGDROP_S_CANCEL: i32 = 0x0004_0101;

/// Status that leaves the choice of cursors to the platform.
pub const DRAGDROP_S_USEDEFAULTCURSORS: i32 = 0x0004_0102;

/// The key-state flag of the primary pointer button.
pub const MK_LBUTTON: u32 = 0x0001;

/// What the controller tells the desktop shell to do with the drag.
#[derive(Debug, Clone, Copy, PartialEq, Eq, Structural)]
pub enum DragSignal {
    /// Go on dragging.
    Continue,
    /// Drop where the pointer is.
    Drop,
    /// Call the drag off.
    Cancel,
}

/// The signal for a state of the cancel key and of the pointer buttons. The
/// cancel key wins; else a drag whose button is no longer held ends in a
/// drop; else it goes on.
pub open spec fn signal_for(escape_pressed: bool, key_state: u32) -> DragSignal {
    if escape_pressed {
        DragSignal::Cancel
    } else if (key_state & MK_LBUTTON) == 0 {
        DragSignal::Drop
    } else {
        DragSignal::Continue
    }
}

/// The status that carries a signal to the desktop shell.
pub open spec fn signal_status(signal: DragSignal) -> i32 {
    match signal {
        DragSignal::Continue => S_OK,
        DragSignal::Drop => DRAGDROP_S_DROP,
        DragSignal::Cancel => DRAGDROP_S_CANCEL,
    }
}

/// Decides whether the drag goes on, given whether the cancel key is pressed
/// and which pointer buttons and modifier keys are down.
pub fn query_continue_drag(escape_pressed: bool, key_state: u32) -> (signal: DragSignal)
    ensures
        signal == signal_for(escape_pressed, key_state),
{
    if escape_pressed {
        DragSignal::Cancel
    } else if (key_state & MK_LBUTTON) == 0 {
        DragSignal::Drop
    } else {
        DragSignal::Continue
    }
}

/// The status that carries a signal to the desktop shell.
pub fn signal_code(signal: DragSignal) -> (code: i32)
    ensures
        code == signal_status(signal),
{
    match signal {
        DragSignal::Continue => S_OK,
        DragSignal::Drop => DRAGDROP_S_DROP,
        DragSignal::Cancel => DRAGDROP_S_CANCEL,
    }
}

/// Answers the desktop shell's offer to show feedback for a drop effect: the
/// platform's own cursors are asked for, whatever the effect.
pub fn give_feedback(effect: u32) -> (code: i32)
    ensures
        code == DRAGDROP_S_USEDEFAULTCURSORS,
{
    DRAGDROP_S_USEDEFAULTCURSORS
}

} // verus!
