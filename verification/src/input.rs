//! The decisions of the overlay's two system callbacks: which low-level
//! mouse events are clicks worth a ripple, and how the click-through
//! window answers its messages.

use vstd::prelude::*;

verus! {

/// The message that asks a window to tear itself down.
pub const WM_DESTROY: u32 = 2;

/// The hit-test message: which part of the window lies under a point.
pub const WM_NCHITTEST: u32 = 132;

/// The left mouse button went down.
pub const WM_LBUTTONDOWN: u32 = 513;

/// Hit-test answer: the point belongs to whatever lies beneath the window.
pub const HTTRANSPARENT: i32 = -1;

/// A low-level mouse event is a left click exactly when the hook code is
/// not negative (the event is for the hook to see) and the message, read as
/// a 32-bit identifier, is the left-button-down message.
pub open spec fn is_left_click_spec(code: i32, message: usize) -> bool {
    code >= 0 && message as u32 == WM_LBUTTONDOWN
}

/// Whether the low-level mouse event with hook code `code` and message
/// `message` is a left click to record.
pub fn is_left_click(code: i32, message: usize) -> (r: bool)
    ensures
        r == is_left_click_spec(code, message),
        r <==> (code >= 0 && message as u32 == 0x0201),
{
    code >= 0 && message as u32 == WM_LBUTTONDOWN
}

/// How the overlay window answers a message.
#[derive(Clone, Copy, Debug, PartialEq, Eq, Structural)]
pub enum WindowReply {
    /// Post the quit message and answer 0.
    Quit,
    /// Answer the hit-test with the given code, so that the window lets
    /// every click through.
    HitTest(i32),
    /// Leave the message to the default handling.
    Default,
}

/// The reply to a message: the window quits when destroyed, is transparent
/// to every hit test, and leaves all other messages to the default handling.
pub open spec fn window_reply_spec(message: u32) -> WindowReply {
    if message == WM_DESTROY {
        WindowReply::Quit
    } else if message == WM_NCHITTEST {
        WindowReply::HitTest(HTTRANSPARENT)
    } else {
        WindowReply::Default
    }
}

/// Decides how the overlay window answers `message`.
pub fn window_reply(message: u32) -> (r: WindowReply)
    ensures
        r == window_reply_spec(message),
        message == 0x0002 ==> r == WindowReply::Quit,
        message == 0x0084 ==> r == WindowReply::HitTest(-1i32),
        message != 0x0002 && message != 0x0084 ==> r == WindowReply::Default,
{
    if message == WM_DESTROY {
        WindowReply::Quit
    } else if message == WM_NCHITTEST {
        WindowReply::HitTest(HTTRANSPARENT)
    } else {
        WindowReply::Default
    }
}

/// Only the left-button-down message (0x0201 in its low 32 bits), seen with
/// a non-negative hook code, is a click: any two events that are clicks
/// carry the same message, and every other message (right or middle
/// button, button releases, moves) is none.
pub proof fn lemma_left_click_exact(code: i32, message: usize, other: usize)
    ensures
        is_left_click_spec(code, message) <==> (code >= 0 && message as u32 == 0x0201),
        is_left_click_spec(code, message) && is_left_click_spec(code, other) ==> message as u32
            == other as u32,
        message as u32 != 0x0201 ==> !is_left_click_spec(code, message),
{
}

/// The window quits on the destroy message (2), answers the hit test
/// (0x84) with the transparent code -1, and hands every other message to
/// the default handling.
pub proof fn lemma_window_reply_exact(message: u32)
    ensures
        message == 0x0002 ==> window_reply_spec(message) == WindowReply::Quit,
        message == 0x0084 ==> window_reply_spec(message) == WindowReply::HitTest(-1i32),
        message != 0x0002 && message != 0x0084 ==> window_reply_spec(message)
            == WindowReply::Default,
{
}

} // verus!
