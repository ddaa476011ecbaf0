//! The meaning of the messages a Win32 window's message loop reads, and
//! when one tick of that loop ends. The platform layer pumps the messages
//! and converts virtual key codes; this module decides what each message
//! means.

use vstd::prelude::*;
use crate::events::MouseButton;

verus! {

/// `WM_KEYDOWN`.
pub const WM_KEYDOWN: u32 = 0x0100;
/// `WM_KEYUP`.
pub const WM_KEYUP: u32 = 0x0101;
/// `WM_MOUSEMOVE`.
pub const WM_MOUSEMOVE: u32 = 0x0200;
/// `WM_LBUTTONDOWN`.
pub const WM_LBUTTONDOWN: u32 = 0x0201;
/// `WM_LBUTTONUP`.
pub const WM_LBUTTONUP: u32 = 0x0202;
/// `WM_RBUTTONDOWN`.
pub const WM_RBUTTONDOWN: u32 = 0x0204;
/// `WM_RBUTTONUP`.
pub const WM_RBUTTONUP: u32 = 0x0205;
/// `WM_MBUTTONDOWN`.
pub const WM_MBUTTONDOWN: u32 = 0x0207;
/// `WM_MBUTTONUP`.
pub const WM_MBUTTONUP: u32 = 0x0208;
/// `WM_MOUSEWHEEL`.
pub const WM_MOUSEWHEEL: u32 = 0x020A;
/// The window asks the application to quit (`WM_APP + 1`, posted by the
/// window procedure on `WM_CLOSE`).
pub const WM_APP_QUIT_REQUESTED: u32 = 0x8001;
/// The window was resized (`WM_APP + 2`, posted by the window procedure
/// with the width in `wparam` and the height in `lparam`).
pub const WM_APP_RESIZED: u32 = 0x8002;

/// What a window message means to the engine.
#[derive(Debug, Clone, Copy, PartialEq, Eq, Structural)]
pub enum Win32Outcome {
    /// The window is asked to close; the tick goes on.
    QuitRequested,
    /// A key went down; its virtual key code.
    KeyPress(u16),
    /// A key went up; its virtual key code.
    KeyRelease(u16),
    MouseButtonPress(MouseButton),
    MouseButtonRelease(MouseButton),
    /// The pointer moved to these client coordinates.
    MouseMove { x: i32, y: i32 },
    /// The wheel turned by this many units (120 to a notch).
    MouseWheel { delta: i32 },
    /// The window now has this size.
    Resize { width: usize, height: usize },
    /// A message the engine does not handle: it ends the tick.
    Unhandled,
}

/// The meaning of message `msg` with parameters `wparam` and `lparam`:
/// the key messages carry the virtual key in the low 16 bits of `wparam`;
/// a pointer move carries x in the low 16 bits of `lparam` and y in the
/// bits above; the wheel delta is the high half of the low 32 bits of
/// `wparam`; a resize carries the width in `wparam` and the height in
/// `lparam`, each taken as a 32-bit count.
pub open spec fn win32_outcome(msg: u32, wparam: u64, lparam: i64) -> Win32Outcome {
    if msg == WM_APP_QUIT_REQUESTED {
        Win32Outcome::QuitRequested
    } else if msg == WM_KEYDOWN {
        Win32Outcome::KeyPress(wparam as u16)
    } else if msg == WM_KEYUP {
        Win32Outcome::KeyRelease(wparam as u16)
    } else if msg == WM_LBUTTONDOWN {
        Win32Outcome::MouseButtonPress(MouseButton::Left)
    } else if msg == WM_LBUTTONUP {
        Win32Outcome::MouseButtonRelease(MouseButton::Left)
    } else if msg == WM_MBUTTONDOWN {
        Win32Outcome::MouseButtonPress(MouseButton::Middle)
    } else if msg == WM_MBUTTONUP {
        Win32Outcome::MouseButtonRelease(MouseButton::Middle)
    } else if msg == WM_RBUTTONDOWN {
        Win32Outcome::MouseButtonPress(MouseButton::Right)
    } else if msg == WM_RBUTTONUP {
        Win32Outcome::MouseButtonRelease(MouseButton::Right)
    } else if msg == WM_MOUSEMOVE {
        Win32Outcome::MouseMove { x: (lparam as i32) & 0xFFFF, y: (lparam >> 16u64) as i32 }
    } else if msg == WM_MOUSEWHEEL {
        Win32Outcome::MouseWheel { delta: (wparam as i32) >> 16u64 }
    } else if msg == WM_APP_RESIZED {
        Win32Outcome::Resize { width: (wparam as u32) as usize, height: (lparam as u32) as usize }
    } else {
        Win32Outcome::Unhandled
    }
}

/// Translates one window message (see `win32_outcome`).
pub fn translate_win32_message(msg: u32, wparam: u64, lparam: i64) -> (r: Win32Outcome)
    ensures
        r == win32_outcome(msg, wparam, lparam),
{
    if msg == WM_APP_QUIT_REQUESTED {
        Win32Outcome::QuitRequested
    } else if msg == WM_KEYDOWN {
        Win32Outcome::KeyPress(wparam as u16)
    } else if msg == WM_KEYUP {
        Win32Outcome::KeyRelease(wparam as u16)
    } else if msg == WM_LBUTTONDOWN {
        Win32Outcome::MouseButtonPress(MouseButton::Left)
    } else if msg == WM_LBUTTONUP {
        Win32Outcome::MouseButtonRelease(MouseButton::Left)
    } else if msg == WM_MBUTTONDOWN {
        Win32Outcome::MouseButtonPress(MouseButton::Middle)
    } else if msg == WM_MBUTTONUP {
        Win32Outcome::MouseButtonRelease(MouseButton::Middle)
    } else if msg == WM_RBUTTONDOWN {
        Win32Outcome::MouseButtonPress(MouseButton::Right)
    } else if msg == WM_RBUTTONUP {
        Win32Outcome::MouseButtonRelease(MouseButton::Right)
    } else if msg == WM_MOUSEMOVE {
        Win32Outcome::MouseMove { x: (lparam as i32) & 0xFFFF, y: (lparam >> 16u64) as i32 }
    } else if msg == WM_MOUSEWHEEL {
        Win32Outcome::MouseWheel { delta: (wparam as i32) >> 16u64 }
    } else if msg == WM_APP_RESIZED {
        Win32Outcome::Resize { width: (wparam as u32) as usize, height: (lparam as u32) as usize }
    } else {
        Win32Outcome::Unhandled
    }
}

/// The state of one tick of the message loop: whether a quit was asked
/// for, and whether the tick goes on reading messages.
#[derive(Debug, Clone, Copy, PartialEq, Eq, Structural)]
pub struct Win32Tick {
    pub closed: bool,
    pub reading: bool,
}

/// The tick after one more message: a quit request marks the window
/// closed, an unhandled message ends the tick, and anything else is sent
/// on as an input event while the tick goes on.
pub open spec fn spec_win32_tick_step(t: Win32Tick, outcome: Win32Outcome) -> Win32Tick {
    match outcome {
        Win32Outcome::QuitRequested => Win32Tick { closed: true, reading: t.reading },
        Win32Outcome::Unhandled => Win32Tick { closed: t.closed, reading: false },
        _ => t,
    }
}

/// The tick after one more message (see `spec_win32_tick_step`).
pub fn win32_tick_step(t: Win32Tick, outcome: Win32Outcome) -> (r: Win32Tick)
    ensures
        r == spec_win32_tick_step(t, outcome),
{
    match outcome {
        Win32Outcome::QuitRequested => Win32Tick { closed: true, reading: t.reading },
        Win32Outcome::Unhandled => Win32Tick { closed: t.closed, reading: false },
        _ => t,
    }
}

/// Whether a message is sent on to the objects as an input event: every
/// message but a quit request and an unhandled one.
pub fn is_input(outcome: Win32Outcome) -> (r: bool)
    ensures
        r == !(outcome is QuitRequested || outcome is Unhandled),
{
    match outcome {
        Win32Outcome::QuitRequested | Win32Outcome::Unhandled => false,
        _ => true,
    }
}

/// Once a quit was asked for, the tick reports the window closed however
/// it goes on; and a tick that stopped reading stays stopped.
pub proof fn law_win32_tick(t: Win32Tick, outcome: Win32Outcome)
    ensures
        t.closed ==> spec_win32_tick_step(t, outcome).closed,
        !t.reading ==> !spec_win32_tick_step(t, outcome).reading,
        spec_win32_tick_step(t, outcome).closed <==> (t.closed || outcome is QuitRequested),
{
}

/// Key and button messages keep what they are: a key going down is a key
/// press and going up a key release, of the virtual key in the low 16
/// bits of `wparam`; each button's down and up messages press and release
/// that button; a resize reports the size it carries; only the quit
/// request asks to close.
pub proof fn law_win32_input_kept(wparam: u64, lparam: i64)
    ensures
        win32_outcome(WM_KEYDOWN, wparam, lparam) == Win32Outcome::KeyPress(wparam as u16),
        win32_outcome(WM_KEYUP, wparam, lparam) == Win32Outcome::KeyRelease(wparam as u16),
        win32_outcome(WM_LBUTTONDOWN, wparam, lparam) == Win32Outcome::MouseButtonPress(MouseButton::Left),
        win32_outcome(WM_LBUTTONUP, wparam, lparam) == Win32Outcome::MouseButtonRelease(MouseButton::Left),
        win32_outcome(WM_RBUTTONDOWN, wparam, lparam) == Win32Outcome::MouseButtonPress(MouseButton::Right),
        win32_outcome(WM_RBUTTONUP, wparam, lparam) == Win32Outcome::MouseButtonRelease(MouseButton::Right),
        win32_outcome(WM_MBUTTONDOWN, wparam, lparam) == Win32Outcome::MouseButtonPress(MouseButton::Middle),
        win32_outcome(WM_MBUTTONUP, wparam, lparam) == Win32Outcome::MouseButtonRelease(
            MouseButton::Middle,
        ),
        win32_outcome(WM_APP_RESIZED, wparam, lparam) == (Win32Outcome::Resize {
            width: (wparam as u32) as usize,
            height: (lparam as u32) as usize,
        }),
        forall|msg: u32| #[trigger] win32_outcome(msg, wparam, lparam) is QuitRequested <==> msg == WM_APP_QUIT_REQUESTED,
{
}

} // verus!
