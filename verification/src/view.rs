//! The decisions of a desktop window's geometry changes: which steps take
//! the window from its current mode to the requested one, what is saved to
//! restore it later, and the arithmetic of physical sizes. The platform
//! layer performs each step and reports what it read back.

use vstd::prelude::*;

verus! {

/// How the window is shown.
#[derive(Debug, Clone, Copy, PartialEq, Eq, Structural)]
pub enum WindowMode {
    Normal,
    BorderlessFullscreen,
    FullscreenExclusive,
}

/// What the window is asked to become.
#[derive(Debug, Clone, Copy, PartialEq, Eq, Structural)]
pub enum ViewGeometry {
    /// A normal window of this width and height.
    Normal(u32, u32),
    /// A borderless window covering the monitor.
    BorderlessFullscreen,
    /// Exclusive fullscreen in the monitor's current display mode.
    Fullscreen,
}

/// One step of a geometry change; the steps are performed in order.
#[derive(Debug, Clone, Copy, PartialEq, Eq, Structural)]
pub enum GeometryStep {
    /// Resize the window in place.
    Resize(u32, u32),
    /// Read the window's styles and rectangle and record them (see
    /// `WindowGeometry::record_saved`).
    SaveWindowState,
    /// Restore the recorded window (see `WindowGeometry::restore`).
    LeaveBorderlessFullscreen,
    /// Restore the display mode, then the recorded window.
    LeaveExclusiveFullscreen,
    /// Make the window a topmost popup covering the monitor.
    EnterBorderlessFullscreen,
    /// Switch the display mode and cover the monitor.
    EnterExclusiveFullscreen,
}

/// A rectangle in screen coordinates.
#[derive(Debug, Clone, Copy, PartialEq, Eq, Structural)]
pub struct Rect {
    pub left: i32,
    pub top: i32,
    pub right: i32,
    pub bottom: i32,
}

/// The normal window, as recorded before it first left the normal mode.
#[derive(Debug, Clone, Copy, PartialEq, Eq, Structural)]
pub struct SavedWindowState {
    pub style: isize,
    pub ex_style: isize,
    pub rect: Rect,
    /// Whether fullscreen made the window topmost.
    pub injected_topmost: bool,
}

/// How to put the recorded window back.
#[derive(Debug, Clone, Copy, PartialEq, Eq, Structural)]
pub struct Restore {
    pub style: isize,
    pub ex_style: isize,
    pub left: i32,
    pub top: i32,
    pub width: i32,
    pub height: i32,
    /// Whether to clear the topmost flag fullscreen set.
    pub clear_topmost: bool,
}

/// The steps from `mode` to `target`; `saved` says whether a normal
/// window was recorded already. Asking for the current fullscreen mode
/// does nothing; a normal size is applied in place after leaving
/// fullscreen; the normal window is recorded once, before it first leaves
/// the normal mode.
pub open spec fn spec_geometry_steps(mode: WindowMode, saved: bool, target: ViewGeometry) -> Seq<
    GeometryStep,
> {
    let save = if mode == WindowMode::Normal && !saved {
        seq![GeometryStep::SaveWindowState]
    } else {
        Seq::empty()
    };
    match target {
        ViewGeometry::Normal(w, h) => match mode {
            WindowMode::Normal => seq![GeometryStep::Resize(w, h)],
            WindowMode::BorderlessFullscreen => seq![
                GeometryStep::LeaveBorderlessFullscreen,
                GeometryStep::Resize(w, h),
            ],
            WindowMode::FullscreenExclusive => seq![
                GeometryStep::LeaveExclusiveFullscreen,
                GeometryStep::Resize(w, h),
            ],
        },
        ViewGeometry::BorderlessFullscreen => match mode {
            WindowMode::BorderlessFullscreen => Seq::empty(),
            WindowMode::FullscreenExclusive => save + seq![
                GeometryStep::LeaveExclusiveFullscreen,
                GeometryStep::EnterBorderlessFullscreen,
            ],
            WindowMode::Normal => save + seq![GeometryStep::EnterBorderlessFullscreen],
        },
        ViewGeometry::Fullscreen => match mode {
            WindowMode::FullscreenExclusive => Seq::empty(),
            WindowMode::BorderlessFullscreen => save + seq![
                GeometryStep::LeaveBorderlessFullscreen,
                GeometryStep::EnterExclusiveFullscreen,
            ],
            WindowMode::Normal => save + seq![GeometryStep::EnterExclusiveFullscreen],
        },
    }
}

/// The mode a geometry request ends in.
pub open spec fn spec_mode_for(target: ViewGeometry) -> WindowMode {
    match target {
        ViewGeometry::Normal(_, _) => WindowMode::Normal,
        ViewGeometry::BorderlessFullscreen => WindowMode::BorderlessFullscreen,
        ViewGeometry::Fullscreen => WindowMode::FullscreenExclusive,
    }
}

/// Integer division by 96 rounding toward zero.
pub open spec fn div96_toward_zero(n: int) -> int {
    if n >= 0 {
        n / 96
    } else {
        -((-n) / 96)
    }
}

/// A logical length at `dpi` dots per inch in physical pixels, rounded half
/// up from the 96-dpi logical unit.
pub open spec fn spec_to_physical(length: int, dpi: int) -> int {
    div96_toward_zero(length * dpi + 48)
}

/// Whether the arithmetic of `to_physical` stays within 32 bits.
pub open spec fn physical_fits(length: int, dpi: int) -> bool {
    i32::MIN <= length * dpi + 48 <= i32::MAX
}

/// A logical length in physical pixels (see `spec_to_physical`).
pub fn to_physical(length: i32, dpi: i32) -> (r: i32)
    requires
        physical_fits(length as int, dpi as int),
    ensures
        r == spec_to_physical(length as int, dpi as int),
{
    let n: i64 = (length as i64) * (dpi as i64) + 48;
    let q: i64 = if n >= 0 {
        n / 96
    } else {
        -((-n) / 96)
    };
    q as i32
}

/// A monitor rectangle given in logical units, in physical pixels: its
/// width and height.
pub fn logical_to_physical(dpi: i32, rect: Rect) -> (r: (i32, i32))
    requires
        i32::MIN <= rect.right - rect.left <= i32::MAX,
        i32::MIN <= rect.bottom - rect.top <= i32::MAX,
        physical_fits(rect.right - rect.left, dpi as int),
        physical_fits(rect.bottom - rect.top, dpi as int),
    ensures
        r.0 == spec_to_physical(rect.right - rect.left, dpi as int),
        r.1 == spec_to_physical(rect.bottom - rect.top, dpi as int),
{
    let w_log = rect.right - rect.left;
    let h_log = rect.bottom - rect.top;
    (to_physical(w_log, dpi), to_physical(h_log, dpi))
}

/// A window's mode and its recorded normal state.
#[derive(Debug)]
pub struct WindowGeometry {
    mode: WindowMode,
    saved: Option<SavedWindowState>,
}

impl WindowGeometry {
    pub closed spec fn mode(&self) -> WindowMode {
        self.mode
    }

    pub closed spec fn saved(&self) -> Option<SavedWindowState> {
        self.saved
    }

    /// A normal window with nothing recorded.
    pub fn new() -> (r: WindowGeometry)
        ensures
            r.mode() == WindowMode::Normal,
            r.saved() is None,
    {
        WindowGeometry { mode: WindowMode::Normal, saved: None }
    }

    pub fn current_mode(&self) -> (r: WindowMode)
        ensures
            r == self.mode(),
    {
        self.mode
    }

    /// The steps that take the window to `target` (see
    /// `spec_geometry_steps`).
    pub fn plan(&self, target: ViewGeometry) -> (r: Vec<GeometryStep>)
        ensures
            r@ == spec_geometry_steps(self.mode(), self.saved() is Some, target),
    {
        let mut steps: Vec<GeometryStep> = Vec::new();
        let save = self.mode == WindowMode::Normal && self.saved.is_none();
        match target {
            ViewGeometry::Normal(w, h) => {
                match self.mode {
                    WindowMode::Normal => {},
                    WindowMode::BorderlessFullscreen => steps.push(
                        GeometryStep::LeaveBorderlessFullscreen,
                    ),
                    WindowMode::FullscreenExclusive => steps.push(
                        GeometryStep::LeaveExclusiveFullscreen,
                    ),
                }
                steps.push(GeometryStep::Resize(w, h));
            },
            ViewGeometry::BorderlessFullscreen => {
                if self.mode != WindowMode::BorderlessFullscreen {
                    if save {
                        steps.push(GeometryStep::SaveWindowState);
                    }
                    if self.mode == WindowMode::FullscreenExclusive {
                        steps.push(GeometryStep::LeaveExclusiveFullscreen);
                    }
                    steps.push(GeometryStep::EnterBorderlessFullscreen);
                }
            },
            ViewGeometry::Fullscreen => {
                if self.mode != WindowMode::FullscreenExclusive {
                    if save {
                        steps.push(GeometryStep::SaveWindowState);
                    }
                    if self.mode == WindowMode::BorderlessFullscreen {
                        steps.push(GeometryStep::LeaveBorderlessFullscreen);
                    }
                    steps.push(GeometryStep::EnterExclusiveFullscreen);
                }
            },
        }
        proof {
            let s = spec_geometry_steps(self.mode(), self.saved() is Some, target);
            assert(steps@ =~= s);
        }
        steps
    }

    /// Records the normal window the platform read for a
    /// `SaveWindowState` step; a window recorded before, or a window not
    /// in the normal mode, is not recorded again.
    pub fn record_saved(&mut self, style: isize, ex_style: isize, rect: Rect)
        ensures
            final(self).mode() == old(self).mode(),
            final(self).saved() == (if old(self).mode() == WindowMode::Normal && old(self).saved() is None {
                Some(SavedWindowState { style, ex_style, rect, injected_topmost: false })
            } else {
                old(self).saved()
            }),
    {
        if self.mode == WindowMode::Normal && self.saved.is_none() {
            self.saved = Some(SavedWindowState { style, ex_style, rect, injected_topmost: false });
        }
    }

    /// Notes that entering fullscreen made the window topmost.
    pub fn mark_topmost(&mut self)
        ensures
            final(self).mode() == old(self).mode(),
            final(self).saved() == (match old(self).saved() {
                Some(s) => Some(SavedWindowState { injected_topmost: true, ..s }),
                None => None,
            }),
    {
        if let Some(s) = self.saved {
            self.saved = Some(SavedWindowState { injected_topmost: true, ..s });
        }
    }

    /// How to put the recorded window back when leaving fullscreen, if one
    /// was recorded.
    pub fn restore(&self) -> (r: Option<Restore>)
        requires
            self.saved() matches Some(s) ==> i32::MIN <= s.rect.right - s.rect.left <= i32::MAX
                && i32::MIN <= s.rect.bottom - s.rect.top <= i32::MAX,
        ensures
            match self.saved() {
                None => r is None,
                Some(s) => r == Some(
                    Restore {
                        style: s.style,
                        ex_style: s.ex_style,
                        left: s.rect.left,
                        top: s.rect.top,
                        width: (s.rect.right - s.rect.left) as i32,
                        height: (s.rect.bottom - s.rect.top) as i32,
                        clear_topmost: s.injected_topmost,
                    },
                ),
            },
    {
        match self.saved {
            Some(s) => Some(
                Restore {
                    style: s.style,
                    ex_style: s.ex_style,
                    left: s.rect.left,
                    top: s.rect.top,
                    width: s.rect.right - s.rect.left,
                    height: s.rect.bottom - s.rect.top,
                    clear_topmost: s.injected_topmost,
                },
            ),
            None => None,
        }
    }

    /// Notes the mode a geometry request ended in.
    pub fn finish(&mut self, target: ViewGeometry)
        ensures
            final(self).mode() == spec_mode_for(target),
            final(self).saved() == old(self).saved(),
    {
        self.mode = match target {
            ViewGeometry::Normal(_, _) => WindowMode::Normal,
            ViewGeometry::BorderlessFullscreen => WindowMode::BorderlessFullscreen,
            ViewGeometry::Fullscreen => WindowMode::FullscreenExclusive,
        };
    }
}

/// Asking twice for the same geometry does nothing the second time when
/// it is a fullscreen mode, and only resizes in place when it is a normal
/// size.
pub proof fn law_geometry_idempotent(saved: bool, target: ViewGeometry)
    ensures
        spec_geometry_steps(spec_mode_for(target), saved, target) == (match target {
            ViewGeometry::Normal(w, h) => seq![GeometryStep::Resize(w, h)],
            _ => Seq::<GeometryStep>::empty(),
        }),
{
}

/// The normal window is recorded only while the window is normal and
/// nothing is recorded yet; every plan ends by entering the requested
/// fullscreen mode or by resizing the window.
pub proof fn law_plans_end_in_target(mode: WindowMode, saved: bool, target: ViewGeometry)
    ensures
        spec_geometry_steps(mode, saved, target).contains(GeometryStep::SaveWindowState) ==> mode
            == WindowMode::Normal && !saved,
        spec_geometry_steps(mode, saved, target).len() > 0 ==> spec_geometry_steps(mode, saved, target).last()
            == (match target {
            ViewGeometry::Normal(w, h) => GeometryStep::Resize(w, h),
            ViewGeometry::BorderlessFullscreen => GeometryStep::EnterBorderlessFullscreen,
            ViewGeometry::Fullscreen => GeometryStep::EnterExclusiveFullscreen,
        }),
        spec_geometry_steps(mode, saved, target).len() == 0 ==> mode == spec_mode_for(target),
{
    let s = spec_geometry_steps(mode, saved, target);
    if s.contains(GeometryStep::SaveWindowState) {
        let i = choose|i: int| 0 <= i < s.len() && s[i] == GeometryStep::SaveWindowState;
        assert(s[i] == GeometryStep::SaveWindowState);
    }
}

/// A plan out of a fullscreen mode first leaves that mode, and a plan
/// never leaves a mode the window is not in: from borderless fullscreen to
/// anything else, the first step leaves borderless fullscreen; from
/// exclusive fullscreen to anything else, the first step leaves exclusive
/// fullscreen.
pub proof fn law_plans_leave_current_mode(mode: WindowMode, saved: bool, target: ViewGeometry)
    ensures
        mode == WindowMode::BorderlessFullscreen && !(target is BorderlessFullscreen) ==> spec_geometry_steps(
            mode,
            saved,
            target,
        ).len() > 0 && spec_geometry_steps(mode, saved, target)[0] == GeometryStep::LeaveBorderlessFullscreen,
        mode == WindowMode::FullscreenExclusive && !(target is Fullscreen) ==> spec_geometry_steps(
            mode,
            saved,
            target,
        ).len() > 0 && spec_geometry_steps(mode, saved, target)[0] == GeometryStep::LeaveExclusiveFullscreen,
        spec_geometry_steps(mode, saved, target).contains(GeometryStep::LeaveBorderlessFullscreen) ==> mode
            == WindowMode::BorderlessFullscreen,
        spec_geometry_steps(mode, saved, target).contains(GeometryStep::LeaveExclusiveFullscreen) ==> mode
            == WindowMode::FullscreenExclusive,
{
    let s = spec_geometry_steps(mode, saved, target);
    if mode != WindowMode::Normal {
        assert(!(mode == WindowMode::Normal && !saved));
    }
    if s.contains(GeometryStep::LeaveBorderlessFullscreen) {
        let i = choose|i: int| 0 <= i < s.len() && s[i] == GeometryStep::LeaveBorderlessFullscreen;
        assert(s[i] == GeometryStep::LeaveBorderlessFullscreen);
    }
    if s.contains(GeometryStep::LeaveExclusiveFullscreen) {
        let i = choose|i: int| 0 <= i < s.len() && s[i] == GeometryStep::LeaveExclusiveFullscreen;
        assert(s[i] == GeometryStep::LeaveExclusiveFullscreen);
    }
}

} // verus!
