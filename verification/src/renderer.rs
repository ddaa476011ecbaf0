//! The renderer thread's loop as a state machine. Each frame the thread
//! checks the stop signal, meets the logic thread before the frame, ticks
//! the window, renders, meets the logic thread after the frame and copies
//! the renderables that changed. The thread performs each action and hands
//! back what it found; this module decides what comes next and when the
//! loop ends, and with what result.

use vstd::prelude::*;

verus! {

/// Where the renderer loop stands: the step whose outcome it waits for.
#[derive(Debug, Clone, Copy, PartialEq, Eq, Structural)]
pub enum RendererStage {
    CheckStop,
    BeforeFrame,
    WindowTick,
    GraphicsTick,
    AfterFrame,
    CopyObjects,
    /// The loop has ended.
    Finished,
}

/// What a window tick reported.
#[derive(Debug, Clone, Copy, PartialEq, Eq, Structural)]
pub enum WindowTick {
    Continue,
    Closed,
    Failed,
}

/// The outcome of the step the loop waited for.
#[derive(Debug, Clone, Copy, PartialEq, Eq, Structural)]
pub enum RendererEvent {
    /// The stop signal was read; whether it is set.
    StopSignal(bool),
    /// A meeting with the logic thread ended; whether it succeeded.
    Synced(bool),
    /// The window was ticked.
    Window(WindowTick),
    /// The scene was rendered; whether it succeeded.
    Rendered(bool),
    /// The changed renderables were copied.
    Copied,
}

/// How the loop ended.
#[derive(Debug, Clone, Copy, PartialEq, Eq, Structural)]
pub enum RendererExit {
    /// Stopped, closed, or a meeting failed: no error.
    Done,
    /// The window tick failed.
    WindowFailed,
    /// Rendering failed.
    GraphicsFailed,
}

/// What the thread is to do next.
#[derive(Debug, Clone, Copy, PartialEq, Eq, Structural)]
pub enum RendererAction {
    ReadStopSignal,
    WaitBeforeFrame,
    TickWindow,
    Render,
    WaitAfterFrame,
    CopyRenderables,
    /// Set the stop signal and end with this result.
    Exit(RendererExit),
    /// Nothing: the loop has ended.
    Idle,
}

/// The action that performs a stage's step.
pub open spec fn stage_action(s: RendererStage) -> RendererAction {
    match s {
        RendererStage::CheckStop => RendererAction::ReadStopSignal,
        RendererStage::BeforeFrame => RendererAction::WaitBeforeFrame,
        RendererStage::WindowTick => RendererAction::TickWindow,
        RendererStage::GraphicsTick => RendererAction::Render,
        RendererStage::AfterFrame => RendererAction::WaitAfterFrame,
        RendererStage::CopyObjects => RendererAction::CopyRenderables,
        RendererStage::Finished => RendererAction::Idle,
    }
}

/// The next stage and action after the outcome `ev` of stage `s`'s step.
/// The loop ends, without error, when the stop signal is set, a meeting
/// with the logic thread fails or the window was closed; with an error
/// when the window tick or rendering fails. An outcome that does not
/// belong to the stage changes nothing and asks for the step again.
pub open spec fn spec_renderer_step(s: RendererStage, ev: RendererEvent) -> (RendererStage, RendererAction) {
    match (s, ev) {
        (RendererStage::CheckStop, RendererEvent::StopSignal(stop)) => if stop {
            (RendererStage::Finished, RendererAction::Exit(RendererExit::Done))
        } else {
            (RendererStage::BeforeFrame, RendererAction::WaitBeforeFrame)
        },
        (RendererStage::BeforeFrame, RendererEvent::Synced(ok)) => if ok {
            (RendererStage::WindowTick, RendererAction::TickWindow)
        } else {
            (RendererStage::Finished, RendererAction::Exit(RendererExit::Done))
        },
        (RendererStage::WindowTick, RendererEvent::Window(t)) => match t {
            WindowTick::Continue => (RendererStage::GraphicsTick, RendererAction::Render),
            WindowTick::Closed => (RendererStage::Finished, RendererAction::Exit(RendererExit::Done)),
            WindowTick::Failed => (RendererStage::Finished, RendererAction::Exit(RendererExit::WindowFailed)),
        },
        (RendererStage::GraphicsTick, RendererEvent::Rendered(ok)) => if ok {
            (RendererStage::AfterFrame, RendererAction::WaitAfterFrame)
        } else {
            (RendererStage::Finished, RendererAction::Exit(RendererExit::GraphicsFailed))
        },
        (RendererStage::AfterFrame, RendererEvent::Synced(ok)) => if ok {
            (RendererStage::CopyObjects, RendererAction::CopyRenderables)
        } else {
            (RendererStage::Finished, RendererAction::Exit(RendererExit::Done))
        },
        (RendererStage::CopyObjects, RendererEvent::Copied) => (
            RendererStage::CheckStop,
            RendererAction::ReadStopSignal,
        ),
        _ => (s, stage_action(s)),
    }
}

/// Where the loop starts: reading the stop signal.
pub fn renderer_start() -> (r: (RendererStage, RendererAction))
    ensures
        r == (RendererStage::CheckStop, RendererAction::ReadStopSignal),
{
    (RendererStage::CheckStop, RendererAction::ReadStopSignal)
}

/// One step of the renderer loop (see `spec_renderer_step`).
pub fn renderer_step(s: RendererStage, ev: RendererEvent) -> (r: (RendererStage, RendererAction))
    ensures
        r == spec_renderer_step(s, ev),
{
    match (s, ev) {
        (RendererStage::CheckStop, RendererEvent::StopSignal(stop)) => if stop {
            (RendererStage::Finished, RendererAction::Exit(RendererExit::Done))
        } else {
            (RendererStage::BeforeFrame, RendererAction::WaitBeforeFrame)
        },
        (RendererStage::BeforeFrame, RendererEvent::Synced(ok)) => if ok {
            (RendererStage::WindowTick, RendererAction::TickWindow)
        } else {
            (RendererStage::Finished, RendererAction::Exit(RendererExit::Done))
        },
        (RendererStage::WindowTick, RendererEvent::Window(t)) => match t {
            WindowTick::Continue => (RendererStage::GraphicsTick, RendererAction::Render),
            WindowTick::Closed => (RendererStage::Finished, RendererAction::Exit(RendererExit::Done)),
            WindowTick::Failed => (RendererStage::Finished, RendererAction::Exit(RendererExit::WindowFailed)),
        },
        (RendererStage::GraphicsTick, RendererEvent::Rendered(ok)) => if ok {
            (RendererStage::AfterFrame, RendererAction::WaitAfterFrame)
        } else {
            (RendererStage::Finished, RendererAction::Exit(RendererExit::GraphicsFailed))
        },
        (RendererStage::AfterFrame, RendererEvent::Synced(ok)) => if ok {
            (RendererStage::CopyObjects, RendererAction::CopyRenderables)
        } else {
            (RendererStage::Finished, RendererAction::Exit(RendererExit::Done))
        },
        (RendererStage::CopyObjects, RendererEvent::Copied) => (
            RendererStage::CheckStop,
            RendererAction::ReadStopSignal,
        ),
        _ => (s, stage_action_exec(s)),
    }
}

fn stage_action_exec(s: RendererStage) -> (r: RendererAction)
    ensures
        r == stage_action(s),
{
    match s {
        RendererStage::CheckStop => RendererAction::ReadStopSignal,
        RendererStage::BeforeFrame => RendererAction::WaitBeforeFrame,
        RendererStage::WindowTick => RendererAction::TickWindow,
        RendererStage::GraphicsTick => RendererAction::Render,
        RendererStage::AfterFrame => RendererAction::WaitAfterFrame,
        RendererStage::CopyObjects => RendererAction::CopyRenderables,
        RendererStage::Finished => RendererAction::Idle,
    }
}

/// The loop ends exactly when it says so: every step that exits moves to
/// the finished stage and every step into it exits (unless it was already
/// there); an error exit comes only from a failed window tick or a failed
/// rendering; once finished, the loop stays finished and does nothing.
pub proof fn law_renderer_exits(s: RendererStage, ev: RendererEvent)
    ensures
        spec_renderer_step(s, ev).1 is Exit ==> spec_renderer_step(s, ev).0 == RendererStage::Finished,
        spec_renderer_step(s, ev).0 == RendererStage::Finished && s != RendererStage::Finished
            ==> spec_renderer_step(s, ev).1 is Exit,
        spec_renderer_step(s, ev).1 == RendererAction::Exit(RendererExit::WindowFailed) <==> (s
            == RendererStage::WindowTick && ev == RendererEvent::Window(WindowTick::Failed)),
        spec_renderer_step(s, ev).1 == RendererAction::Exit(RendererExit::GraphicsFailed) <==> (s
            == RendererStage::GraphicsTick && ev == RendererEvent::Rendered(false)),
        s == RendererStage::Finished ==> spec_renderer_step(s, ev) == (
            RendererStage::Finished,
            RendererAction::Idle,
        ),
{
}

} // verus!
