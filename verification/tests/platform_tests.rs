use yage::events::{Event, KeyCode, MouseButton};
use yage::win32::{
    is_input, translate_win32_message, win32_tick_step, Win32Outcome, Win32Tick, WM_APP_QUIT_REQUESTED,
    WM_APP_RESIZED, WM_KEYDOWN, WM_KEYUP, WM_MBUTTONDOWN, WM_MOUSEMOVE, WM_MOUSEWHEEL, WM_RBUTTONUP,
};
use yage::renderer::{
    renderer_start, renderer_step, RendererAction, RendererEvent, RendererExit, RendererStage, WindowTick,
};
use yage::threads::proc_stat_times;
use yage::x11::{select_fb_config, translate_x_event, FbConfigInfo, GlxSelectError, XEventData, XEventOutcome};

fn fb(has_visual: bool, sample_buffers: i32, samples: i32) -> FbConfigInfo {
    FbConfigInfo { has_visual, sample_buffers, samples }
}

#[test]
fn fb_selection_refuses_old_glx_and_empty_lists() {
    assert_eq!(select_fb_config((1, 2), &vec![fb(true, 1, 4)]), Err(GlxSelectError::VersionTooLow));
    assert_eq!(select_fb_config((0, 9), &vec![fb(true, 1, 4)]), Err(GlxSelectError::VersionTooLow));
    assert_eq!(select_fb_config((1, 3), &vec![]), Err(GlxSelectError::NoConfigs));
    assert_eq!(select_fb_config((1, 4), &vec![fb(false, 1, 4)]), Err(GlxSelectError::NoVisual));
}

#[test]
fn fb_selection_prefers_most_samples_earliest_first() {
    let configs = vec![fb(false, 1, 16), fb(true, 0, 0), fb(true, 1, 4), fb(true, 1, 8), fb(true, 1, 8), fb(true, 0, 32)];
    assert_eq!(select_fb_config((1, 4), &configs), Ok(3));
    // Without a multisampled config with more samples, the first with a visual wins.
    let configs = vec![fb(true, 0, 4), fb(true, 1, 4), fb(true, 1, 2)];
    assert_eq!(select_fb_config((2, 0), &configs), Ok(0));
}

#[test]
fn x_events_translate_to_engine_events() {
    let close: XEventOutcome<f32> = translate_x_event(XEventData::ClientMessage(77), 77);
    assert!(matches!(close, XEventOutcome::Close));
    let other: XEventOutcome<f32> = translate_x_event(XEventData::ClientMessage(5), 77);
    assert!(matches!(other, XEventOutcome::Ignore));
    assert!(matches!(translate_x_event::<f32>(XEventData::Expose, 77), XEventOutcome::Ignore));
    assert!(matches!(translate_x_event::<f32>(XEventData::Other(22), 77), XEventOutcome::Ignore));
    assert!(matches!(
        translate_x_event::<f32>(XEventData::KeyPress(KeyCode::Digit(2)), 77),
        XEventOutcome::Send(Event::KeyPress(KeyCode::Digit(2)))
    ));
    assert!(matches!(
        translate_x_event::<f32>(XEventData::ButtonRelease(MouseButton::Left), 77),
        XEventOutcome::Send(Event::MouseButtonRelease(MouseButton::Left))
    ));
    match translate_x_event(XEventData::MotionNotify { x: 3.0f32, y: 4.0 }, 77) {
        XEventOutcome::Send(Event::MouseMove { x, y }) => {
            assert_eq!(x, 3.0);
            assert_eq!(y, 4.0);
        }
        _ => panic!("mouse move expected"),
    }
}

#[test]
fn renderer_frame_runs_its_steps_in_order() {
    let (mut s, a) = renderer_start();
    assert_eq!(a, RendererAction::ReadStopSignal);
    let frame = [
        (RendererEvent::StopSignal(false), RendererStage::BeforeFrame, RendererAction::WaitBeforeFrame),
        (RendererEvent::Synced(true), RendererStage::WindowTick, RendererAction::TickWindow),
        (RendererEvent::Window(WindowTick::Continue), RendererStage::GraphicsTick, RendererAction::Render),
        (RendererEvent::Rendered(true), RendererStage::AfterFrame, RendererAction::WaitAfterFrame),
        (RendererEvent::Synced(true), RendererStage::CopyObjects, RendererAction::CopyRenderables),
        (RendererEvent::Copied, RendererStage::CheckStop, RendererAction::ReadStopSignal),
    ];
    for (ev, stage, action) in frame {
        let (next, act) = renderer_step(s, ev);
        assert_eq!(next, stage);
        assert_eq!(act, action);
        s = next;
    }
}

#[test]
fn renderer_exits_with_the_right_result() {
    let done = RendererAction::Exit(RendererExit::Done);
    assert_eq!(renderer_step(RendererStage::CheckStop, RendererEvent::StopSignal(true)), (RendererStage::Finished, done));
    assert_eq!(renderer_step(RendererStage::BeforeFrame, RendererEvent::Synced(false)), (RendererStage::Finished, done));
    assert_eq!(
        renderer_step(RendererStage::WindowTick, RendererEvent::Window(WindowTick::Closed)),
        (RendererStage::Finished, done)
    );
    assert_eq!(
        renderer_step(RendererStage::WindowTick, RendererEvent::Window(WindowTick::Failed)),
        (RendererStage::Finished, RendererAction::Exit(RendererExit::WindowFailed))
    );
    assert_eq!(
        renderer_step(RendererStage::GraphicsTick, RendererEvent::Rendered(false)),
        (RendererStage::Finished, RendererAction::Exit(RendererExit::GraphicsFailed))
    );
    assert_eq!(renderer_step(RendererStage::AfterFrame, RendererEvent::Synced(false)), (RendererStage::Finished, done));
    // An outcome that does not belong to the stage asks for the step again.
    assert_eq!(
        renderer_step(RendererStage::WindowTick, RendererEvent::Copied),
        (RendererStage::WindowTick, RendererAction::TickWindow)
    );
    assert_eq!(
        renderer_step(RendererStage::Finished, RendererEvent::StopSignal(false)),
        (RendererStage::Finished, RendererAction::Idle)
    );
}

#[test]
fn proc_stat_line_gives_user_and_system_fields() {
    let line = b"1234 (worker) S 1 2 3 4 5 6 7 8 9 10 250 75 0 0 20 0 1\n";
    assert_eq!(proc_stat_times(line), Some((b"250".to_vec(), b"75".to_vec())));
    assert_eq!(proc_stat_times(b"1 2 3"), None);
    let odd = b"a  b\tc d e f g h i j k l m 1.5   -2";
    assert_eq!(proc_stat_times(odd), Some((b"1.5".to_vec(), b"-2".to_vec())));
}

#[test]
fn configure_notify_reports_the_new_size() {
    match translate_x_event::<f32>(XEventData::ConfigureNotify { width: 800, height: 600 }, 77) {
        XEventOutcome::Resize { width, height } => {
            assert_eq!(width, 800);
            assert_eq!(height, 600);
        }
        _ => panic!("resize expected"),
    }
}

#[test]
fn win32_messages_translate_to_outcomes() {
    assert_eq!(translate_win32_message(WM_APP_QUIT_REQUESTED, 0, 0), Win32Outcome::QuitRequested);
    assert_eq!(translate_win32_message(WM_KEYDOWN, 0x41, 0), Win32Outcome::KeyPress(0x41));
    assert_eq!(translate_win32_message(WM_KEYUP, 0x1_0041, 0), Win32Outcome::KeyRelease(0x41));
    assert_eq!(
        translate_win32_message(WM_MBUTTONDOWN, 0, 0),
        Win32Outcome::MouseButtonPress(MouseButton::Middle)
    );
    assert_eq!(
        translate_win32_message(WM_RBUTTONUP, 0, 0),
        Win32Outcome::MouseButtonRelease(MouseButton::Right)
    );
    assert_eq!(
        translate_win32_message(WM_MOUSEMOVE, 0, (20 << 16) | 10),
        Win32Outcome::MouseMove { x: 10, y: 20 }
    );
    assert_eq!(translate_win32_message(WM_MOUSEWHEEL, 120 << 16, 0), Win32Outcome::MouseWheel { delta: 120 });
    assert_eq!(
        translate_win32_message(WM_MOUSEWHEEL, 0xFF88_0000, 0),
        Win32Outcome::MouseWheel { delta: -120 }
    );
    assert_eq!(
        translate_win32_message(WM_APP_RESIZED, 1024, 768),
        Win32Outcome::Resize { width: 1024, height: 768 }
    );
    assert_eq!(translate_win32_message(0x000F, 0, 0), Win32Outcome::Unhandled);
}

#[test]
fn win32_tick_closes_on_quit_and_ends_on_unhandled() {
    let t = Win32Tick { closed: false, reading: true };
    let t = win32_tick_step(t, Win32Outcome::KeyPress(1));
    assert_eq!(t, Win32Tick { closed: false, reading: true });
    let t = win32_tick_step(t, Win32Outcome::QuitRequested);
    assert_eq!(t, Win32Tick { closed: true, reading: true });
    let t = win32_tick_step(t, Win32Outcome::Unhandled);
    assert_eq!(t, Win32Tick { closed: true, reading: false });
    assert!(is_input(Win32Outcome::MouseWheel { delta: 1 }));
    assert!(!is_input(Win32Outcome::QuitRequested));
    assert!(!is_input(Win32Outcome::Unhandled));
}
