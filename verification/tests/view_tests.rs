use yage::view::{
    logical_to_physical, to_physical, GeometryStep, Rect, ViewGeometry, WindowGeometry, WindowMode,
};

fn apply(w: &mut WindowGeometry, target: ViewGeometry) -> Vec<GeometryStep> {
    let steps = w.plan(target);
    for step in &steps {
        match step {
            GeometryStep::SaveWindowState => {
                w.record_saved(1, 2, Rect { left: 10, top: 20, right: 810, bottom: 620 })
            }
            GeometryStep::EnterBorderlessFullscreen | GeometryStep::EnterExclusiveFullscreen => {
                w.mark_topmost()
            }
            _ => {}
        }
    }
    w.finish(target);
    steps
}

#[test]
fn normal_resize_happens_in_place() {
    let mut w = WindowGeometry::new();
    assert_eq!(apply(&mut w, ViewGeometry::Normal(640, 480)), vec![GeometryStep::Resize(640, 480)]);
    assert_eq!(w.current_mode(), WindowMode::Normal);
    assert_eq!(w.restore(), None);
}

#[test]
fn fullscreen_round_trip_restores_the_recorded_window() {
    let mut w = WindowGeometry::new();
    assert_eq!(
        apply(&mut w, ViewGeometry::BorderlessFullscreen),
        vec![GeometryStep::SaveWindowState, GeometryStep::EnterBorderlessFullscreen]
    );
    assert!(apply(&mut w, ViewGeometry::BorderlessFullscreen).is_empty());
    assert_eq!(
        apply(&mut w, ViewGeometry::Fullscreen),
        vec![GeometryStep::LeaveBorderlessFullscreen, GeometryStep::EnterExclusiveFullscreen]
    );
    let r = w.restore().expect("recorded");
    assert_eq!((r.style, r.ex_style, r.left, r.top, r.width, r.height), (1, 2, 10, 20, 800, 600));
    assert!(r.clear_topmost);
    assert_eq!(
        apply(&mut w, ViewGeometry::Normal(1024, 768)),
        vec![GeometryStep::LeaveExclusiveFullscreen, GeometryStep::Resize(1024, 768)]
    );
    // The window stays recorded: going fullscreen again saves nothing.
    assert_eq!(apply(&mut w, ViewGeometry::Fullscreen), vec![GeometryStep::EnterExclusiveFullscreen]);
}

#[test]
fn physical_size_rounds_half_up() {
    assert_eq!(to_physical(1920, 96), 1920);
    assert_eq!(to_physical(1920, 144), 2880);
    assert_eq!(to_physical(1, 144), 2);
    assert_eq!(to_physical(1, 48), 1);
    assert_eq!(to_physical(-1, 96), 0);
    assert_eq!(logical_to_physical(120, Rect { left: 0, top: 0, right: 1280, bottom: 720 }), (1600, 900));
}
