use fool_engine::engine_loop::{EngineLoop, EventPlan};
use fool_engine::frame::{FrameScheduler, RedrawDecision};

fn engine() -> EngineLoop {
    EngineLoop::new(FrameScheduler::new(10, 0), "/home/u/Pictures/Fool/shots".to_string())
}

#[test]
fn events_of_a_running_engine() {
    let e = engine();
    assert_eq!(e.event_plan(false, false), EventPlan { ask_exit_callback: false, run_frame: false, record: true });
    assert_eq!(e.event_plan(true, false), EventPlan { ask_exit_callback: true, run_frame: false, record: true });
    assert_eq!(e.event_plan(false, true), EventPlan { ask_exit_callback: false, run_frame: true, record: true });
}

#[test]
fn stopped_engine_ignores_everything() {
    let mut e = engine();
    e.stop();
    assert_eq!(e.event_plan(true, true), EventPlan { ask_exit_callback: false, run_frame: false, record: false });
    assert_eq!(e.update(1000), RedrawDecision { redraw: false, wait_until: None });
}

#[test]
fn exit_callback_answer() {
    let e = engine();
    assert!(e.close_after_callback(Some(true)));
    assert!(!e.close_after_callback(Some(false)));
    assert!(!e.close_after_callback(None));
}

#[test]
fn captures_are_taken_in_order() {
    let mut e = engine();
    assert_eq!(e.take_capture(), None);
    e.request_capture("a.png");
    e.request_capture("b.png");
    assert_eq!(e.take_capture(), Some("/home/u/Pictures/Fool/shots/a.png".to_string()));
    assert_eq!(e.take_capture(), Some("/home/u/Pictures/Fool/shots/b.png".to_string()));
    assert_eq!(e.take_capture(), None);
}

#[test]
fn update_asks_the_scheduler() {
    let mut e = engine();
    assert!(!e.update(5).redraw);
    assert!(e.update(25).redraw);
    assert_eq!(e.scheduler.frame_id.id(), 2);
}
