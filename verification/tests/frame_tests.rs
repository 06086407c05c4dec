use fool_engine::frame::{FrameID, FrameScheduler, RedrawDecision, Scheduler};
use std::time::{Duration, Instant};
use fool_engine::status::{EngineStatus, FrameScript};

#[test]
fn frame_id_counts_from_zero() {
    let mut f = FrameID::new();
    assert_eq!(f.id(), 0);
    f.advance(Instant::now());
    f.advance(Instant::now());
    assert_eq!(f.id(), 2);
}

#[test]
fn frame_id_from_number() {
    let f = FrameID::from_id(41);
    assert_eq!(f.id(), 41);
}

#[test]
fn frame_id_add_wraps() {
    let mut f = FrameID::from_id(u64::MAX - 1);
    f.add_frames(3);
    assert_eq!(f.id(), 1);
    let mut g = FrameID::from_id(10);
    g.add_frames(5);
    assert_eq!(g.id(), 15);
}

#[test]
fn frame_scheduler_first_frame_one_interval_away() {
    let s = FrameScheduler::new(10, 100);
    assert_eq!(s.next_frame_time, 110);
    assert!(s.running);
    assert_eq!(s.frame_id.id(), 0);
}

#[test]
fn frame_scheduler_not_due_yet() {
    let mut s = FrameScheduler::new(10, 0);
    let d = s.trigger_redraw(9);
    assert_eq!(d, RedrawDecision { redraw: false, wait_until: Some(10) });
    assert_eq!(s.frame_id.id(), 0);
    assert_eq!(s.next_frame_time, 10);
}

#[test]
fn frame_scheduler_counts_every_due_frame() {
    let mut s = FrameScheduler::new(10, 0);
    // frames due at 10, 20 and 30 have all begun at 35
    let d = s.trigger_redraw(35);
    assert_eq!(d, RedrawDecision { redraw: true, wait_until: Some(40) });
    assert_eq!(s.frame_id.id(), 3);
    assert_eq!(s.next_frame_time, 40);
}

#[test]
fn frame_scheduler_due_exactly_now() {
    let mut s = FrameScheduler::new(10, 0);
    let d = s.trigger_redraw(10);
    assert_eq!(d, RedrawDecision { redraw: true, wait_until: Some(20) });
    assert_eq!(s.frame_id.id(), 1);
}

#[test]
fn frame_scheduler_second_check_finds_nothing() {
    let mut s = FrameScheduler::new(10, 0);
    assert!(s.trigger_redraw(57).redraw);
    let before = s.frame_id.id();
    let d = s.trigger_redraw(57);
    assert!(!d.redraw);
    assert_eq!(s.frame_id.id(), before);
    assert_eq!(d.wait_until, Some(60));
}

#[test]
fn frame_scheduler_paused_does_nothing() {
    let mut s = FrameScheduler::new(10, 0);
    s.pause();
    assert!(!s.running);
    let d = s.trigger_redraw(1000);
    assert_eq!(d, RedrawDecision { redraw: false, wait_until: None });
    assert_eq!(s.frame_id.id(), 0);
    assert_eq!(s.next_frame_time, 10);
}

#[test]
fn frame_scheduler_resume_restarts_timing() {
    let mut s = FrameScheduler::new(10, 0);
    s.pause();
    s.resume(500);
    assert!(s.running);
    assert_eq!(s.next_frame_time, 510);
    assert_eq!(s.frame_id.id(), 0);
    // resuming a running scheduler changes nothing
    s.resume(900);
    assert_eq!(s.next_frame_time, 510);
}

#[test]
fn frame_scheduler_set_fps_and_reset() {
    let mut s = FrameScheduler::new(10, 0);
    s.set_fps(25, 100);
    assert_eq!(s.frame_interval, 25);
    assert_eq!(s.next_frame_time, 125);
    s.advance();
    assert_eq!(s.next_frame_time, 150);
    s.reset(300);
    assert_eq!(s.next_frame_time, 325);
}

#[test]
fn scheduler_redraws_when_due() {
    let mut s = Scheduler::new(16, 0);
    assert_eq!(s.next_frame_time, 16);
    let d = s.trigger_redraw(10);
    assert_eq!(d, RedrawDecision { redraw: false, wait_until: Some(16) });
    let d = s.trigger_redraw(40);
    assert_eq!(d, RedrawDecision { redraw: true, wait_until: Some(56) });
    assert_eq!(s.next_frame_time, 56);
}

#[test]
fn scheduler_waits_a_millisecond_when_next_is_not_ahead() {
    let mut s = Scheduler::new(0, 5);
    let d = s.trigger_redraw(5);
    assert!(d.redraw);
    assert_eq!(d.wait_until, Some(5 + 1_000_000));
}

#[test]
fn scheduler_advance_and_reset() {
    let mut s = Scheduler::new(10, 0);
    s.advance(100);
    assert_eq!(s.next_frame_time, 110);
    s.reset(7);
    assert_eq!(s.next_frame_time, 17);
}

#[test]
fn engine_status_queries() {
    assert!(EngineStatus::Init.init());
    assert!(!EngineStatus::Init.running());
    assert!(EngineStatus::Running.running());
    assert!(EngineStatus::Pause.pause());
    assert!(EngineStatus::Exiting.exiting());
    assert!(!EngineStatus::Exiting.pause());
}

#[test]
fn frame_script_by_status() {
    use_frame_script();
}

fn use_frame_script() {
    assert_eq!(EngineStatus::Pause.frame_script(), FrameScript::Pause);
    assert_eq!(EngineStatus::Exiting.frame_script(), FrameScript::Exit);
    assert_eq!(EngineStatus::Running.frame_script(), FrameScript::Run);
    assert_eq!(EngineStatus::Init.frame_script(), FrameScript::Run);
}

#[test]
fn checking_often_counts_the_same_frames() {
    let mut often = FrameScheduler::new(10, 0);
    let mut once = FrameScheduler::new(10, 0);
    often.trigger_redraw(15);
    assert_eq!(often.frame_id.id(), 1);
    often.trigger_redraw(35);
    once.trigger_redraw(35);
    assert_eq!(often.frame_id.id(), 3);
    assert_eq!(once.frame_id.id(), 3);
    assert_eq!(often.next_frame_time, once.next_frame_time);
}

#[test]
fn frame_start_moves_on_advance() {
    let mut f = FrameID::new();
    let earlier = Instant::now().checked_sub(Duration::from_secs(5)).unwrap();
    f.advance(earlier);
    assert!(f.elapsed() >= Duration::from_secs(5));
    // adding to the number leaves the start where it was
    f.add_frames(3);
    assert_eq!(f.id(), 4);
    assert!(f.elapsed() >= Duration::from_secs(5));
}
