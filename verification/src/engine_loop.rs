use vstd::prelude::*;
use crate::frame::{frames_due, FrameScheduler, RedrawDecision};
use crate::save::{joined_path, path_join};

verus! {

/// What the engine does with one window event.
#[derive(Debug, Clone, Copy, PartialEq, Eq, Structural)]
pub struct EventPlan {
    /// Ask the script's exit callback whether to close the window.
    pub ask_exit_callback: bool,
    /// Record the event for the script and run a frame.
    pub run_frame: bool,
    /// Record the event for the script, to be seen by the next frame.
    pub record: bool,
}

/// The engine's own state between window events: the frame pacing, and
/// the screenshots asked for, oldest first, as the files to write them to.
#[derive(Debug)]
pub struct EngineLoop {
    pub scheduler: FrameScheduler,
    pub capture_dir: String,
    pub frame_capture: Vec<String>,
}

impl EngineLoop {
    /// The files the coming frames are captured to, oldest request first.
    pub open spec fn captures(&self) -> Seq<Seq<char>> {
        self.frame_capture@.map_values(|s: String| s@)
    }

    /// A loop whose frames are paced by `scheduler`, writing screenshots
    /// under `capture_dir`, with no screenshot asked for.
    pub fn new(scheduler: FrameScheduler, capture_dir: String) -> (r: Self)
        ensures
            r.scheduler == scheduler,
            r.capture_dir@ == capture_dir@,
            r.captures() == Seq::<Seq<char>>::empty(),
    {
        let r = EngineLoop { scheduler, capture_dir, frame_capture: Vec::new() };
        assert(r.captures() =~= Seq::<Seq<char>>::empty());
        r
    }

    /// What to do with a window event: nothing once the engine has
    /// stopped; otherwise record it, ask the exit callback when the window
    /// is asked to close, and run a frame when the event calls for a redraw.
    pub fn event_plan(&self, close_requested: bool, must_redraw: bool) -> (r: EventPlan)
        ensures
            r == (if self.scheduler.running {
                EventPlan {
                    ask_exit_callback: close_requested,
                    run_frame: must_redraw,
                    record: true,
                }
            } else {
                EventPlan { ask_exit_callback: false, run_frame: false, record: false }
            }),
    {
        if !self.scheduler.running {
            return EventPlan { ask_exit_callback: false, run_frame: false, record: false };
        }
        EventPlan { ask_exit_callback: close_requested, run_frame: must_redraw, record: true }
    }

    /// Whether to close the window after the exit callback answered: only
    /// when it answered yes.
    pub fn close_after_callback(&self, answered: Option<bool>) -> (r: bool)
        ensures
            r == (answered == Some(true)),
    {
        match answered {
            Some(true) => true,
            _ => false,
        }
    }

    /// Asks for the next frame to be captured to `p`, taken relative to the
    /// capture directory.
    pub fn request_capture(&mut self, p: &str)
        ensures
            final(self).captures() == old(self).captures().push(
                joined_path(old(self).capture_dir@, p@),
            ),
            final(self).scheduler == old(self).scheduler,
            final(self).capture_dir == old(self).capture_dir,
    {
        let target = path_join(self.capture_dir.as_str(), p);
        self.frame_capture.push(target);
        assert(self.captures() =~= old(self).captures().push(
            joined_path(old(self).capture_dir@, p@),
        ));
    }

    /// The file the frame that just ended is captured to: the oldest
    /// request, which is then done with.
    pub fn take_capture(&mut self) -> (r: Option<String>)
        ensures
            old(self).captures().len() == 0 ==> r is None && final(self).captures() == old(
                self,
            ).captures(),
            old(self).captures().len() > 0 ==> (r matches Some(f) && f@ == old(
                self,
            ).captures()[0]) && final(self).captures() == old(self).captures().drop_first(),
            final(self).scheduler == old(self).scheduler,
            final(self).capture_dir == old(self).capture_dir,
    {
        if self.frame_capture.len() == 0 {
            return None;
        }
        let f = self.frame_capture.remove(0);
        assert(self.captures() =~= old(self).captures().drop_first());
        Some(f)
    }

    /// The check the event loop makes between events: a stopped engine
    /// draws nothing; a running one asks its scheduler.
    pub fn update(&mut self, now: u64) -> (r: RedrawDecision)
        requires
            old(self).scheduler.wf(),
            now + old(self).scheduler.frame_interval <= u64::MAX,
            old(self).scheduler.running ==> old(self).scheduler.frame_id.spec_id() + frames_due(
                old(self).scheduler.next_frame_time,
                now,
                old(self).scheduler.frame_interval,
            ) <= u64::MAX,
        ensures
            !old(self).scheduler.running ==> r == (RedrawDecision {
                redraw: false,
                wait_until: None,
            }) && final(self).scheduler == old(self).scheduler,
            old(self).scheduler.running ==> ({
                let k = frames_due(
                    old(self).scheduler.next_frame_time,
                    now,
                    old(self).scheduler.frame_interval,
                );
                &&& r.redraw == (k > 0)
                &&& r.wait_until == Some(final(self).scheduler.next_frame_time)
                &&& final(self).scheduler.next_frame_time == old(self).scheduler.next_frame_time
                    + k * old(self).scheduler.frame_interval
                &&& final(self).scheduler.frame_id.spec_id() == old(
                    self,
                ).scheduler.frame_id.spec_id() + k
                &&& final(self).scheduler.running
                &&& final(self).scheduler.frame_interval == old(self).scheduler.frame_interval
            }),
            final(self).captures() == old(self).captures(),
            final(self).capture_dir == old(self).capture_dir,
    {
        if !self.scheduler.running {
            return RedrawDecision { redraw: false, wait_until: None };
        }
        self.scheduler.trigger_redraw(now)
    }

    /// Stops the engine: no frame is drawn and no event handled from now on.
    pub fn stop(&mut self)
        ensures
            !final(self).scheduler.running,
            final(self).scheduler.frame_id == old(self).scheduler.frame_id,
            final(self).scheduler.next_frame_time == old(self).scheduler.next_frame_time,
            final(self).scheduler.frame_interval == old(self).scheduler.frame_interval,
            final(self).captures() == old(self).captures(),
            final(self).capture_dir == old(self).capture_dir,
    {
        self.scheduler.pause();
    }
}

/// Screenshots are taken in the order they were asked for: with captures
/// `q` already waiting, asking for `a` and then `b` leaves `q` to be taken
/// first, then `a`, then `b`.
pub proof fn captures_in_order(q: Seq<Seq<char>>, a: Seq<char>, b: Seq<char>)
    ensures
        q.push(a).push(b).subrange(0, q.len() as int) == q,
        q.push(a).push(b)[q.len() as int] == a,
        q.push(a).push(b)[q.len() + 1int] == b,
{
    assert(q.push(a).push(b).subrange(0, q.len() as int) =~= q);
}

} // verus!
