use std::time::{Duration, Instant};
use vstd::prelude::*;

verus! {

#[verifier::external_type_specification]
#[verifier::external_body]
pub struct ExInstant(Instant);

/// Reads the monotonic clock through `std::time::Instant::now`.
/// Nothing is promised of the reading: it depends on the time of the call.
#[verifier::external_body]
fn instant_now() -> (r: Instant) {
    Instant::now()
}

/// Calls `std::time::Instant::elapsed`: the time passed since `start`.
/// Nothing is promised of the result: it depends on the time of the call.
#[verifier::external_body]
fn instant_elapsed(start: &Instant) -> (r: Duration) {
    start.elapsed()
}

/// A frame counter together with the moment its current frame began.
#[derive(Debug, Clone, Copy)]
pub struct FrameID {
    id: u64,
    instant: Instant,
}

impl FrameID {
    /// The number of the frame.
    pub closed spec fn spec_id(&self) -> u64 {
        self.id
    }

    /// The moment the frame began.
    pub closed spec fn spec_start(&self) -> Instant {
        self.instant
    }

    /// The first frame, numbered zero, starting now.
    pub fn new() -> (r: Self)
        ensures
            r.spec_id() == 0,
    {
        FrameID { id: 0, instant: instant_now() }
    }

    /// A frame with the given number, starting now.
    pub fn from_id(id: u64) -> (r: Self)
        ensures
            r.spec_id() == id,
    {
        FrameID { id, instant: instant_now() }
    }

    /// The number of the frame.
    pub fn id(&self) -> (r: u64)
        ensures
            r == self.spec_id(),
    {
        self.id
    }

    /// How long ago the current frame began.
    pub fn elapsed(&self) -> Duration {
        instant_elapsed(&self.instant)
    }

    /// Moves on to the next frame, which begins at `now`.
    pub fn advance(&mut self, now: Instant)
        requires
            old(self).spec_id() < u64::MAX,
        ensures
            final(self).spec_id() == old(self).spec_id() + 1,
            final(self).spec_start() == now,
    {
        self.instant = now;
        self.id = self.id + 1;
    }

    /// Adds `rhs` to the frame number, wrapping around at `u64::MAX`;
    /// the start of the frame is unchanged.
    pub fn add_frames(&mut self, rhs: u64)
        ensures
            final(self).spec_id() == (old(self).spec_id() + rhs) % 0x1_0000_0000_0000_0000,
            final(self).spec_start() == old(self).spec_start(),
    {
        self.id = self.id.wrapping_add(rhs);
    }
}

/// The number of whole frame intervals that have begun at `now` for a clock
/// whose next frame is due at `next`: none while `now < next`, and otherwise
/// one for the frame due at `next` plus one per full interval since.
pub open spec fn frames_due(next: u64, now: u64, interval: u64) -> nat
    recommends
        interval > 0,
{
    if now < next {
        0
    } else {
        ((now - next) / (interval as int) + 1) as nat
    }
}

/// Counting due frames is exact: the last frame counted was due at or
/// before `now`, and the first one not counted is due after `now`.
pub proof fn frames_due_brackets_now(next: u64, now: u64, interval: u64)
    requires
        interval > 0,
    ensures
        next + frames_due(next, now, interval) * interval > now,
        frames_due(next, now, interval) > 0 ==> next + (frames_due(next, now, interval) - 1)
            * interval <= now,
{
    if now >= next {
        let x = now - next;
        let i = interval as int;
        let q = x / i;
        let r = x % i;
        vstd::arithmetic::div_mod::lemma_fundamental_div_mod(x, i);
        assert(0 <= r < i);
        assert((q + 1) * i == q * i + i) by (nonlinear_arith);
        assert(frames_due(next, now, interval) == q + 1);
    }
}

/// A redraw check leaves no frame due: checking again at the same moment,
/// from where the first check moved the next due time, finds none.
pub proof fn redraw_check_leaves_nothing_due(next: u64, now: u64, interval: u64)
    requires
        interval > 0,
        frames_due_after(next, now, interval) <= u64::MAX,
    ensures
        frames_due(frames_due_after(next, now, interval) as u64, now, interval) == 0,
{
    frames_due_brackets_now(next, now, interval);
}

/// Checking more often does not change the count: the frames due at `t1`,
/// plus those due at a later `t2` counted from where the first check left
/// the next due time, are the frames due at `t2` counted at once.
pub proof fn frames_due_split(next: u64, t1: u64, t2: u64, interval: u64)
    requires
        interval > 0,
        t1 <= t2,
        frames_due_after(next, t1, interval) <= u64::MAX,
    ensures
        frames_due(next, t1, interval) + frames_due(
            frames_due_after(next, t1, interval) as u64,
            t2,
            interval,
        ) == frames_due(next, t2, interval),
{
    frames_due_brackets_now(next, t1, interval);
    frames_due_brackets_now(next, t2, interval);
    let i = interval as int;
    let k1 = frames_due(next, t1, interval) as int;
    let n1 = next + k1 * i;
    if t2 >= n1 && t2 >= next {
        let x = t2 - next;
        let q = x / i;
        let r = x % i;
        vstd::arithmetic::div_mod::lemma_fundamental_div_mod(x, i);
        let y = t2 - n1;
        assert(y == (q - k1) * i + r) by (nonlinear_arith)
            requires
                y == x - k1 * i,
                x == i * q + r,
        ;
        vstd::arithmetic::div_mod::lemma_fundamental_div_mod_converse_div(y, i, q - k1, r);
    } else if t2 >= next {
        let x = t2 - next;
        let q = x / i;
        vstd::arithmetic::div_mod::lemma_fundamental_div_mod(x, i);
        let r = x % i;
        if k1 == 0 {
            assert(next > t1);
            assert(n1 == next);
        } else {
            assert(next + (k1 - 1) * i <= t1);
            assert((k1 - 1) * i <= x < k1 * i);
            assert(q == k1 - 1) by (nonlinear_arith)
                requires
                    (k1 - 1) * i <= x,
                    x < k1 * i,
                    x == i * q + r,
                    0 <= r < i,
                    i > 0,
            ;
        }
    }
}

/// Where the next frame is due once every frame due at `now` is counted.
pub open spec fn frames_due_after(next: u64, now: u64, interval: u64) -> int {
    next + frames_due(next, now, interval) * interval
}

/// What a redraw check decided.
#[derive(Debug, Clone, Copy, PartialEq, Eq, Structural)]
pub struct RedrawDecision {
    /// Whether a frame is due, so the window must be redrawn.
    pub redraw: bool,
    /// The moment, in the scheduler's clock, at which the event loop should
    /// wake up again; `None` when the scheduler is paused.
    pub wait_until: Option<u64>,
}

/// Paces frames at a fixed interval and counts them.
///
/// Times are nanoseconds on a monotonic clock whose origin the caller picks
/// (typically the moment the engine started).
#[derive(Debug)]
pub struct FrameScheduler {
    pub frame_interval: u64,
    pub next_frame_time: u64,
    pub running: bool,
    pub frame_id: FrameID,
}

impl FrameScheduler {
    /// A scheduler is usable when its frame interval is not zero.
    pub open spec fn wf(&self) -> bool {
        self.frame_interval > 0
    }

    /// A running scheduler whose first frame is due one interval after `now`.
    pub fn new(frame_interval: u64, now: u64) -> (r: Self)
        requires
            frame_interval > 0,
            now + frame_interval <= u64::MAX,
        ensures
            r.wf(),
            r.frame_interval == frame_interval,
            r.next_frame_time == now + frame_interval,
            r.running,
            r.frame_id.spec_id() == 0,
    {
        FrameScheduler {
            frame_interval,
            next_frame_time: now + frame_interval,
            running: true,
            frame_id: FrameID::new(),
        }
    }

    /// Changes the frame rate: frames are now `frame_interval` apart and the
    /// next one is due one interval after `now`.
    pub fn set_fps(&mut self, frame_interval: u64, now: u64)
        requires
            frame_interval > 0,
            now + frame_interval <= u64::MAX,
        ensures
            final(self).wf(),
            final(self).frame_interval == frame_interval,
            final(self).next_frame_time == now + frame_interval,
            final(self).running == old(self).running,
            final(self).frame_id == old(self).frame_id,
    {
        self.frame_interval = frame_interval;
        self.next_frame_time = now + frame_interval;
    }

    /// Moves the due time of the next frame one interval later.
    pub fn advance(&mut self)
        requires
            old(self).next_frame_time + old(self).frame_interval <= u64::MAX,
        ensures
            final(self).next_frame_time == old(self).next_frame_time + old(self).frame_interval,
            final(self).frame_interval == old(self).frame_interval,
            final(self).running == old(self).running,
            final(self).frame_id == old(self).frame_id,
    {
        self.next_frame_time = self.next_frame_time + self.frame_interval;
    }

    /// Makes the next frame due one interval after `now`.
    pub fn reset(&mut self, now: u64)
        requires
            now + old(self).frame_interval <= u64::MAX,
        ensures
            final(self).next_frame_time == now + old(self).frame_interval,
            final(self).frame_interval == old(self).frame_interval,
            final(self).running == old(self).running,
            final(self).frame_id == old(self).frame_id,
    {
        self.next_frame_time = now + self.frame_interval;
    }

    /// Stops producing frames.
    pub fn pause(&mut self)
        ensures
            !final(self).running,
            final(self).next_frame_time == old(self).next_frame_time,
            final(self).frame_interval == old(self).frame_interval,
            final(self).frame_id == old(self).frame_id,
    {
        self.running = false;
    }

    /// Starts producing frames again; a paused scheduler restarts its
    /// timing at `now`, a running one is left as it is.
    pub fn resume(&mut self, now: u64)
        requires
            now + old(self).frame_interval <= u64::MAX,
        ensures
            final(self).running,
            final(self).frame_interval == old(self).frame_interval,
            final(self).frame_id == old(self).frame_id,
            final(self).next_frame_time == if old(self).running {
                old(self).next_frame_time
            } else {
                (now + old(self).frame_interval) as u64
            },
    {
        if !self.running {
            self.running = true;
            self.reset(now);
        }
    }

    /// Decides, at time `now`, whether a frame is due. Every frame interval
    /// that has begun is counted as a frame; the next due time moves past
    /// `now` in whole intervals, and the event loop is told to wake up then.
    /// A paused scheduler does nothing.
    pub fn trigger_redraw(&mut self, now: u64) -> (r: RedrawDecision)
        requires
            old(self).wf(),
            now + old(self).frame_interval <= u64::MAX,
            old(self).running ==> old(self).frame_id.spec_id() + frames_due(
                old(self).next_frame_time,
                now,
                old(self).frame_interval,
            ) <= u64::MAX,
        ensures
            final(self).frame_interval == old(self).frame_interval,
            final(self).running == old(self).running,
            !old(self).running ==> *final(self) == *old(self) && r == (RedrawDecision {
                redraw: false,
                wait_until: None,
            }),
            old(self).running ==> ({
                let k = frames_due(old(self).next_frame_time, now, old(self).frame_interval);
                &&& final(self).next_frame_time == old(self).next_frame_time + k * old(
                    self,
                ).frame_interval
                &&& final(self).frame_id.spec_id() == old(self).frame_id.spec_id() + k
                &&& k == 0 ==> final(self).frame_id == old(self).frame_id
                &&& r.redraw == (k > 0)
                &&& r.wait_until == Some(final(self).next_frame_time)
                &&& final(self).next_frame_time > now
            }),
    {
        if !self.running {
            return RedrawDecision { redraw: false, wait_until: None };
        }
        let ghost old_next = self.next_frame_time;
        let ghost old_id = self.frame_id.spec_id();
        let ghost old_frame = self.frame_id;
        let clock = instant_now();
        let ghost interval = self.frame_interval;
        let ghost due = frames_due(old_next, now, interval);
        let mut redraw = false;
        let ghost mut k: nat = 0;
        while self.next_frame_time <= now
            invariant
                self.frame_interval == interval,
                interval > 0,
                self.running,
                now + interval <= u64::MAX,
                due == frames_due(old_next, now, interval),
                old_id + due <= u64::MAX,
                self.next_frame_time == old_next + k * interval,
                self.frame_id.spec_id() == old_id + k,
                k == 0 ==> self.frame_id == old_frame,
                redraw == (k > 0),
                k > 0 ==> self.next_frame_time - interval <= now,
            decreases now + interval - self.next_frame_time,
        {
            proof {
                let x = now - old_next;
                assert(k * interval <= x);
                assert(k <= x / (interval as int)) by (nonlinear_arith)
                    requires
                        k * interval <= x,
                        interval > 0,
                        x >= 0,
                ;
                assert(k < due);
                assert((k + 1) * interval == k * interval + interval) by (nonlinear_arith);
            }
            self.next_frame_time = self.next_frame_time + self.frame_interval;
            self.frame_id.advance(clock);
            redraw = true;
            proof {
                k = k + 1;
            }
        }
        proof {
            if k > 0 {
                let x = now - old_next;
                let q = (k - 1) as int;
                let rem = x - q * interval;
                assert(q * interval == k * interval - interval) by (nonlinear_arith)
                    requires
                        q == k - 1,
                ;
                assert(0 <= rem < interval);
                vstd::arithmetic::div_mod::lemma_fundamental_div_mod_converse_div(
                    x,
                    interval as int,
                    q,
                    rem,
                );
                assert(k == due);
            } else {
                assert(due == 0);
            }
        }
        let next = self.next_frame_time;
        let wait = if next > now {
            next
        } else {
            now + 1_000_000
        };
        RedrawDecision { redraw, wait_until: Some(wait) }
    }
}

/// Paces frames at a fixed interval, measured from the moment of the last
/// frame.
///
/// Times are nanoseconds on a monotonic clock whose origin the caller picks.
#[derive(Debug)]
pub struct Scheduler {
    pub frame_interval: u64,
    pub next_frame_time: u64,
}

impl Scheduler {
    /// A scheduler whose first frame is due one interval after `now`.
    pub fn new(frame_interval: u64, now: u64) -> (r: Self)
        requires
            now + frame_interval <= u64::MAX,
        ensures
            r.frame_interval == frame_interval,
            r.next_frame_time == now + frame_interval,
    {
        Scheduler { frame_interval, next_frame_time: now + frame_interval }
    }

    /// Makes the next frame due one interval after `now`.
    pub fn advance(&mut self, now: u64)
        requires
            now + old(self).frame_interval <= u64::MAX,
        ensures
            final(self).frame_interval == old(self).frame_interval,
            final(self).next_frame_time == now + old(self).frame_interval,
    {
        self.next_frame_time = now + self.frame_interval;
    }

    /// Makes the next frame due one interval after `now`.
    pub fn reset(&mut self, now: u64)
        requires
            now + old(self).frame_interval <= u64::MAX,
        ensures
            final(self).frame_interval == old(self).frame_interval,
            final(self).next_frame_time == now + old(self).frame_interval,
    {
        self.next_frame_time = now + self.frame_interval;
    }

    /// Decides, at time `now`, whether a frame is due; when it is, the next
    /// one is scheduled one interval after `now`. The event loop should wake
    /// up at the next due time, or one millisecond after `now` when that
    /// time is not in the future.
    pub fn trigger_redraw(&mut self, now: u64) -> (r: RedrawDecision)
        requires
            now + old(self).frame_interval <= u64::MAX,
            now + 1_000_000 <= u64::MAX,
        ensures
            final(self).frame_interval == old(self).frame_interval,
            r.redraw == (now >= old(self).next_frame_time),
            final(self).next_frame_time == if r.redraw {
                (now + old(self).frame_interval) as u64
            } else {
                old(self).next_frame_time
            },
            r.wait_until == Some(
                if final(self).next_frame_time > now {
                    final(self).next_frame_time
                } else {
                    (now + 1_000_000) as u64
                },
            ),
    {
        let mut redraw = false;
        if now >= self.next_frame_time {
            redraw = true;
            self.advance(now);
        }
        let next = self.next_frame_time;
        let wait = if next > now {
            next
        } else {
            now + 1_000_000
        };
        RedrawDecision { redraw, wait_until: Some(wait) }
    }
}

} // verus!
