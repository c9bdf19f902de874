//! The decisions of the render loop: when a frame counts as finished, when
//! the next animation frame starts, when rendering stops, and where an
//! incoming pixel lands in the image buffers. The loop itself, with its
//! clock, threads and files, runs outside; it hands each decision the
//! values it needs and carries out what comes back.

use vstd::prelude::*;

verus! {

/// How often, in milliseconds, the loop looks at whether the frame is done.
pub const CHECK_INTERVAL_MS: u128 = 1000;

/// Counters of the render loop.
#[derive(Clone, Copy, Debug, PartialEq, Eq, Structural)]
pub struct FrameStats {
    pub last_time: u128,
    pub current_time: u128,
    pub frame: u64,
    pub screen_update_time: u128,
    pub pps_current: u64,
    pub pps: u64,
    pub completed: bool,
}

/// What the loop does about the next animation frame.
#[derive(Clone, Copy, Debug, PartialEq, Eq, Structural)]
pub enum FrameStep {
    /// Nothing.
    Stay,
    /// Stop the workers, apply the new frame to the scene and render again.
    Advance,
    /// The last frame is done: say once how to join the frames into a film.
    PrintHelp,
}

/// What one turn of the loop asks for besides the frame step.
#[derive(Clone, Copy, Debug, PartialEq, Eq, Structural)]
pub struct LoopOutcome {
    /// The frame just became complete: report it and save the image.
    pub save_image: bool,
    /// What to do about the next animation frame.
    pub step: FrameStep,
    /// Whether the picture on screen changed.
    pub changed: bool,
}

/// The whole state of the loop's decisions.
#[derive(Clone, Copy, Debug, PartialEq, Eq, Structural)]
pub struct LoopState {
    pub stats: FrameStats,
    pub stopped: bool,
    pub help_printed: bool,
}

impl FrameStats {
    /// All counters at zero, nothing completed.
    pub fn new() -> (s: FrameStats)
        ensures
            s.last_time == 0 && s.current_time == 0 && s.frame == 0,
            s.screen_update_time == 0 && s.pps_current == 0 && s.pps == 0,
            !s.completed,
    {
        FrameStats {
            last_time: 0,
            current_time: 0,
            frame: 0,
            screen_update_time: 0,
            pps_current: 0,
            pps: 0,
            completed: false,
        }
    }

    /// Back to the state of `new`.
    pub fn reset(&mut self)
        ensures
            final(self).last_time == 0 && final(self).current_time == 0 && final(self).frame == 0,
            final(self).screen_update_time == 0 && final(self).pps_current == 0 && final(self).pps
                == 0,
            !final(self).completed,
    {
        self.last_time = 0;
        self.current_time = 0;
        self.frame = 0;
        self.screen_update_time = 0;
        self.pps_current = 0;
        self.pps = 0;
        self.completed = false;
    }

    /// Counts one pixel that reached the image since the last check.
    pub fn count_pixel(&mut self)
        requires
            old(self).pps_current < u64::MAX,
        ensures
            final(self).pps_current == old(self).pps_current + 1,
            final(self).pps == old(self).pps,
            final(self).frame == old(self).frame,
            final(self).completed == old(self).completed,
            final(self).current_time == old(self).current_time,
            final(self).last_time == old(self).last_time,
            final(self).screen_update_time == old(self).screen_update_time,
    {
        self.pps_current = self.pps_current + 1;
    }
}

/// The step after a turn, as the loop decides it: nothing unless animation
/// is wanted and the scene has one; then a completed frame with a next one
/// advances, and a completed last frame prints the help once.
pub open spec fn frame_step_spec(
    completed: bool,
    help_printed: bool,
    animate: bool,
    has_animation: bool,
    has_next_frame: bool,
) -> FrameStep {
    if !animate || !has_animation {
        FrameStep::Stay
    } else if completed && has_next_frame {
        FrameStep::Advance
    } else if completed && !has_next_frame && !help_printed {
        FrameStep::PrintHelp
    } else {
        FrameStep::Stay
    }
}

/// Whether the check interval has passed since the last check.
pub open spec fn check_due(s: FrameStats, now: u128) -> bool {
    now - s.screen_update_time >= CHECK_INTERVAL_MS
}

impl LoopState {
    /// Nothing rendered, not stopped, no help printed.
    pub fn new() -> (l: LoopState)
        ensures
            l.stats.frame == 0,
            !l.stats.completed,
            !l.stopped,
            !l.help_printed,
    {
        LoopState { stats: FrameStats::new(), stopped: false, help_printed: false }
    }

    /// Rendering starts again from the first frame.
    pub fn restart(&mut self)
        ensures
            !final(self).stats.completed,
            final(self).stats.frame == 0,
            !final(self).help_printed,
            final(self).stopped == old(self).stopped,
            final(self).stats.pps == old(self).stats.pps,
            final(self).stats.pps_current == old(self).stats.pps_current,
            final(self).stats.current_time == old(self).stats.current_time,
            final(self).stats.last_time == old(self).stats.last_time,
            final(self).stats.screen_update_time == old(self).stats.screen_update_time,
    {
        self.stats.completed = false;
        self.stats.frame = 0;
        self.help_printed = false;
    }

    /// Decides about the next animation frame. Advancing moves to the next
    /// frame and clears `completed`; printing the help marks it printed.
    pub fn next_frame_step(&mut self, animate: bool, has_animation: bool, has_next_frame: bool) -> (step: FrameStep)
        requires
            animate && has_animation && old(self).stats.completed && has_next_frame ==> old(
                self,
            ).stats.frame < u64::MAX,
        ensures
            step == frame_step_spec(
                old(self).stats.completed,
                old(self).help_printed,
                animate,
                has_animation,
                has_next_frame,
            ),
            step is Advance ==> final(self).stats.frame == old(self).stats.frame + 1
                && !final(self).stats.completed && final(self).help_printed == old(self).help_printed,
            step is PrintHelp ==> final(self).stats.frame == old(self).stats.frame
                && final(self).stats.completed && final(self).help_printed,
            step is Stay ==> final(self).stats == old(self).stats && final(self).help_printed == old(
                self,
            ).help_printed,
            final(self).stopped == old(self).stopped,
            final(self).stats.pps == old(self).stats.pps,
            final(self).stats.pps_current == old(self).stats.pps_current,
            final(self).stats.current_time == old(self).stats.current_time,
            final(self).stats.last_time == old(self).stats.last_time,
            final(self).stats.screen_update_time == old(self).stats.screen_update_time,
    {
        if !animate || !has_animation {
            return FrameStep::Stay;
        }
        if self.stats.completed && has_next_frame {
            self.stats.frame = self.stats.frame + 1;
            self.stats.completed = false;
            return FrameStep::Advance;
        }
        if self.stats.completed && !has_next_frame && !self.help_printed {
            self.help_printed = true;
            return FrameStep::PrintHelp;
        }
        FrameStep::Stay
    }

    /// One turn of the loop at `now` (milliseconds since the pass began);
    /// see `loop_update_spec`.
    pub fn loop_update(
        &mut self,
        now: u128,
        pixels_changed: bool,
        is_done: bool,
        animate: bool,
        has_animation: bool,
        has_next_frame: bool,
    ) -> (out: LoopOutcome)
        requires
            old(self).stats.screen_update_time <= now,
            animate && has_animation && has_next_frame ==> old(self).stats.frame < u64::MAX,
        ensures
            (*final(self), out) == loop_update_spec(
                *old(self),
                now,
                pixels_changed,
                is_done,
                animate,
                has_animation,
                has_next_frame,
            ),
    {
        self.stats.current_time = now;
        self.stats.last_time = now;
        let mut save_image = false;
        if now - self.stats.screen_update_time >= CHECK_INTERVAL_MS {
            self.stats.screen_update_time = now;
            if is_done && !self.stats.completed {
                self.stats.completed = true;
                save_image = true;
            }
            if !self.stats.completed {
                self.stats.pps = self.stats.pps_current;
                self.stats.pps_current = 0;
            }
        }
        let mut step = FrameStep::Stay;
        let mut changed = pixels_changed;
        if !self.stopped {
            step = self.next_frame_step(animate, has_animation, has_next_frame);
            let has_next = matches!(step, FrameStep::Advance);
            if self.stats.completed && !has_next {
                self.stopped = true;
            }
            changed = has_next || changed;
        }
        LoopOutcome { save_image, step, changed }
    }
}

/// One turn of the loop at `now`. Every check interval the frame is
/// checked: once rendering is done it becomes complete (and the image is to
/// be saved), and while it is not complete the pixels counted in the
/// interval become the shown rate. Unless stopped, the animation step
/// follows; a complete frame that does not advance stops the loop.
pub open spec fn loop_update_spec(
    l: LoopState,
    now: u128,
    pixels_changed: bool,
    is_done: bool,
    animate: bool,
    has_animation: bool,
    has_next_frame: bool,
) -> (LoopState, LoopOutcome) {
    let due = check_due(l.stats, now);
    let save = due && is_done && !l.stats.completed;
    let completed = l.stats.completed || save;
    let rate_shown = due && !completed;
    let step = if l.stopped {
        FrameStep::Stay
    } else {
        frame_step_spec(completed, l.help_printed, animate, has_animation, has_next_frame)
    };
    let advance = step is Advance;
    let completed_after = completed && !advance;
    let stats = FrameStats {
        last_time: now,
        current_time: now,
        frame: if advance {
            (l.stats.frame + 1) as u64
        } else {
            l.stats.frame
        },
        screen_update_time: if due {
            now
        } else {
            l.stats.screen_update_time
        },
        pps_current: if rate_shown {
            0
        } else {
            l.stats.pps_current
        },
        pps: if rate_shown {
            l.stats.pps_current
        } else {
            l.stats.pps
        },
        completed: completed_after,
    };
    (
        LoopState {
            stats,
            stopped: l.stopped || completed_after,
            help_printed: l.help_printed || step is PrintHelp,
        },
        LoopOutcome { save_image: save, step, changed: pixels_changed || advance },
    )
}

/// Where the pixel at (`x`, `y`) lands in buffers of a `width` x `height`
/// image stored row by row, or `None` when it lies beyond the image's right
/// or bottom edge (as while the window is being resized).
pub fn pixel_slot(x: i32, y: i32, width: u32, height: u32) -> (slot: Option<usize>)
    requires
        x >= 0,
        y >= 0,
        (width as int) * (height as int) <= usize::MAX,
    ensures
        (x < width && y < height) ==> slot == Some((y * width + x) as usize),
        !(x < width && y < height) ==> slot is None,
{
    if (x as i64) < (width as i64) && (y as i64) < (height as i64) {
        let xu = x as usize;
        let yu = y as usize;
        let w = width as usize;
        assert(yu * w + xu < (width as int) * (height as int)) by (nonlinear_arith)
            requires
                xu < w,
                yu < height,
                w == width,
        ;
        Some(yu * w + xu)
    } else {
        None
    }
}

/// Once the loop has stopped, no later turn starts it again or moves to
/// another frame.
pub proof fn lemma_stopped_stays(
    l: LoopState,
    now: u128,
    pixels_changed: bool,
    is_done: bool,
    animate: bool,
    has_animation: bool,
    has_next_frame: bool,
)
    requires
        l.stopped,
    ensures
        ({
            let (after, out) = loop_update_spec(
                l,
                now,
                pixels_changed,
                is_done,
                animate,
                has_animation,
                has_next_frame,
            );
            after.stopped && after.stats.frame == l.stats.frame && out.step is Stay
        }),
{
}

/// A frame becomes complete only in a turn where rendering is done, and the
/// image is saved exactly then.
pub proof fn lemma_complete_only_when_done(
    l: LoopState,
    now: u128,
    pixels_changed: bool,
    is_done: bool,
    animate: bool,
    has_animation: bool,
    has_next_frame: bool,
)
    ensures
        ({
            let (after, out) = loop_update_spec(
                l,
                now,
                pixels_changed,
                is_done,
                animate,
                has_animation,
                has_next_frame,
            );
            &&& out.save_image ==> is_done && !l.stats.completed
            &&& (after.stats.completed && !l.stats.completed) ==> is_done && out.save_image
        }),
{
}

/// The frame number moves by at most one per turn, and only past a
/// complete frame; the help is printed at most once.
pub proof fn lemma_frames_advance_one_at_a_time(
    l: LoopState,
    now: u128,
    pixels_changed: bool,
    is_done: bool,
    animate: bool,
    has_animation: bool,
    has_next_frame: bool,
)
    requires
        l.stats.frame < u64::MAX,
    ensures
        ({
            let (after, out) = loop_update_spec(
                l,
                now,
                pixels_changed,
                is_done,
                animate,
                has_animation,
                has_next_frame,
            );
            &&& after.stats.frame == l.stats.frame || after.stats.frame == l.stats.frame + 1
            &&& after.stats.frame == l.stats.frame + 1 ==> (l.stats.completed || out.save_image)
                && has_next_frame && animate && has_animation
            &&& l.help_printed ==> !(out.step is PrintHelp)
        }),
{
}

} // verus!
