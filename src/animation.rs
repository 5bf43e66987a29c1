//! Frame animations driven by a fixed-rate timer.
//!
//! Time is a count of microseconds handed in by the host; nothing here reads
//! a clock.
use vstd::prelude::*;
use crate::geom::{Blit, Drawable, Rect};

verus! {

/// Microseconds between frames at `fps` frames per second; a rate of zero
/// never comes due again.
pub open spec fn frame_time_for(fps: u32) -> u64 {
    if fps == 0 {
        u64::MAX
    } else {
        (1_000_000int / (fps as int)) as u64
    }
}

pub open spec fn saturating_add(a: u64, b: u64) -> u64 {
    if a + b > u64::MAX {
        u64::MAX
    } else {
        (a + b) as u64
    }
}

pub ghost struct TimerView {
    pub frame_time: u64,
    pub next_time: u64,
}

/// A timer that comes due once per frame period.
#[derive(Clone, Copy, Debug)]
pub struct AnimationTimer {
    frame_time: u64,
    next_time: u64,
}

impl View for AnimationTimer {
    type V = TimerView;

    closed spec fn view(&self) -> TimerView {
        TimerView { frame_time: self.frame_time, next_time: self.next_time }
    }
}

fn frame_time_of(fps: u32) -> (r: u64)
    ensures
        r == frame_time_for(fps),
{
    if fps == 0 {
        u64::MAX
    } else {
        1_000_000 / (fps as u64)
    }
}

impl AnimationTimer {
    /// A timer for `fps` frames per second whose first frame is due at `now`.
    pub fn new(fps: u32, now: u64) -> (r: AnimationTimer)
        ensures
            r@ == (TimerView { frame_time: frame_time_for(fps), next_time: now }),
    {
        AnimationTimer { frame_time: frame_time_of(fps), next_time: now }
    }

    pub fn set_fps(&mut self, fps: u32)
        ensures
            final(self)@ == (TimerView { frame_time: frame_time_for(fps), ..old(self)@ }),
    {
        self.frame_time = frame_time_of(fps);
    }

    /// Makes the next frame due at `now`.
    pub fn reset(&mut self, now: u64)
        ensures
            final(self)@ == (TimerView { next_time: now, ..old(self)@ }),
    {
        self.next_time = now;
    }

    /// Whether a frame is due at `now`; if so the next one becomes due one
    /// period after the one that was due.
    pub fn ready_for_next_frame(&mut self, now: u64) -> (r: bool)
        ensures
            r == (now >= old(self)@.next_time),
            final(self)@.frame_time == old(self)@.frame_time,
            final(self)@.next_time == if r {
                saturating_add(old(self)@.next_time, old(self)@.frame_time)
            } else {
                old(self)@.next_time
            },
    {
        if now >= self.next_time {
            self.next_time = self.next_time.saturating_add(self.frame_time);
            true
        } else {
            false
        }
    }
}

pub ghost struct AnimationView {
    pub timer: TimerView,
    pub image: Drawable,
    pub frames: Seq<Rect>,
    /// The frame shown; `-1` before the first tick, `frames.len()` once a
    /// non-repeating cycle has finished.
    pub current: int,
    pub repeat: bool,
    pub active: bool,
}

pub open spec fn frames_wf(frames: Seq<Rect>) -> bool {
    frames.len() < i32::MAX && forall|i: int| 0 <= i < frames.len() ==> (#[trigger] frames[i]).wf()
}

impl AnimationView {
    /// What every animation keeps: sizes are not negative, the frame count
    /// fits an `i32`, and the frame index lies in `[-1, frames.len()]`.
    pub open spec fn wf(self) -> bool {
        frames_wf(self.frames) && -1 <= self.current <= self.frames.len()
    }

    pub open spec fn is_end(self) -> bool {
        self.current == self.frames.len()
    }

    /// Whether a tick at `now` moves to another frame.
    pub open spec fn jumps(self, now: u64) -> bool {
        self.active && now >= self.timer.next_time
    }

    /// The animation after a tick at `now`: the next frame, or, past the
    /// last one, the first frame again if repeating and otherwise the
    /// finished state, stopped.
    pub open spec fn ticked(self, now: u64) -> AnimationView {
        if !self.jumps(now) {
            self
        } else {
            let timer = TimerView {
                next_time: saturating_add(self.timer.next_time, self.timer.frame_time),
                ..self.timer
            };
            let c = self.current + 1;
            if c >= self.frames.len() {
                if self.repeat {
                    AnimationView { timer, current: 0, ..self }
                } else {
                    AnimationView { timer, current: self.frames.len() as int, active: false, ..self }
                }
            } else {
                AnimationView { timer, current: c, ..self }
            }
        }
    }

    /// The frame to draw: the first one until the animation has advanced,
    /// the last one once it has finished.
    pub open spec fn shown_frame(self) -> int {
        if self.current <= 0 {
            0
        } else if self.current == self.frames.len() {
            self.frames.len() - 1
        } else {
            self.current
        }
    }

    pub open spec fn frame_width(self) -> int {
        if self.frames.len() == 0 {
            0
        } else {
            self.frames[0].w as int
        }
    }

    pub open spec fn frame_height(self) -> int {
        if self.frames.len() == 0 {
            0
        } else {
            self.frames[0].h as int
        }
    }
}

/// A sequence of frames (regions of one image) that advances at a fixed rate.
#[derive(Debug)]
pub struct Animation {
    timer: AnimationTimer,
    image: Drawable,
    frames: Vec<Rect>,
    current: i32,
    repeat: bool,
    active: bool,
}

impl View for Animation {
    type V = AnimationView;

    closed spec fn view(&self) -> AnimationView {
        AnimationView {
            timer: self.timer@,
            image: self.image,
            frames: self.frames@,
            current: self.current as int,
            repeat: self.repeat,
            active: self.active,
        }
    }
}

impl Animation {
    #[verifier::type_invariant]
    spec fn inv(self) -> bool {
        frames_wf(self.frames@) && -1 <= self.current <= self.frames@.len()
    }

    /// Every animation is well formed.
    pub fn check_frames(&self)
        ensures
            self@.wf(),
    {
        proof {
            use_type_invariant(self);
        }
    }

    /// A stopped animation over `frames` of `image`, at `fps` frames per
    /// second.
    pub fn new(image: Drawable, frames: Vec<Rect>, fps: u32, now: u64) -> (r: Animation)
        requires
            frames_wf(frames@),
        ensures
            r@ == (AnimationView {
                timer: TimerView { frame_time: frame_time_for(fps), next_time: now },
                image,
                frames: frames@,
                current: -1,
                repeat: false,
                active: false,
            }),
    {
        Animation {
            timer: AnimationTimer::new(fps, now),
            image,
            frames,
            current: -1,
            repeat: false,
            active: false,
        }
    }

    /// A started animation: its first frame is due at `now`.
    pub fn active(image: Drawable, frames: Vec<Rect>, fps: u32, now: u64) -> (r: Animation)
        requires
            frames_wf(frames@),
        ensures
            r@ == (AnimationView {
                timer: TimerView { frame_time: frame_time_for(fps), next_time: now },
                image,
                frames: frames@,
                current: -1,
                repeat: false,
                active: true,
            }),
    {
        let mut anim = Self::new(image, frames, fps, now);
        anim.start(now);
        anim
    }

    /// Shows frame `frame`, if there is one.
    pub fn set_current_frame(&mut self, frame: usize) -> (r: bool)
        ensures
            r == (frame < old(self)@.frames.len()),
            final(self)@ == if r {
                AnimationView { current: frame as int, ..old(self)@ }
            } else {
                old(self)@
            },
    {
        proof {
            use_type_invariant(&*self);
        }
        if frame < self.frames.len() {
            self.current = frame as i32;
            true
        } else {
            false
        }
    }

    /// The current frame index, `0` before the first tick.
    pub fn current_frame(&self) -> (r: usize)
        ensures
            r == if self@.current <= 0 {
                0
            } else {
                self@.current
            },
    {
        if self.current <= 0 {
            0
        } else {
            self.current as usize
        }
    }

    /// The width of the first frame, `0` without frames.
    pub fn frame_width(&self) -> (r: i32)
        ensures
            r == self@.frame_width(),
            r >= 0,
    {
        proof {
            use_type_invariant(self);
        }
        if self.frames.len() == 0 {
            0
        } else {
            self.frames[0].w
        }
    }

    /// The height of the first frame, `0` without frames.
    pub fn frame_height(&self) -> (r: i32)
        ensures
            r == self@.frame_height(),
            r >= 0,
    {
        proof {
            use_type_invariant(self);
        }
        if self.frames.len() == 0 {
            0
        } else {
            self.frames[0].h
        }
    }

    pub fn is_active(&self) -> (r: bool)
        ensures
            r == self@.active,
    {
        self.active
    }

    pub fn set_repeat(&mut self, repeat: bool)
        ensures
            final(self)@ == (AnimationView { repeat, ..old(self)@ }),
    {
        proof {
            use_type_invariant(&*self);
        }
        self.repeat = repeat;
    }

    pub fn is_repeat(&self) -> (r: bool)
        ensures
            r == self@.repeat,
    {
        self.repeat
    }

    /// Starts from before the first frame, which becomes due at `now`.
    pub fn start(&mut self, now: u64)
        ensures
            final(self)@ == (AnimationView {
                timer: TimerView { next_time: now, ..old(self)@.timer },
                current: -1,
                active: true,
                ..old(self)@
            }),
    {
        proof {
            use_type_invariant(&*self);
        }
        let mut timer = self.timer;
        timer.reset(now);
        self.timer = timer;
        self.active = true;
        self.current = -1;
    }

    pub fn stop(&mut self)
        ensures
            final(self)@ == (AnimationView { active: false, ..old(self)@ }),
    {
        proof {
            use_type_invariant(&*self);
        }
        self.active = false;
    }

    /// Whether a non-repeating cycle has just finished.
    pub fn is_end(&self) -> (r: bool)
        ensures
            r == self@.is_end(),
    {
        proof {
            use_type_invariant(self);
        }
        self.current == self.frames.len() as i32
    }

    /// Ticks the animation at time `now`; returns whether it moved to
    /// another frame.
    pub fn update(&mut self, now: u64) -> (r: bool)
        ensures
            r == old(self)@.jumps(now),
            final(self)@ == old(self)@.ticked(now),
    {
        proof {
            use_type_invariant(&*self);
        }
        if self.active {
            let mut timer = self.timer;
            let due = timer.ready_for_next_frame(now);
            self.timer = timer;
            if due {
                let next = self.current + 1;
                if next >= self.frames.len() as i32 {
                    if self.repeat {
                        self.current = 0;
                    } else {
                        self.active = false;
                        self.current = self.frames.len() as i32;
                    }
                } else {
                    self.current = next;
                }
                return true;
            }
        }
        false
    }

    /// The blit that draws the shown frame onto `dest`; none without frames.
    pub fn draw(&self, dest: Rect) -> (r: Option<Blit>)
        ensures
            self@.frames.len() == 0 ==> r is None,
            self@.frames.len() > 0 ==> r == Some(
                Blit {
                    texture: self@.image.texture,
                    src: self@.frames[self@.shown_frame()],
                    dst: dest,
                },
            ),
    {
        proof {
            use_type_invariant(self);
        }
        let len = self.frames.len();
        if len == 0 {
            return None;
        }
        let mut current: usize = 0;
        if self.current > 0 {
            current = if self.current as usize == len {
                len - 1
            } else {
                self.current as usize
            };
        }
        Some(Blit { texture: self.image.texture, src: self.frames[current], dst: dest })
    }
}

} // verus!
