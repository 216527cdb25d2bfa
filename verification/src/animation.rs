//! The animation controller: a three-state machine (idle, playing a clip,
//! cooling down) driven by two elapsed-time gates and a random trigger.
//!
//! Each call of [`Animation::update`] ("tick") does, in order:
//! 1. if at least `frame_duration_ms` passed since the last advance, advance
//!    the state (a playing clip steps one frame, finishing into `Cooldown`);
//! 2. while idle or cooling down, if at least `idle_check_ms` passed since
//!    the last check, possibly leave cooldown and possibly start a random
//!    clip (the trigger probability is evaluated once per such check);
//! 3. return the grid coordinate of the cell to display.

use vstd::prelude::*;
use crate::rng::random_below;

verus! {

/// A contiguous, inclusive range of linear frame indices within the sheet's
/// flattened frame space.
#[derive(Clone, Copy, Debug, PartialEq, Eq, Structural)]
pub struct AnimationClip {
    pub start_frame: u32,
    pub end_frame: u32,
}

impl AnimationClip {
    /// A clip is well formed when its range is non-empty and its length
    /// `end_frame - start_frame + 1` fits in a `u32`.
    pub open spec fn wf(self) -> bool {
        &&& self.start_frame <= self.end_frame
        &&& self.end_frame < u32::MAX
    }

    /// Number of frames in the clip, counting both endpoints.
    pub open spec fn spec_length(self) -> int {
        self.end_frame - self.start_frame + 1
    }

    /// Number of frames in the clip, counting both endpoints.
    pub fn length(&self) -> (r: u32)
        requires
            self.wf(),
        ensures
            r == self.spec_length(),
    {
        self.end_frame - self.start_frame + 1
    }

    /// The clip spanning one whole sheet row, first cell to last.
    pub fn for_row(row: u32, frames_per_row: u32) -> (c: AnimationClip)
        requires
            frames_per_row >= 1,
            (row + 1) * frames_per_row <= u32::MAX,
        ensures
            c == spec_row_clip(row, frames_per_row),
            c.wf(),
            c.start_frame == row * frames_per_row,
            c.end_frame == row * frames_per_row + frames_per_row - 1,
    {
        proof {
            assert((row as int) * frames_per_row + frames_per_row == (row + 1) * frames_per_row)
                by (nonlinear_arith);
        }
        let start = row * frames_per_row;
        AnimationClip { start_frame: start, end_frame: start + frames_per_row - 1 }
    }
}

/// The clip that covers row `row` of a sheet with `frames_per_row` cells
/// per row.
pub open spec fn spec_row_clip(row: u32, frames_per_row: u32) -> AnimationClip {
    AnimationClip {
        start_frame: (row * frames_per_row) as u32,
        end_frame: (row * frames_per_row + frames_per_row - 1) as u32,
    }
}

/// A catalog for sheets whose rows are whole gestures: one clip for every
/// row from `1` up to but excluding `total_rows`, so a uniform pick from the
/// catalog is a uniform pick of a row. Row `0` stays reserved for the idle
/// pose.
pub fn row_catalog(total_rows: u32, frames_per_row: u32) -> (clips: Vec<AnimationClip>)
    requires
        frames_per_row >= 1,
        total_rows >= 1,
        (total_rows as int) * frames_per_row <= u32::MAX,
    ensures
        clips@.len() == total_rows - 1,
        forall|i: int|
            0 <= i < clips@.len() ==> #[trigger] clips@[i] == spec_row_clip(
                (i + 1) as u32,
                frames_per_row,
            ),
        forall|i: int| 0 <= i < clips@.len() ==> #[trigger] clips@[i].wf(),
{
    let mut clips: Vec<AnimationClip> = Vec::new();
    let mut row: u32 = 1;
    while row < total_rows
        invariant
            1 <= row <= total_rows,
            frames_per_row >= 1,
            (total_rows as int) * frames_per_row <= u32::MAX,
            clips@.len() == row - 1,
            forall|i: int|
                0 <= i < clips@.len() ==> #[trigger] clips@[i] == spec_row_clip(
                    (i + 1) as u32,
                    frames_per_row,
                ),
            forall|i: int| 0 <= i < clips@.len() ==> #[trigger] clips@[i].wf(),
        decreases total_rows - row,
    {
        proof {
            assert((row as int + 1) * frames_per_row <= (total_rows as int) * frames_per_row)
                by (nonlinear_arith)
                requires
                    row + 1 <= total_rows,
                    frames_per_row >= 1,
            ;
        }
        let clip = AnimationClip::for_row(row, frames_per_row);
        clips.push(clip);
        row = row + 1;
    }
    clips
}

/// The controller is in exactly one of these states at any time; only
/// `Playing` carries a payload, so a stale frame index cannot exist outside
/// an active clip.
#[derive(Clone, Copy, Debug, PartialEq, Eq, Structural)]
pub enum AnimationState {
    /// Showing the canonical rest pose (cell `(0, 0)`), eligible to start a clip.
    Idle,
    /// A clip is in progress; `current_linear_frame` stays within the clip's range.
    Playing { clip: AnimationClip, current_linear_frame: u32 },
    /// A clip just finished; a fixed delay must pass before the next one.
    Cooldown,
}

/// Everything that varies between deployments of the controller: the two
/// gate intervals, the cooldown floor, the trigger probability (in parts per
/// thousand, so the contracts stay over plain integers), the sheet's column
/// count and the clip catalog.
pub struct AnimationConfig {
    pub frame_duration_ms: u64,
    pub idle_check_ms: u64,
    pub min_delay_ms: u64,
    pub trigger_permille: u32,
    pub frames_per_row: u32,
    pub clips: Vec<AnimationClip>,
}

impl AnimationConfig {
    pub open spec fn wf(self) -> bool {
        &&& self.trigger_permille <= 1000
        &&& self.frames_per_row >= 1
        &&& forall|i: int| 0 <= i < self.clips@.len() ==> self.clips@[i].wf()
    }
}

/// Appends one clip to a catalog under construction, keeping every entry
/// well formed.
pub fn push_clip(clips: &mut Vec<AnimationClip>, start_frame: u32, end_frame: u32)
    requires
        start_frame <= end_frame,
        end_frame < u32::MAX,
        forall|i: int| 0 <= i < old(clips)@.len() ==> old(clips)@[i].wf(),
    ensures
        final(clips)@ == old(clips)@.push(AnimationClip { start_frame, end_frame }),
        forall|i: int| 0 <= i < final(clips)@.len() ==> final(clips)@[i].wf(),
{
    clips.push(AnimationClip { start_frame, end_frame });
}

/// The frame ranges of the 24 gestures on the standard sheet, in catalog
/// order.
pub open spec fn spec_standard_clips() -> Seq<AnimationClip> {
    seq![
        AnimationClip { start_frame: 0, end_frame: 20 },
        AnimationClip { start_frame: 20, end_frame: 62 },
        AnimationClip { start_frame: 63, end_frame: 86 },
        AnimationClip { start_frame: 86, end_frame: 135 },
        AnimationClip { start_frame: 135, end_frame: 194 },
        AnimationClip { start_frame: 194, end_frame: 217 },
        AnimationClip { start_frame: 217, end_frame: 233 },
        AnimationClip { start_frame: 233, end_frame: 249 },
        AnimationClip { start_frame: 249, end_frame: 267 },
        AnimationClip { start_frame: 267, end_frame: 306 },
        AnimationClip { start_frame: 306, end_frame: 343 },
        AnimationClip { start_frame: 343, end_frame: 359 },
        AnimationClip { start_frame: 359, end_frame: 416 },
        AnimationClip { start_frame: 416, end_frame: 434 },
        AnimationClip { start_frame: 434, end_frame: 497 },
        AnimationClip { start_frame: 512, end_frame: 535 },
        AnimationClip { start_frame: 535, end_frame: 554 },
        AnimationClip { start_frame: 554, end_frame: 613 },
        AnimationClip { start_frame: 613, end_frame: 698 },
        AnimationClip { start_frame: 698, end_frame: 717 },
        AnimationClip { start_frame: 718, end_frame: 735 },
        AnimationClip { start_frame: 735, end_frame: 790 },
        AnimationClip { start_frame: 790, end_frame: 821 },
        AnimationClip { start_frame: 822, end_frame: 885 },
    ]
}

/// The stock configuration: the catalog of 24 gestures on the standard
/// 27-column sheet, and the timing the shipped sprite runs with.
pub fn standard_config() -> (c: AnimationConfig)
    ensures
        c.wf(),
        c.frame_duration_ms == 75,
        c.idle_check_ms == 95,
        c.min_delay_ms == 9000,
        c.trigger_permille == 1000,
        c.frames_per_row == 27,
        c.clips@ == spec_standard_clips(),
{
    let mut clips: Vec<AnimationClip> = Vec::new();
    push_clip(&mut clips, 0, 20);
    push_clip(&mut clips, 20, 62);
    push_clip(&mut clips, 63, 86);
    push_clip(&mut clips, 86, 135);
    push_clip(&mut clips, 135, 194);
    push_clip(&mut clips, 194, 217);
    push_clip(&mut clips, 217, 233);
    push_clip(&mut clips, 233, 249);
    push_clip(&mut clips, 249, 267);
    push_clip(&mut clips, 267, 306);
    push_clip(&mut clips, 306, 343);
    push_clip(&mut clips, 343, 359);
    push_clip(&mut clips, 359, 416);
    push_clip(&mut clips, 416, 434);
    push_clip(&mut clips, 434, 497);
    push_clip(&mut clips, 512, 535);
    push_clip(&mut clips, 535, 554);
    push_clip(&mut clips, 554, 613);
    push_clip(&mut clips, 613, 698);
    push_clip(&mut clips, 698, 717);
    push_clip(&mut clips, 718, 735);
    push_clip(&mut clips, 735, 790);
    push_clip(&mut clips, 790, 821);
    push_clip(&mut clips, 822, 885);
    proof {
        assert(clips@ =~= spec_standard_clips());
    }
    AnimationConfig {
        frame_duration_ms: 75,
        idle_check_ms: 95,
        min_delay_ms: 9000,
        trigger_permille: 1000,
        frames_per_row: 27,
        clips,
    }
}

/// Milliseconds elapsed from `then` to `now` on a monotonic clock, clamped
/// at zero should a caller ever hand in an earlier reading.
pub open spec fn spec_elapsed(now: u64, then: u64) -> int {
    if now >= then {
        now - then
    } else {
        0
    }
}

/// Grid coordinate `(column, row)` of a linear frame index, given the number
/// of cells per sheet row.
pub open spec fn spec_grid(frames_per_row: u32, linear_frame: u32) -> (u32, u32) {
    (linear_frame % frames_per_row, linear_frame / frames_per_row)
}

/// One step of the frame-advance gate: a playing clip moves one frame
/// forward and finishes into `Cooldown` past its last frame; idle and
/// cooldown rest at their pose.
pub open spec fn spec_advanced(state: AnimationState) -> AnimationState {
    match state {
        AnimationState::Playing { clip, current_linear_frame } => {
            if current_linear_frame + 1 > clip.end_frame {
                AnimationState::Cooldown
            } else {
                AnimationState::Playing {
                    clip,
                    current_linear_frame: (current_linear_frame + 1) as u32,
                }
            }
        },
        _ => state,
    }
}

/// Whether the frame-advance step finishes the active clip.
pub open spec fn spec_finishes_clip(state: AnimationState) -> bool {
    match state {
        AnimationState::Playing { clip, current_linear_frame } => current_linear_frame + 1
            > clip.end_frame,
        _ => false,
    }
}

/// `n` frame-advance steps in a row.
pub open spec fn spec_advanced_n(state: AnimationState, n: nat) -> AnimationState
    decreases n,
{
    if n == 0 {
        state
    } else {
        spec_advanced(spec_advanced_n(state, (n - 1) as nat))
    }
}

/// A read-only snapshot of the controller for display surfaces: which state
/// it is in and, while a clip plays, how far along it is. Callers render it
/// however their toolkit likes.
#[derive(Clone, Copy, Debug, PartialEq, Eq, Structural)]
pub enum StateInfo {
    /// Resting at the idle pose.
    Idle,
    /// Waiting out the cooldown floor.
    Waiting,
    /// A clip in progress: its current cell, linear frame index, frames
    /// already shown and total length.
    Progress { row: u32, col: u32, linear_frame: u32, shown: u32, total: u32 },
}

/// The timer-driven state machine. All timestamps are monotonic clock
/// readings in milliseconds, owned by this instance so that several
/// controllers can run independently and tests can inject a clock.
pub struct Animation {
    pub config: AnimationConfig,
    pub state: AnimationState,
    pub last_frame_time: u64,
    pub last_idle_check: u64,
    pub last_animation_end: u64,
}

/// What the trigger gate decides once the controller is effectively idle:
/// with a draw under the trigger probability and a non-empty catalog, the
/// clip at `clip_index` starts at its first frame; otherwise the controller
/// settles in `Idle`.
pub open spec fn spec_idle_trigger(
    config: AnimationConfig,
    trigger_draw: u32,
    clip_index: int,
) -> AnimationState {
    if trigger_draw < config.trigger_permille && config.clips@.len() > 0 {
        let clip = config.clips@[clip_index];
        AnimationState::Playing { clip, current_linear_frame: clip.start_frame }
    } else {
        AnimationState::Idle
    }
}

/// The whole trigger gate: playing states are untouched; a cooldown younger
/// than the floor stays a cooldown; past the floor, and from idle, the
/// trigger decides.
pub open spec fn spec_triggered(
    a: Animation,
    now: u64,
    trigger_draw: u32,
    clip_index: int,
) -> AnimationState {
    match a.state {
        AnimationState::Playing { .. } => a.state,
        AnimationState::Cooldown => {
            if spec_elapsed(now, a.last_animation_end) < a.config.min_delay_ms {
                AnimationState::Cooldown
            } else {
                spec_idle_trigger(a.config, trigger_draw, clip_index)
            }
        },
        AnimationState::Idle => spec_idle_trigger(a.config, trigger_draw, clip_index),
    }
}

/// The controller after one full tick at `now` with the given random draws:
/// first the frame-advance gate, then the trigger gate.
pub open spec fn spec_ticked(a: Animation, now: u64, trigger_draw: u32, clip_index: int) -> Animation {
    let frame_gate_open = spec_elapsed(now, a.last_frame_time) >= a.config.frame_duration_ms;
    let a1 = if frame_gate_open {
        Animation {
            state: spec_advanced(a.state),
            last_frame_time: now,
            last_animation_end: if spec_finishes_clip(a.state) {
                now
            } else {
                a.last_animation_end
            },
            ..a
        }
    } else {
        a
    };
    let idle_gate_open = !(a1.state is Playing) && spec_elapsed(now, a1.last_idle_check)
        >= a1.config.idle_check_ms;
    if idle_gate_open {
        Animation {
            state: spec_triggered(a1, now, trigger_draw, clip_index),
            last_idle_check: now,
            ..a1
        }
    } else {
        a1
    }
}

/// The cell shown for a state: the rest pose `(0, 0)` while idle or cooling
/// down, the playing frame's grid cell otherwise.
pub open spec fn spec_coords(a: Animation) -> (u32, u32) {
    match a.state {
        AnimationState::Playing { current_linear_frame, .. } => spec_grid(
            a.config.frames_per_row,
            current_linear_frame,
        ),
        _ => (0u32, 0u32),
    }
}

impl Animation {
    /// The configuration is well formed and a playing frame index lies
    /// within its clip's range.
    pub open spec fn wf(self) -> bool {
        &&& self.config.wf()
        &&& match self.state {
            AnimationState::Playing { clip, current_linear_frame } => {
                &&& clip.wf()
                &&& clip.start_frame <= current_linear_frame <= clip.end_frame
            },
            _ => true,
        }
    }

    /// A fresh controller: idle, with every timer started at `now`.
    pub fn new(config: AnimationConfig, now: u64) -> (a: Animation)
        requires
            config.wf(),
        ensures
            a.wf(),
            a.config == config,
            a.state == AnimationState::Idle,
            a.last_frame_time == now,
            a.last_idle_check == now,
            a.last_animation_end == now,
    {
        Animation {
            config,
            state: AnimationState::Idle,
            last_frame_time: now,
            last_idle_check: now,
            last_animation_end: now,
        }
    }

    /// Grid coordinate `(column, row)` of a linear frame index.
    pub fn linear_to_grid(frames_per_row: u32, linear_frame: u32) -> (r: (u32, u32))
        requires
            frames_per_row >= 1,
        ensures
            r == spec_grid(frames_per_row, linear_frame),
            r.0 == linear_frame % frames_per_row,
            r.1 == linear_frame / frames_per_row,
    {
        (linear_frame % frames_per_row, linear_frame / frames_per_row)
    }

    /// One step of the frame-advance gate, recording `now` as the end of a
    /// clip that finishes on this step. Timers other than the clip-end one
    /// are left to the caller.
    pub fn advance_frame(&mut self, now: u64)
        requires
            old(self).wf(),
        ensures
            final(self).wf(),
            final(self).state == spec_advanced(old(self).state),
            final(self).last_animation_end == if spec_finishes_clip(old(self).state) {
                now
            } else {
                old(self).last_animation_end
            },
            final(self).config == old(self).config,
            final(self).last_frame_time == old(self).last_frame_time,
            final(self).last_idle_check == old(self).last_idle_check,
    {
        match self.state {
            AnimationState::Idle | AnimationState::Cooldown => {},
            AnimationState::Playing { clip, current_linear_frame } => {
                let new_frame = current_linear_frame + 1;
                if new_frame > clip.end_frame {
                    self.state = AnimationState::Cooldown;
                    self.last_animation_end = now;
                } else {
                    self.state = AnimationState::Playing { clip, current_linear_frame: new_frame };
                }
            },
        }
    }

    /// The trigger gate with its random draws handed in, so the decision is
    /// a pure function of its arguments: leaves a playing state alone, holds
    /// a cooldown younger than `min_delay_ms`, and otherwise starts the clip
    /// at `clip_index` exactly when `trigger_draw` falls under the trigger
    /// probability.
    pub fn maybe_start_animation_with(&mut self, now: u64, trigger_draw: u32, clip_index: usize)
        requires
            old(self).wf(),
            old(self).config.clips@.len() == 0 || clip_index < old(self).config.clips@.len(),
        ensures
            final(self).wf(),
            final(self).state == spec_triggered(*old(self), now, trigger_draw, clip_index as int),
            final(self).config == old(self).config,
            final(self).last_frame_time == old(self).last_frame_time,
            final(self).last_idle_check == old(self).last_idle_check,
            final(self).last_animation_end == old(self).last_animation_end,
    {
        match self.state {
            AnimationState::Playing { .. } => {
                return ;
            },
            AnimationState::Cooldown => {
                let elapsed = if now >= self.last_animation_end {
                    now - self.last_animation_end
                } else {
                    0
                };
                if elapsed < self.config.min_delay_ms {
                    return ;
                }
                self.state = AnimationState::Idle;
            },
            AnimationState::Idle => {},
        }
        if trigger_draw < self.config.trigger_permille && self.config.clips.len() > 0 {
            let clip = self.config.clips[clip_index];
            self.state = AnimationState::Playing { clip, current_linear_frame: clip.start_frame };
        } else {
            self.state = AnimationState::Idle;
        }
    }

    /// The trigger gate as the render loop calls it, drawing its own
    /// randomness. Whatever the draws, a playing state is untouched, a
    /// cooldown younger than the floor is held, any clip started comes from
    /// the catalog at its first frame, and with the trigger probability at
    /// its maximum an eligible controller always starts one.
    pub fn maybe_start_animation(&mut self, now: u64)
        requires
            old(self).wf(),
        ensures
            final(self).wf(),
            exists|t: u32, c: int|
                {
                    &&& t < 1000
                    &&& (0 <= c < old(self).config.clips@.len() || (old(
                        self,
                    ).config.clips@.len() == 0 && c == 0))
                    &&& final(self).state == spec_triggered(*old(self), now, t, c)
                },
            final(self).config == old(self).config,
            final(self).last_frame_time == old(self).last_frame_time,
            final(self).last_idle_check == old(self).last_idle_check,
            final(self).last_animation_end == old(self).last_animation_end,
    {
        let trigger_draw = random_below(1000) as u32;
        let clip_index = if self.config.clips.len() > 0 {
            random_below(self.config.clips.len())
        } else {
            0
        };
        self.maybe_start_animation_with(now, trigger_draw, clip_index);
    }

    /// One tick of the render loop with the random draws handed in: the
    /// deterministic heart of the controller. Returns the cell to display.
    pub fn update_with(&mut self, now: u64, trigger_draw: u32, clip_index: usize) -> (r: (
        u32,
        u32,
    ))
        requires
            old(self).wf(),
            old(self).config.clips@.len() == 0 || clip_index < old(self).config.clips@.len(),
        ensures
            final(self).wf(),
            *final(self) == spec_ticked(*old(self), now, trigger_draw, clip_index as int),
            r == spec_coords(*final(self)),
    {
        let frame_elapsed = if now >= self.last_frame_time {
            now - self.last_frame_time
        } else {
            0
        };
        if frame_elapsed >= self.config.frame_duration_ms {
            self.advance_frame(now);
            self.last_frame_time = now;
        }
        let in_rest = match self.state {
            AnimationState::Idle | AnimationState::Cooldown => true,
            AnimationState::Playing { .. } => false,
        };
        if in_rest {
            let idle_elapsed = if now >= self.last_idle_check {
                now - self.last_idle_check
            } else {
                0
            };
            if idle_elapsed >= self.config.idle_check_ms {
                self.maybe_start_animation_with(now, trigger_draw, clip_index);
                self.last_idle_check = now;
            }
        }
        self.get_sprite_coordinates()
    }

    /// One tick of the render loop at monotonic time `now`, drawing its own
    /// randomness: the result is the outcome of [`Self::update_with`] for
    /// some pair of in-range draws.
    pub fn update(&mut self, now: u64) -> (r: (u32, u32))
        requires
            old(self).wf(),
        ensures
            final(self).wf(),
            exists|t: u32, c: int|
                {
                    &&& t < 1000
                    &&& (0 <= c < old(self).config.clips@.len() || (old(
                        self,
                    ).config.clips@.len() == 0 && c == 0))
                    &&& *final(self) == spec_ticked(*old(self), now, t, c)
                },
            r == spec_coords(*final(self)),
    {
        let trigger_draw = random_below(1000) as u32;
        let clip_index = if self.config.clips.len() > 0 {
            random_below(self.config.clips.len())
        } else {
            0
        };
        self.update_with(now, trigger_draw, clip_index)
    }

    /// The cell currently on display: the rest pose `(0, 0)` unless a clip
    /// is playing.
    pub fn get_sprite_coordinates(&self) -> (r: (u32, u32))
        requires
            self.wf(),
        ensures
            r == spec_coords(*self),
    {
        match self.state {
            AnimationState::Idle | AnimationState::Cooldown => (0, 0),
            AnimationState::Playing { clip: _, current_linear_frame } => Self::linear_to_grid(
                self.config.frames_per_row,
                current_linear_frame,
            ),
        }
    }

    /// Whether a clip is in progress.
    pub fn is_playing(&self) -> (r: bool)
        ensures
            r == (self.state is Playing),
    {
        match self.state {
            AnimationState::Playing { .. } => true,
            _ => false,
        }
    }

    /// Milliseconds of the cooldown floor still to run at `now`: `Some`
    /// exactly while the controller is cooling down and the floor has not
    /// yet elapsed.
    pub fn time_until_next_animation(&self, now: u64) -> (r: Option<u64>)
        ensures
            match r {
                Some(left) => {
                    &&& self.state is Cooldown
                    &&& spec_elapsed(now, self.last_animation_end) < self.config.min_delay_ms
                    &&& left == self.config.min_delay_ms - spec_elapsed(
                        now,
                        self.last_animation_end,
                    )
                },
                None => !(self.state is Cooldown) || spec_elapsed(now, self.last_animation_end)
                    >= self.config.min_delay_ms,
            },
    {
        match self.state {
            AnimationState::Cooldown => {
                let elapsed = if now >= self.last_animation_end {
                    now - self.last_animation_end
                } else {
                    0
                };
                if elapsed < self.config.min_delay_ms {
                    Some(self.config.min_delay_ms - elapsed)
                } else {
                    None
                }
            },
            _ => None,
        }
    }

    /// A snapshot for display: idle, waiting, or the playing clip's cell and
    /// progress.
    pub fn get_current_state_info(&self) -> (r: StateInfo)
        requires
            self.wf(),
        ensures
            match self.state {
                AnimationState::Idle => r == StateInfo::Idle,
                AnimationState::Cooldown => r == StateInfo::Waiting,
                AnimationState::Playing { clip, current_linear_frame } => r
                    == (StateInfo::Progress {
                    row: spec_grid(self.config.frames_per_row, current_linear_frame).1,
                    col: spec_grid(self.config.frames_per_row, current_linear_frame).0,
                    linear_frame: current_linear_frame,
                    shown: (current_linear_frame - clip.start_frame) as u32,
                    total: clip.spec_length() as u32,
                }),
            },
    {
        match self.state {
            AnimationState::Idle => StateInfo::Idle,
            AnimationState::Cooldown => StateInfo::Waiting,
            AnimationState::Playing { clip, current_linear_frame } => {
                let (col, row) = Self::linear_to_grid(
                    self.config.frames_per_row,
                    current_linear_frame,
                );
                StateInfo::Progress {
                    row,
                    col,
                    linear_frame: current_linear_frame,
                    shown: current_linear_frame - clip.start_frame,
                    total: clip.length(),
                }
            },
        }
    }
}

/// Within both gate windows a tick is a no-op: when less than
/// `frame_duration_ms` has passed since the last frame advance and (unless a
/// clip is playing) less than `idle_check_ms` since the last trigger check,
/// the tick leaves the controller untouched and shows the same cell,
/// whatever the random draws.
pub proof fn lemma_tick_noop_within_gates(a: Animation, now: u64, trigger_draw: u32, clip_index: int)
    requires
        spec_elapsed(now, a.last_frame_time) < a.config.frame_duration_ms,
        !(a.state is Playing) ==> spec_elapsed(now, a.last_idle_check) < a.config.idle_check_ms,
    ensures
        spec_ticked(a, now, trigger_draw, clip_index) == a,
        spec_coords(spec_ticked(a, now, trigger_draw, clip_index)) == spec_coords(a),
{
}

/// Two consecutive ticks closer together than both gate intervals show the
/// same cell: if the first tick at `now1` fired its gates (so its timers read
/// `now1`), a second tick at `now2` within both intervals changes nothing,
/// whatever either tick's random draws were.
pub proof fn lemma_consecutive_ticks_same_frame(
    a: Animation,
    now1: u64,
    now2: u64,
    t1: u32,
    c1: int,
    t2: u32,
    c2: int,
)
    requires
        now1 <= now2,
        now2 - now1 < a.config.frame_duration_ms,
        now2 - now1 < a.config.idle_check_ms,
        spec_elapsed(now1, a.last_frame_time) >= a.config.frame_duration_ms,
        !(spec_ticked(a, now1, t1, c1).state is Playing) ==> spec_elapsed(now1, a.last_idle_check)
            >= a.config.idle_check_ms,
    ensures
        spec_ticked(spec_ticked(a, now1, t1, c1), now2, t2, c2) == spec_ticked(a, now1, t1, c1),
        spec_coords(spec_ticked(spec_ticked(a, now1, t1, c1), now2, t2, c2)) == spec_coords(
            spec_ticked(a, now1, t1, c1),
        ),
{
    let a1 = spec_ticked(a, now1, t1, c1);
    assert(a1.last_frame_time == now1);
    assert(!(a1.state is Playing) ==> a1.last_idle_check == now1);
    lemma_tick_noop_within_gates(a1, now2, t2, c2);
}

/// A forced trigger starts the chosen clip at its first frame: from `Idle`,
/// with the trigger-check gate open and a draw under the trigger
/// probability, the tick moves to `Playing` on the catalog clip at
/// `clip_index`, positioned at `start_frame`.
pub proof fn lemma_forced_trigger_starts_clip(
    a: Animation,
    now: u64,
    trigger_draw: u32,
    clip_index: int,
)
    requires
        a.state is Idle,
        spec_elapsed(now, a.last_frame_time) < a.config.frame_duration_ms,
        spec_elapsed(now, a.last_idle_check) >= a.config.idle_check_ms,
        trigger_draw < a.config.trigger_permille,
        0 <= clip_index < a.config.clips@.len(),
    ensures
        spec_ticked(a, now, trigger_draw, clip_index).state == (AnimationState::Playing {
            clip: a.config.clips@[clip_index],
            current_linear_frame: a.config.clips@[clip_index].start_frame,
        }),
{
}

/// Helper for the clip-length law: while fewer frame-advance steps have run
/// than frames remain, the clip is still playing and has moved exactly one
/// frame per step.
pub proof fn lemma_advance_n_within_clip(clip: AnimationClip, from: u32, n: nat)
    requires
        clip.wf(),
        clip.start_frame <= from <= clip.end_frame,
        n <= clip.end_frame - from,
    ensures
        spec_advanced_n(
            AnimationState::Playing { clip, current_linear_frame: from },
            n,
        ) == (AnimationState::Playing { clip, current_linear_frame: (from + n) as u32 }),
    decreases n,
{
    if n > 0 {
        lemma_advance_n_within_clip(clip, from, (n - 1) as nat);
    }
}

/// A playing clip reaches `Cooldown` after exactly as many frame-advance
/// steps as it has frames left: starting a clip of length `L` at its first
/// frame, the `L`-th step finishes it, and every earlier step leaves it
/// playing.
pub proof fn lemma_clip_plays_for_its_length(clip: AnimationClip, from: u32, n: nat)
    requires
        clip.wf(),
        clip.start_frame <= from <= clip.end_frame,
    ensures
        n <= clip.end_frame - from ==> spec_advanced_n(
            AnimationState::Playing { clip, current_linear_frame: from },
            n,
        ) is Playing,
        n == clip.end_frame - from + 1 ==> spec_advanced_n(
            AnimationState::Playing { clip, current_linear_frame: from },
            n,
        ) is Cooldown,
{
    if n <= clip.end_frame - from {
        lemma_advance_n_within_clip(clip, from, n);
    }
    if n == clip.end_frame - from + 1 {
        lemma_advance_n_within_clip(clip, from, (n - 1) as nat);
    }
}

/// Each tick whose frame gate is open moves a playing clip by exactly one
/// frame-advance step: together with the step lemmas above, a clip of length
/// `L` started at its first frame is still playing after any fewer such
/// ticks and cools down on the `L`-th. Needs a positive cooldown floor, or a
/// clip finishing on the tick could be replaced in the same tick.
pub proof fn lemma_tick_advances_playing(a: Animation, now: u64, trigger_draw: u32, clip_index: int)
    requires
        a.state is Playing,
        spec_elapsed(now, a.last_frame_time) >= a.config.frame_duration_ms,
        a.config.min_delay_ms > 0,
    ensures
        spec_ticked(a, now, trigger_draw, clip_index).state == spec_advanced(a.state),
{
}

/// The cooldown floor is hard: while less than `min_delay_ms` has passed
/// since the last clip ended, a tick leaves a cooling-down controller in
/// `Cooldown` with its clip-end timer untouched — whatever the random draws,
/// even with the trigger probability at its maximum.
pub proof fn lemma_cooldown_floor_holds(a: Animation, now: u64, trigger_draw: u32, clip_index: int)
    requires
        a.state is Cooldown,
        spec_elapsed(now, a.last_animation_end) < a.config.min_delay_ms,
    ensures
        spec_ticked(a, now, trigger_draw, clip_index).state is Cooldown,
        spec_ticked(a, now, trigger_draw, clip_index).last_animation_end == a.last_animation_end,
        spec_ticked(a, now, trigger_draw, clip_index).config == a.config,
{
}

/// The controller after a whole run of ticks, each a `(now, trigger_draw,
/// clip_index)` triple, applied in order.
pub open spec fn spec_ticked_seq(a: Animation, ticks: Seq<(u64, u32, int)>) -> Animation
    decreases ticks.len(),
{
    if ticks.len() == 0 {
        a
    } else {
        spec_ticked_seq(spec_ticked(a, ticks[0].0, ticks[0].1, ticks[0].2), ticks.drop_first())
    }
}

/// The cooldown floor holds under any number of ticks: as long as every tick
/// in the run happens before `min_delay_ms` has passed since the last clip
/// ended, a cooling-down controller never starts playing.
pub proof fn lemma_cooldown_floor_holds_throughout(a: Animation, ticks: Seq<(u64, u32, int)>)
    requires
        a.state is Cooldown,
        forall|i: int|
            0 <= i < ticks.len() ==> spec_elapsed(#[trigger] ticks[i].0, a.last_animation_end)
                < a.config.min_delay_ms,
    ensures
        spec_ticked_seq(a, ticks).state is Cooldown,
        spec_ticked_seq(a, ticks).last_animation_end == a.last_animation_end,
    decreases ticks.len(),
{
    if ticks.len() > 0 {
        let a1 = spec_ticked(a, ticks[0].0, ticks[0].1, ticks[0].2);
        lemma_cooldown_floor_holds(a, ticks[0].0, ticks[0].1, ticks[0].2);
        assert(forall|i: int|
            0 <= i < ticks.drop_first().len() ==> spec_elapsed(
                #[trigger] ticks.drop_first()[i].0,
                a1.last_animation_end,
            ) < a1.config.min_delay_ms);
        lemma_cooldown_floor_holds_throughout(a1, ticks.drop_first());
    }
}

} // verus!
