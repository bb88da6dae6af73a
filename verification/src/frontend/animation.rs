//! Frame counters of the sprite animations. Time is kept by the caller: each
//! counter here says which frame comes next once a frame's time is up.

use vstd::prelude::*;
use vstd::string::StrSliceExecFns;

verus! {

/// What a piece is shown doing.
#[derive(Debug, Clone, Copy, PartialEq, Eq, Hash, Structural)]
pub enum AnimationState {
    Idle,
    Moving,
    Capturing,
    Selected,
}

impl AnimationState {
    /// The name of the state, as it occurs in the names of sprite files.
    pub open spec fn name(self) -> Seq<char> {
        match self {
            AnimationState::Idle => "idle"@,
            AnimationState::Moving => "moving"@,
            AnimationState::Capturing => "capturing"@,
            AnimationState::Selected => "selected"@,
        }
    }

    /// The state that `text` names; `Idle` where it names none.
    pub open spec fn named(text: Seq<char>) -> AnimationState {
        if text == "moving"@ {
            AnimationState::Moving
        } else if text == "capturing"@ {
            AnimationState::Capturing
        } else if text == "selected"@ {
            AnimationState::Selected
        } else {
            AnimationState::Idle
        }
    }

    /// The name of the state.
    pub fn as_str(&self) -> (text: &'static str)
        ensures
            text@ == self.name(),
    {
        match self {
            AnimationState::Idle => "idle",
            AnimationState::Moving => "moving",
            AnimationState::Capturing => "capturing",
            AnimationState::Selected => "selected",
        }
    }

    /// The state that `text` names; `Idle` where it names none.
    pub fn from_name(text: &str) -> (state: AnimationState)
        ensures
            state == AnimationState::named(text@),
    {
        if same_text(text, "moving") {
            AnimationState::Moving
        } else if same_text(text, "capturing") {
            AnimationState::Capturing
        } else if same_text(text, "selected") {
            AnimationState::Selected
        } else {
            AnimationState::Idle
        }
    }

    /// The name of a state names that state.
    pub proof fn lemma_name_reads_back(self)
        ensures
            AnimationState::named(self.name()) == self,
    {
        reveal_strlit("idle");
        reveal_strlit("moving");
        reveal_strlit("capturing");
        reveal_strlit("selected");
        assert("idle"@.len() == 4);
        assert("moving"@.len() == 6);
        assert("capturing"@.len() == 9);
        assert("selected"@.len() == 8);
    }
}

impl<'a> From<&'a str> for AnimationState {
    /// The state that `text` names; `Idle` where it names none.
    fn from(text: &'a str) -> (state: Self) {
        AnimationState::from_name(text)
    }
}

impl<'a> vstd::std_specs::convert::FromSpecImpl<&'a str> for AnimationState {
    open spec fn obeys_from_spec() -> bool {
        true
    }

    open spec fn from_spec(text: &'a str) -> Self {
        AnimationState::named(text@)
    }
}

/// Whether two texts hold the same characters.
pub fn same_text(a: &str, b: &str) -> (same: bool)
    ensures
        same == (a@ == b@),
{
    let n = a.unicode_len();
    if n != b.unicode_len() {
        return false;
    }
    let mut i: usize = 0;
    while i < n
        invariant
            i <= n,
            n == a@.len(),
            n == b@.len(),
            forall|j: int| 0 <= j < i ==> a@[j] == b@[j],
        decreases n - i,
    {
        if a.get_char(i) != b.get_char(i) {
            return false;
        }
        i += 1;
    }
    assert(a@ =~= b@);
    true
}

/// Counts the frames of an animation that plays once or in a loop.
#[derive(Debug, Clone, Copy, PartialEq, Eq, Structural)]
pub struct PieceAnimator {
    pub current_frame: usize,
    pub looping: bool,
    pub finished: bool,
}

impl PieceAnimator {
    /// The counter after a frame's time is up, for an animation of
    /// `frame_count` frames: one frame further; past the last frame a loop
    /// starts again at frame 0, and an animation that plays once stays on its
    /// last frame and is finished. A finished animation that plays once
    /// stays as it is.
    pub open spec fn after_advance(self, frame_count: usize) -> PieceAnimator {
        if self.finished && !self.looping {
            self
        } else if self.current_frame + 1 >= frame_count {
            if self.looping {
                PieceAnimator { current_frame: 0, looping: true, finished: self.finished }
            } else {
                PieceAnimator {
                    current_frame: if frame_count == 0 {
                        0
                    } else {
                        (frame_count - 1) as usize
                    },
                    looping: false,
                    finished: true,
                }
            }
        } else {
            PieceAnimator {
                current_frame: (self.current_frame + 1) as usize,
                looping: self.looping,
                finished: self.finished,
            }
        }
    }

    /// A counter on frame 0, not finished.
    pub fn new(looping: bool) -> (animator: PieceAnimator)
        ensures
            animator == (PieceAnimator { current_frame: 0, looping, finished: false }),
    {
        PieceAnimator { current_frame: 0, looping, finished: false }
    }

    /// Whether the animation still runs: it loops, or has not finished.
    pub fn is_running(&self) -> (running: bool)
        ensures
            running == !(self.finished && !self.looping),
    {
        !(self.finished && !self.looping)
    }

    /// Moves on by one frame; to be called when a frame's time is up.
    pub fn advance(&mut self, frame_count: usize)
        ensures
            *final(self) == old(self).after_advance(frame_count),
    {
        if self.finished && !self.looping {
            return ;
        }
        if self.current_frame >= frame_count || self.current_frame + 1 >= frame_count {
            if self.looping {
                self.current_frame = 0;
            } else {
                self.current_frame = if frame_count == 0 {
                    0
                } else {
                    frame_count - 1
                };
                self.finished = true;
            }
        } else {
            self.current_frame = self.current_frame + 1;
        }
    }

    pub fn current_frame(&self) -> (frame: usize)
        ensures
            frame == self.current_frame,
    {
        self.current_frame
    }

    pub fn is_finished(&self) -> (finished: bool)
        ensures
            finished == self.finished,
    {
        self.finished
    }

    /// Back to frame 0, not finished.
    pub fn reset(&mut self)
        ensures
            *final(self) == (PieceAnimator {
                current_frame: 0,
                looping: old(self).looping,
                finished: false,
            }),
    {
        self.current_frame = 0;
        self.finished = false;
    }

    /// The frame to show of an animation of `frame_count` frames, if the
    /// counter stands on one of them.
    pub fn frame_in(&self, frame_count: usize) -> (frame: Option<usize>)
        ensures
            frame == (if self.current_frame < frame_count {
                Some(self.current_frame)
            } else {
                None
            }),
    {
        if self.current_frame < frame_count {
            Some(self.current_frame)
        } else {
            None
        }
    }
}

/// Counts the frames of an animation that runs forth and back.
#[derive(Debug, Clone, Copy, PartialEq, Eq, Structural)]
pub struct PieceAnimationState {
    pub current_frame: usize,
    pub direction: i32,
}

impl PieceAnimationState {
    /// The counter after a frame's time is up, for an animation of
    /// `total_frames` frames. It steps by its direction; where that would
    /// pass the last frame it turns back and stands on the frame before the
    /// last, and where that would pass the first it turns forth and stands
    /// on the second frame, or on the only one. Without frames nothing
    /// changes.
    pub open spec fn after_step(self, total_frames: usize) -> PieceAnimationState {
        let next = self.current_frame + self.direction;
        if total_frames == 0 {
            self
        } else if next >= total_frames {
            PieceAnimationState {
                current_frame: if total_frames >= 2 {
                    (total_frames - 2) as usize
                } else {
                    0
                },
                direction: -1i32,
            }
        } else if next < 0 {
            PieceAnimationState {
                current_frame: if total_frames >= 2 {
                    1
                } else {
                    0
                },
                direction: 1i32,
            }
        } else {
            PieceAnimationState { current_frame: next as usize, direction: self.direction }
        }
    }

    /// A counter on frame 0 that steps forth.
    pub fn new() -> (state: PieceAnimationState)
        ensures
            state == (PieceAnimationState { current_frame: 0, direction: 1 }),
    {
        PieceAnimationState { current_frame: 0, direction: 1 }
    }

    /// Moves on by one frame; to be called when a frame's time is up.
    pub fn step(&mut self, total_frames: usize)
        ensures
            *final(self) == old(self).after_step(total_frames),
    {
        if total_frames == 0 {
            return ;
        }
        let next: i128 = self.current_frame as i128 + self.direction as i128;
        if next >= total_frames as i128 {
            self.direction = -1;
            self.current_frame = if total_frames >= 2 {
                total_frames - 2
            } else {
                0
            };
        } else if next < 0 {
            self.direction = 1;
            self.current_frame = if total_frames >= 2 {
                1
            } else {
                0
            };
        } else {
            self.current_frame = next as usize;
        }
    }

    /// Once the counter stands within an animation and steps by one, it
    /// stays within it.
    pub proof fn lemma_step_stays_within(self, total_frames: usize)
        requires
            self.current_frame < total_frames,
            self.direction == 1 || self.direction == -1,
        ensures
            self.after_step(total_frames).current_frame < total_frames,
            self.after_step(total_frames).direction == 1 || self.after_step(
                total_frames,
            ).direction == -1,
    {
    }
}

/// Counts the frames of a morph, which plays once.
#[derive(Debug, Clone, Copy, PartialEq, Eq, Structural)]
pub struct MorphAnimation {
    pub frame_count: usize,
    pub current_index: usize,
    pub finished: bool,
}

impl MorphAnimation {
    /// The counter after a frame's time is up: one frame further, and
    /// finished on the last frame once it would pass that.
    pub open spec fn after_advance(self) -> MorphAnimation {
        if self.finished {
            self
        } else if self.current_index + 1 >= self.frame_count {
            MorphAnimation {
                frame_count: self.frame_count,
                current_index: if self.frame_count == 0 {
                    0
                } else {
                    (self.frame_count - 1) as usize
                },
                finished: true,
            }
        } else {
            MorphAnimation {
                frame_count: self.frame_count,
                current_index: (self.current_index + 1) as usize,
                finished: false,
            }
        }
    }

    /// A counter on the first of `frame_count` frames.
    pub fn new(frame_count: usize) -> (morph: MorphAnimation)
        ensures
            morph == (MorphAnimation { frame_count, current_index: 0, finished: false }),
    {
        MorphAnimation { frame_count, current_index: 0, finished: false }
    }

    /// Moves on by one frame; to be called when a frame's time is up.
    pub fn advance(&mut self)
        ensures
            *final(self) == old(self).after_advance(),
    {
        if self.finished {
            return ;
        }
        if self.current_index >= self.frame_count || self.current_index + 1 >= self.frame_count {
            self.current_index = if self.frame_count == 0 {
                0
            } else {
                self.frame_count - 1
            };
            self.finished = true;
        } else {
            self.current_index = self.current_index + 1;
        }
    }

    pub fn is_finished(&self) -> (finished: bool)
        ensures
            finished == self.finished,
    {
        self.finished
    }
}

} // verus!
