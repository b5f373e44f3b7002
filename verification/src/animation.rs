use vstd::prelude::*;

verus! {

/// One frame of an animation: which cell of the texture atlas to show, and
/// for how long.
#[derive(Clone, Copy, Debug, PartialEq, Eq, Structural)]
pub struct AnimationFrame {
    pub atlas_index: usize,
    pub duration_nanos: u64,
}

/// An animation: its frames, shown one after the other, then again from the
/// first.
#[derive(Clone, Debug)]
pub struct Animation {
    pub frames: Vec<AnimationFrame>,
}

/// The animations a sprite can play, by number.
#[derive(Clone, Debug)]
pub struct Animations {
    pub animations: Vec<Animation>,
}

/// Where a sprite is in its animations.
#[derive(Clone, Copy, Debug, PartialEq, Eq, Structural)]
pub struct Animator {
    pub current_animation: usize,
    pub last_animation: usize,
    pub current_frame: usize,
}

impl Default for Animator {
    fn default() -> (a: Animator)
        ensures
            a == (Animator { current_animation: 0, last_animation: 0, current_frame: 0 }),
    {
        Animator { current_animation: 0, last_animation: 0, current_frame: 0 }
    }
}

/// What the animation system asks of the renderer for one sprite.
#[derive(Clone, Copy, Debug, PartialEq, Eq, Structural)]
pub enum AnimationStep {
    /// The frame's time has not run out: nothing changes, and the system
    /// stops for this tick without looking at the sprites after this one.
    Stop,
    /// The animator moved on, but there is no frame to show: the current
    /// animation does not exist or is empty.
    Unchanged,
    /// Show this frame and restart the timer with the frame's duration.
    Show(AnimationFrame),
}

impl Animations {
    /// The frames of animation `animation`; none when there is no such animation.
    pub open spec fn frames(&self, animation: usize) -> Seq<AnimationFrame> {
        if animation < self.animations@.len() {
            self.animations@[animation as int].frames@
        } else {
            Seq::empty()
        }
    }
}

impl Animator {
    /// The animator after one step of the animation system.
    pub open spec fn stepped(self, animations: &Animations, timer_finished: bool) -> Animator {
        if !timer_finished && self.last_animation == self.current_animation {
            self
        } else if self.current_animation < animations.animations@.len() {
            Animator {
                last_animation: self.current_animation,
                current_frame: if self.current_frame + 1 < animations.frames(
                    self.current_animation,
                ).len() {
                    (self.current_frame + 1) as usize
                } else {
                    0
                },
                ..self
            }
        } else {
            Animator { last_animation: self.current_animation, ..self }
        }
    }

    /// What one step of the animation system asks of the renderer.
    pub open spec fn step(self, animations: &Animations, timer_finished: bool) -> AnimationStep {
        if !timer_finished && self.last_animation == self.current_animation {
            AnimationStep::Stop
        } else {
            let frames = animations.frames(self.current_animation);
            let next = self.stepped(animations, timer_finished).current_frame;
            if self.current_animation < animations.animations@.len() && next < frames.len() {
                AnimationStep::Show(frames[next as int])
            } else {
                AnimationStep::Unchanged
            }
        }
    }
}

/// Steps the animation of one sprite, given whether the timer of its current
/// frame has run out. While the timer runs and the animation is the one
/// played last, nothing changes and the result is `Stop`. Otherwise the
/// animator notes the animation as the one played last and moves to the next
/// frame, or to the first after the last; the result is the frame to show.
pub fn sprite_animation_system(
    animations: &Animations,
    animator: &mut Animator,
    timer_finished: bool,
) -> (step: AnimationStep)
    ensures
        *final(animator) == old(animator).stepped(animations, timer_finished),
        step == old(animator).step(animations, timer_finished),
{
    if !timer_finished && animator.last_animation == animator.current_animation {
        return AnimationStep::Stop;
    }
    animator.last_animation = animator.current_animation;
    if animator.current_animation < animations.animations.len() {
        let frames = &animations.animations[animator.current_animation].frames;
        animator.current_frame = if frames.len() > 0 && animator.current_frame < frames.len() - 1 {
            animator.current_frame + 1
        } else {
            0
        };
        if animator.current_frame < frames.len() {
            return AnimationStep::Show(frames[animator.current_frame]);
        }
    }
    AnimationStep::Unchanged
}

} // verus!
