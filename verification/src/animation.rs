use vstd::prelude::*;

verus! {

/// A window sliding from a start to an end position over a number of frames.
#[derive(Clone, Copy, Debug, PartialEq, Eq, Structural)]
pub struct SlideAnim {
    pub window: u32,
    pub start_x: i32,
    pub end_x: i32,
    pub start_y: i32,
    pub end_y: i32,
    pub start_w: u16,
    pub end_w: u16,
    pub start_h: u16,
    pub end_h: u16,
    pub frame: u32,
    pub total_frames: u32,
}

/// The animation one frame further on, unless it has ended.
pub open spec fn advanced(a: SlideAnim) -> SlideAnim {
    if a.frame < a.total_frames {
        SlideAnim { frame: (a.frame + 1) as u32, ..a }
    } else {
        a
    }
}

/// The animation after `k` advances.
pub open spec fn advanced_times(a: SlideAnim, k: nat) -> SlideAnim
    decreases k,
{
    if k == 0 {
        a
    } else {
        advanced(advanced_times(a, (k - 1) as nat))
    }
}

impl SlideAnim {
    /// An animation of `window` from (`start_x`, `start_y`) to (`end_x`,
    /// `end_y`) at size `w` by `h`, at its first frame, lasting `frames`
    /// frames (at least one).
    pub fn new(window: u32, start_x: i32, start_y: i32, end_x: i32, end_y: i32, w: u16, h: u16, frames: u32) -> (a: Self)
        ensures
            a == (SlideAnim {
                window,
                start_x,
                end_x,
                start_y,
                end_y,
                start_w: w,
                end_w: w,
                start_h: h,
                end_h: h,
                frame: 0,
                total_frames: if frames >= 1 { frames } else { 1 },
            }),
    {
        SlideAnim {
            window,
            start_x,
            end_x,
            start_y,
            end_y,
            start_w: w,
            end_w: w,
            start_h: h,
            end_h: h,
            frame: 0,
            total_frames: if frames >= 1 { frames } else { 1 },
        }
    }

    /// Moves to the next frame, unless the animation has ended; tells whether
    /// frames remain.
    pub fn advance(&mut self) -> (more: bool)
        ensures
            *final(self) == advanced(*old(self)),
            more == (final(self).frame < final(self).total_frames),
    {
        if self.frame < self.total_frames {
            self.frame = self.frame + 1;
        }
        self.frame < self.total_frames
    }
}

/// An animation that has not run past its end reaches its last frame after
/// as many advances as it has frames left, and stays there.
pub proof fn lemma_animation_ends(a: SlideAnim, k: nat)
    requires
        a.frame <= a.total_frames,
        k >= a.total_frames - a.frame,
    ensures
        advanced_times(a, k).frame == a.total_frames,
        advanced_times(a, k).total_frames == a.total_frames,
    decreases k,
{
    if k > 0 {
        if k - 1 >= a.total_frames - a.frame {
            lemma_animation_ends(a, (k - 1) as nat);
        } else {
            lemma_animation_progress(a, (k - 1) as nat);
        }
    }
}

/// Before its end, each advance moves the animation exactly one frame on.
pub proof fn lemma_animation_progress(a: SlideAnim, k: nat)
    requires
        a.frame + k <= a.total_frames,
    ensures
        advanced_times(a, k).frame == a.frame + k,
        advanced_times(a, k).total_frames == a.total_frames,
    decreases k,
{
    if k > 0 {
        lemma_animation_progress(a, (k - 1) as nat);
    }
}

} // verus!
