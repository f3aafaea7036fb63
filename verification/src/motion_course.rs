//! The course of motion edits: what is rendered, tried and stored, one after the other.
use crate::cancel::CancellationToken;
use crate::ids::FrameId;
use crate::motion::MotionProgress;
use crate::motion_pixels;
use crate::motion_pixels::check_cancelled;
use vstd::prelude::*;

verus! {

/// What a crossfade needs next.
#[derive(Clone, Copy, Debug, PartialEq, Eq, Structural)]
pub enum CrossfadeStep {
    /// The picture of the first frame.
    First,
    /// The picture of the last frame.
    Last,
    /// A mixture of the last frame with the first.
    Blend {
        /// How far it has come.
        step: u16,
        /// Where it ends.
        of: u16,
    },
    /// Nothing.
    Finish,
}

/// The course of a crossfade.
#[derive(Clone, Copy, Debug, PartialEq, Eq, Structural)]
pub struct CrossfadeCourse {
    /// How many mixtures there are.
    pub count: u16,
    /// How many of the two frames are rendered.
    pub ends: u8,
    /// How many mixtures are made.
    pub made: u16,
}

impl CrossfadeCourse {
    /// Whether the course is in a state that it can reach.
    pub open spec fn wf(self) -> bool {
        &&& self.ends <= 2
        &&& self.made <= self.count
        &&& self.made > 0 ==> self.ends == 2
    }

    /// What is needed next.
    pub open spec fn step(self) -> CrossfadeStep {
        if self.ends == 0 {
            CrossfadeStep::First
        } else if self.ends == 1 {
            CrossfadeStep::Last
        } else if self.made < self.count {
            CrossfadeStep::Blend { step: (self.made + 1) as u16, of: self.count }
        } else {
            CrossfadeStep::Finish
        }
    }

    /// How many steps are left.
    pub open spec fn left(self) -> int {
        2 - self.ends + self.count - self.made
    }

    /// A course that has not begun.
    pub fn new(count: u16) -> (course: CrossfadeCourse)
        ensures
            course == (CrossfadeCourse { count, ends: 0, made: 0 }),
            course.wf(),
    {
        CrossfadeCourse { count, ends: 0, made: 0 }
    }

    /// What is needed next, unless the edit is to stop before another mixture.
    pub fn next<C: CancellationToken>(&self, cancellation: &C) -> (result: Result<CrossfadeStep, String>)
        requires
            self.wf(),
        ensures
            match result {
                Ok(step) => step == self.step() && (cancellation.must_cancel() ==> step !is Blend),
                Err(message) => cancellation.may_cancel() && self.step() is Blend && message@
                    == motion_pixels::stopped(),
            },
    {
        if self.ends == 0 {
            return Ok(CrossfadeStep::First);
        }
        if self.ends == 1 {
            return Ok(CrossfadeStep::Last);
        }
        if self.made < self.count {
            check_cancelled(cancellation)?;
            return Ok(CrossfadeStep::Blend { step: self.made + 1, of: self.count });
        }
        Ok(CrossfadeStep::Finish)
    }

    /// Notes that the step was taken, and how far the edit has come where that is told.
    pub fn done(&mut self) -> (progress: Option<MotionProgress>)
        requires
            old(self).wf(),
            old(self).step() !is Finish,
        ensures
            final(self).wf(),
            final(self).left() == old(self).left() - 1,
            final(self).count == old(self).count,
            match old(self).step() {
                CrossfadeStep::Blend { .. } => {
                    &&& final(self).made == old(self).made + 1
                    &&& progress == Some(
                        MotionProgress { completed: final(self).made as usize, total: final(self).count as usize },
                    )
                },
                _ => {
                    &&& final(self).ends == old(self).ends + 1
                    &&& progress is None
                },
            },
    {
        if self.ends < 2 {
            self.ends = self.ends + 1;
            None
        } else {
            self.made = self.made + 1;
            Some(MotionProgress { completed: self.made as usize, total: self.count as usize })
        }
    }
}

/// The last mixture of a crossfade is all of the first frame, and no other is; each goes one step
/// further than the one before it.
pub proof fn law_a_crossfade_ends_on_the_first_frame(course: CrossfadeCourse)
    requires
        course.wf(),
        course.step() is Blend,
    ensures
        course.step() matches CrossfadeStep::Blend { step, of } && {
            &&& of == course.count
            &&& step == course.made + 1
            &&& 0 < step <= of
            &&& (step == of <==> course.left() == 1)
        },
{
}

/// What a rectangular cinemagraph needs next.
#[derive(Clone, Copy, Debug, PartialEq, Eq, Structural)]
pub enum BakeStep {
    /// The picture that is kept.
    Baseline,
    /// The picture of the frame at a position, with the kept part.
    Bake(usize),
    /// Nothing.
    Finish,
}

/// The course of a rectangular cinemagraph.
#[derive(Clone, Copy, Debug, PartialEq, Eq, Structural)]
pub struct BakeCourse {
    /// How many frames there are.
    pub total: usize,
    /// Whether the picture that is kept is rendered.
    pub baseline: bool,
    /// How many frames are baked.
    pub baked: usize,
}

impl BakeCourse {
    /// Whether the course is in a state that it can reach.
    pub open spec fn wf(self) -> bool {
        &&& self.baked <= self.total
        &&& self.baked > 0 ==> self.baseline
    }

    /// What is needed next.
    pub open spec fn step(self) -> BakeStep {
        if !self.baseline {
            BakeStep::Baseline
        } else if self.baked < self.total {
            BakeStep::Bake(self.baked)
        } else {
            BakeStep::Finish
        }
    }

    /// A course that has not begun.
    pub fn new(total: usize) -> (course: BakeCourse)
        ensures
            course == (BakeCourse { total, baseline: false, baked: 0 }),
            course.wf(),
    {
        BakeCourse { total, baseline: false, baked: 0 }
    }

    /// What is needed next, unless the edit is to stop before another frame.
    pub fn next<C: CancellationToken>(&self, cancellation: &C) -> (result: Result<BakeStep, String>)
        requires
            self.wf(),
        ensures
            match result {
                Ok(step) => step == self.step() && (cancellation.must_cancel() ==> step !is Bake),
                Err(message) => cancellation.may_cancel() && self.step() is Bake && message@
                    == motion_pixels::stopped(),
            },
    {
        if !self.baseline {
            return Ok(BakeStep::Baseline);
        }
        if self.baked < self.total {
            check_cancelled(cancellation)?;
            return Ok(BakeStep::Bake(self.baked));
        }
        Ok(BakeStep::Finish)
    }

    /// Notes that the step was taken, and how far the edit has come where that is told.
    pub fn done(&mut self) -> (progress: Option<MotionProgress>)
        requires
            old(self).wf(),
            old(self).step() !is Finish,
        ensures
            final(self).wf(),
            *final(self) == (match old(self).step() {
                BakeStep::Bake(at) => BakeCourse { baked: (at + 1) as usize, ..*old(self) },
                _ => BakeCourse { baseline: true, ..*old(self) },
            }),
            progress == (match old(self).step() {
                BakeStep::Bake(at) => Some(
                    MotionProgress { completed: (at + 1) as usize, total: old(self).total },
                ),
                _ => None,
            }),
    {
        if !self.baseline {
            self.baseline = true;
            None
        } else {
            self.baked = self.baked + 1;
            Some(MotionProgress { completed: self.baked, total: self.total })
        }
    }
}

/// What an edit that shows a still picture needs next.
#[derive(Clone, Copy, Debug, PartialEq, Eq, Structural)]
pub enum StillStep {
    /// The still picture.
    Picture,
    /// The whole edit, tried on a copy of the project.
    Try,
    /// The frame at a position, rendered to see that it can be.
    Render(usize),
    /// The frame at a position, which needs no rendering.
    Pass(usize),
    /// The still picture, stored.
    Store,
    /// Nothing.
    Finish,
}

/// The course of an edit that freezes a region: the still picture, the trial, the frames, and only
/// then the store.
#[derive(Debug)]
pub struct FreezeCourse {
    /// The frames.
    pub frames: Vec<FrameId>,
    /// The frame that the still picture was rendered from.
    pub current: FrameId,
    /// Whether the still picture is rendered.
    pub pictured: bool,
    /// Whether the edit was tried.
    pub tried: bool,
    /// How many frames are through.
    pub seen: usize,
    /// Whether the still picture is stored.
    pub stored: bool,
}

impl FreezeCourse {
    /// Whether the course is in a state that it can reach.
    pub open spec fn wf(self) -> bool {
        &&& self.seen <= self.frames@.len()
        &&& self.tried ==> self.pictured
        &&& self.seen > 0 ==> self.tried
        &&& self.stored ==> self.tried && self.seen == self.frames@.len()
    }

    /// What is needed next.
    pub open spec fn step(self) -> StillStep {
        if !self.pictured {
            StillStep::Picture
        } else if !self.tried {
            StillStep::Try
        } else if self.seen < self.frames@.len() {
            if self.frames@[self.seen as int] == self.current {
                StillStep::Pass(self.seen)
            } else {
                StillStep::Render(self.seen)
            }
        } else if !self.stored {
            StillStep::Store
        } else {
            StillStep::Finish
        }
    }

    /// A course that has not begun.
    pub fn new(frames: Vec<FrameId>, current: FrameId) -> (course: FreezeCourse)
        ensures
            course == (FreezeCourse { frames, current, pictured: false, tried: false, seen: 0, stored: false }),
            course.wf(),
    {
        FreezeCourse { frames, current, pictured: false, tried: false, seen: 0, stored: false }
    }

    /// What is needed next, unless the edit is to stop before another frame or the store.
    pub fn next<C: CancellationToken>(&self, cancellation: &C) -> (result: Result<StillStep, String>)
        requires
            self.wf(),
        ensures
            match result {
                Ok(step) => {
                    &&& step == self.step()
                    &&& cancellation.must_cancel() ==> !(step is Pass || step is Render || step is Store)
                },
                Err(message) => cancellation.may_cancel() && message@ == motion_pixels::stopped() && (self.step()
                    is Pass || self.step() is Render || self.step() is Store),
            },
    {
        if !self.pictured {
            return Ok(StillStep::Picture);
        }
        if !self.tried {
            return Ok(StillStep::Try);
        }
        if self.seen < self.frames.len() {
            check_cancelled(cancellation)?;
            if self.frames[self.seen] == self.current {
                return Ok(StillStep::Pass(self.seen));
            }
            return Ok(StillStep::Render(self.seen));
        }
        if !self.stored {
            check_cancelled(cancellation)?;
            return Ok(StillStep::Store);
        }
        Ok(StillStep::Finish)
    }

    /// Notes that the step was taken, and how far the edit has come where that is told.
    pub fn done(&mut self) -> (progress: Option<MotionProgress>)
        requires
            old(self).wf(),
            old(self).step() !is Finish,
        ensures
            final(self).wf(),
            *final(self) == (match old(self).step() {
                StillStep::Picture => FreezeCourse { pictured: true, ..*old(self) },
                StillStep::Try => FreezeCourse { tried: true, ..*old(self) },
                StillStep::Store => FreezeCourse { stored: true, ..*old(self) },
                _ => FreezeCourse { seen: (old(self).seen + 1) as usize, ..*old(self) },
            }),
            progress == (match old(self).step() {
                StillStep::Pass(at) | StillStep::Render(at) => Some(
                    MotionProgress { completed: (at + 1) as usize, total: old(self).frames@.len() as usize },
                ),
                _ => None,
            }),
    {
        if !self.pictured {
            self.pictured = true;
            return None;
        }
        if !self.tried {
            self.tried = true;
            return None;
        }
        let total: usize = self.frames.len();
        if self.seen < total {
            self.seen = self.seen + 1;
            return Some(MotionProgress { completed: self.seen, total });
        }
        self.stored = true;
        None
    }
}

/// The course of an edit that keeps the first frame around drawn ink: the frames, the clipped
/// picture, the trial, and only then the store.
#[derive(Clone, Copy, Debug, PartialEq, Eq, Structural)]
pub struct InkCourse {
    /// How many frames there are.
    pub total: usize,
    /// How many are rendered.
    pub seen: usize,
    /// Whether the clipped picture is made.
    pub pictured: bool,
    /// Whether the edit was tried.
    pub tried: bool,
    /// Whether the clipped picture is stored.
    pub stored: bool,
}

impl InkCourse {
    /// Whether the course is in a state that it can reach.
    pub open spec fn wf(self) -> bool {
        &&& self.seen <= self.total
        &&& self.pictured ==> self.seen == self.total
        &&& self.tried ==> self.pictured
        &&& self.stored ==> self.tried
    }

    /// What is needed next.
    pub open spec fn step(self) -> StillStep {
        if self.seen < self.total {
            StillStep::Render(self.seen)
        } else if !self.pictured {
            StillStep::Picture
        } else if !self.tried {
            StillStep::Try
        } else if !self.stored {
            StillStep::Store
        } else {
            StillStep::Finish
        }
    }

    /// A course that has not begun.
    pub fn new(total: usize) -> (course: InkCourse)
        ensures
            course == (InkCourse { total, seen: 0, pictured: false, tried: false, stored: false }),
            course.wf(),
    {
        InkCourse { total, seen: 0, pictured: false, tried: false, stored: false }
    }

    /// What is needed next, unless the edit is to stop before another frame or the store.
    pub fn next<C: CancellationToken>(&self, cancellation: &C) -> (result: Result<StillStep, String>)
        requires
            self.wf(),
        ensures
            match result {
                Ok(step) => {
                    &&& step == self.step()
                    &&& cancellation.must_cancel() ==> !(step is Render || step is Store)
                },
                Err(message) => cancellation.may_cancel() && message@ == motion_pixels::stopped() && (self.step()
                    is Render || self.step() is Store),
            },
    {
        if self.seen < self.total {
            check_cancelled(cancellation)?;
            return Ok(StillStep::Render(self.seen));
        }
        if !self.pictured {
            return Ok(StillStep::Picture);
        }
        if !self.tried {
            return Ok(StillStep::Try);
        }
        if !self.stored {
            check_cancelled(cancellation)?;
            return Ok(StillStep::Store);
        }
        Ok(StillStep::Finish)
    }

    /// Notes that the step was taken, and how far the edit has come where that is told. Only the
    /// store completes the last frame.
    pub fn done(&mut self) -> (progress: Option<MotionProgress>)
        requires
            old(self).wf(),
            old(self).step() !is Finish,
        ensures
            final(self).wf(),
            *final(self) == (match old(self).step() {
                StillStep::Render(at) => InkCourse { seen: (at + 1) as usize, ..*old(self) },
                StillStep::Picture => InkCourse { pictured: true, ..*old(self) },
                StillStep::Try => InkCourse { tried: true, ..*old(self) },
                _ => InkCourse { stored: true, ..*old(self) },
            }),
            progress == (match old(self).step() {
                StillStep::Render(at) => Some(MotionProgress { completed: at, total: old(self).total }),
                StillStep::Store => Some(MotionProgress { completed: old(self).total, total: old(self).total }),
                _ => None,
            }),
    {
        if self.seen < self.total {
            let at: usize = self.seen;
            self.seen = at + 1;
            return Some(MotionProgress { completed: at, total: self.total });
        }
        if !self.pictured {
            self.pictured = true;
            return None;
        }
        if !self.tried {
            self.tried = true;
            return None;
        }
        self.stored = true;
        Some(MotionProgress { completed: self.total, total: self.total })
    }
}

/// A still picture is stored only after the whole edit was tried on a copy of the project and every
/// selected frame was found to render.
pub proof fn law_a_still_picture_is_stored_last(freeze: FreezeCourse, ink: InkCourse)
    requires
        freeze.wf(),
        ink.wf(),
    ensures
        freeze.step() is Store || freeze.stored ==> freeze.pictured && freeze.tried && freeze.seen
            == freeze.frames@.len(),
        ink.step() is Store || ink.stored ==> ink.pictured && ink.tried && ink.seen == ink.total,
{
}

/// A crossfade renders the first frame and the last one, blends as many pictures as were asked for, from
/// the first share to the whole, and is over then.
pub proof fn law_a_crossfade_blends_every_share(course: CrossfadeCourse)
    requires
        course.wf(),
    ensures
        course.step() is First <==> course.ends == 0,
        course.step() is Last <==> course.ends == 1,
        course.step() is Blend <==> course.ends == 2 && course.made < course.count,
        course.step() matches CrossfadeStep::Blend { step, of } ==> step == course.made + 1 && of == course.count,
        course.step() is Finish <==> course.ends == 2 && course.made == course.count,
        course.left() == (2 - course.ends) + (course.count - course.made),
{
}

/// Baking renders the baseline first, then bakes every frame in order, and is over then.
pub proof fn law_every_frame_is_baked_in_order(course: BakeCourse)
    requires
        course.wf(),
    ensures
        course.step() is Baseline <==> !course.baseline,
        course.step() matches BakeStep::Bake(at) ==> at == course.baked && at < course.total,
        course.step() is Finish <==> course.baseline && course.baked == course.total,
{
}

/// Freezing makes its picture, tries it, goes through all frames in order, rendering each but the current
/// one, and stores the picture at the end.
pub proof fn law_freezing_renders_all_but_the_current_frame(course: FreezeCourse)
    requires
        course.wf(),
    ensures
        course.step() is Picture <==> !course.pictured,
        course.step() is Try <==> course.pictured && !course.tried,
        course.step() matches StillStep::Pass(at) ==> at == course.seen && course.frames@[at as int] == course.current,
        course.step() matches StillStep::Render(at) ==> at == course.seen && course.frames@[at as int]
            != course.current,
        course.step() is Pass || course.step() is Render <==> course.tried && course.seen < course.frames@.len(),
        course.step() is Store <==> course.tried && course.seen == course.frames@.len() && !course.stored,
        course.step() is Finish <==> course.stored,
{
}

/// Drawing renders all frames in order, then makes its picture, tries it and stores it.
pub proof fn law_drawing_renders_all_frames_first(course: InkCourse)
    requires
        course.wf(),
    ensures
        course.step() matches StillStep::Render(at) ==> at == course.seen,
        course.step() is Render <==> course.seen < course.total,
        course.step() is Picture <==> course.seen == course.total && !course.pictured,
        course.step() is Try <==> course.pictured && !course.tried,
        course.step() is Store <==> course.tried && !course.stored,
        course.step() is Finish <==> course.stored,
        !(course.step() is Pass),
{
}

} // verus!
