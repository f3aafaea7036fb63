use gif_editor::cancel::{CancelFlag, NeverCancel};
use gif_editor::ids::FrameId;
use gif_editor::motion::MotionProgress;
use gif_editor::motion_course::{
    BakeCourse, BakeStep, CrossfadeCourse, CrossfadeStep, FreezeCourse, InkCourse, StillStep,
};
use std::sync::atomic::AtomicBool;

#[test]
fn a_crossfade_mixes_until_only_the_first_frame_is_left() {
    let mut course = CrossfadeCourse::new(2);
    let mut steps = Vec::new();
    let mut told = Vec::new();
    loop {
        let step = course.next(&NeverCancel).unwrap();
        steps.push(step);
        if step == CrossfadeStep::Finish {
            break;
        }
        told.extend(course.done());
    }
    assert_eq!(
        steps,
        [
            CrossfadeStep::First,
            CrossfadeStep::Last,
            CrossfadeStep::Blend { step: 1, of: 2 },
            CrossfadeStep::Blend { step: 2, of: 2 },
            CrossfadeStep::Finish
        ]
    );
    assert_eq!(
        told,
        [MotionProgress { completed: 1, total: 2 }, MotionProgress { completed: 2, total: 2 }]
    );
}

#[test]
fn a_bake_starts_with_the_kept_picture() {
    let mut course = BakeCourse::new(2);
    assert_eq!(course.next(&NeverCancel), Ok(BakeStep::Baseline));
    assert_eq!(course.done(), None);
    assert_eq!(course.next(&NeverCancel), Ok(BakeStep::Bake(0)));
    assert_eq!(course.done(), Some(MotionProgress { completed: 1, total: 2 }));
    let raised = AtomicBool::new(true);
    assert!(course.next(&CancelFlag { flag: &raised }).unwrap_err().contains("cancelled"));
    assert_eq!(course.next(&NeverCancel), Ok(BakeStep::Bake(1)));
    assert_eq!(course.done(), Some(MotionProgress { completed: 2, total: 2 }));
    assert_eq!(course.next(&NeverCancel), Ok(BakeStep::Finish));
}

#[test]
fn a_frozen_picture_is_stored_last() {
    let frames = vec![FrameId::from_u128(1), FrameId::from_u128(2)];
    let mut course = FreezeCourse::new(frames, FrameId::from_u128(2));
    let mut steps = Vec::new();
    let mut told = Vec::new();
    loop {
        let step = course.next(&NeverCancel).unwrap();
        steps.push(step);
        if step == StillStep::Finish {
            break;
        }
        told.extend(course.done());
    }
    assert_eq!(
        steps,
        [
            StillStep::Picture,
            StillStep::Try,
            StillStep::Render(0),
            StillStep::Pass(1),
            StillStep::Store,
            StillStep::Finish
        ]
    );
    assert_eq!(
        told,
        [MotionProgress { completed: 1, total: 2 }, MotionProgress { completed: 2, total: 2 }]
    );
}

#[test]
fn an_ink_picture_is_stored_last() {
    let mut course = InkCourse::new(2);
    let mut steps = Vec::new();
    let mut told = Vec::new();
    loop {
        let step = course.next(&NeverCancel).unwrap();
        steps.push(step);
        if step == StillStep::Finish {
            break;
        }
        told.extend(course.done());
    }
    assert_eq!(
        steps,
        [
            StillStep::Render(0),
            StillStep::Render(1),
            StillStep::Picture,
            StillStep::Try,
            StillStep::Store,
            StillStep::Finish
        ]
    );
    assert_eq!(told.iter().map(|told| told.completed).collect::<Vec<_>>(), [0, 1, 2]);
    let raised = AtomicBool::new(true);
    let course = InkCourse::new(1);
    assert!(course.next(&CancelFlag { flag: &raised }).is_err());
}
