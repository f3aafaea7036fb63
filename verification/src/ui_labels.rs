//! The words on the controls.
use crate::content::{BlendMode, OverlayContent};
use crate::project::{SlideDirection, Transition, TransitionKind};
use crate::text;
use crate::text::{append_decimal, append_padded};
use crate::ui_state::{
    DuplicateDelayMode, DuplicateFrameRetention, EffectChoice, ReduceDelayMode, ShapeOverlayChoice,
    TransitionChoice, YoyoScope,
};
use vstd::prelude::*;
use vstd::string::{StrSliceExecFns, StringExecFns};

verus! {

/// What becomes of the time of dropped frames, in words.
pub fn reduce_delay_label(mode: ReduceDelayMode) -> (label: &'static str)
    ensures
        label@ == (match mode {
            ReduceDelayMode::DontAdjust => "Shorten timing"@,
            ReduceDelayMode::Previous => "Add delay to previous"@,
            ReduceDelayMode::Evenly => "Distribute delay evenly"@,
        }),
{
    match mode {
        ReduceDelayMode::DontAdjust => "Shorten timing",
        ReduceDelayMode::Previous => "Add delay to previous",
        ReduceDelayMode::Evenly => "Distribute delay evenly",
    }
}

/// What is played back and forth, in words.
pub fn yoyo_scope_label(scope: YoyoScope) -> (label: &'static str)
    ensures
        label@ == (match scope {
            YoyoScope::Selection => "Selection"@,
            YoyoScope::EntireTimeline => "Entire timeline"@,
        }),
{
    match scope {
        YoyoScope::Selection => "Selection",
        YoyoScope::EntireTimeline => "Entire timeline",
    }
}

/// Which duplicate stays, in words.
pub fn duplicate_retention_label(retention: DuplicateFrameRetention) -> (label: &'static str)
    ensures
        label@ == (match retention {
            DuplicateFrameRetention::First => "Keep first"@,
            DuplicateFrameRetention::Last => "Keep last"@,
        }),
{
    match retention {
        DuplicateFrameRetention::First => "Keep first",
        DuplicateFrameRetention::Last => "Keep last",
    }
}

/// How long the frame that stays is shown, in words.
pub fn duplicate_delay_label(mode: DuplicateDelayMode) -> (label: &'static str)
    ensures
        label@ == (match mode {
            DuplicateDelayMode::Keep => "Keep delay"@,
            DuplicateDelayMode::Sum => "Sum delay"@,
            DuplicateDelayMode::Average => "Average delay"@,
        }),
{
    match mode {
        DuplicateDelayMode::Keep => "Keep delay",
        DuplicateDelayMode::Sum => "Sum delay",
        DuplicateDelayMode::Average => "Average delay",
    }
}

/// The name of an effect.
pub fn effect_choice_label(choice: EffectChoice) -> (label: &'static str)
    ensures
        label@ == (match choice {
            EffectChoice::Blur => "Blur"@,
            EffectChoice::Pixelate => "Pixelate"@,
            EffectChoice::Darken => "Darken"@,
            EffectChoice::Lighten => "Lighten"@,
            EffectChoice::Border => "Border"@,
            EffectChoice::Shadow => "Shadow"@,
        }),
{
    match choice {
        EffectChoice::Blur => "Blur",
        EffectChoice::Pixelate => "Pixelate",
        EffectChoice::Darken => "Darken",
        EffectChoice::Lighten => "Lighten",
        EffectChoice::Border => "Border",
        EffectChoice::Shadow => "Shadow",
    }
}

/// The name of a transition.
pub open spec fn choice_name(choice: TransitionChoice) -> Seq<char> {
    match choice {
        TransitionChoice::FadeToNext => "Fade to next"@,
        TransitionChoice::FadeToColor => "Fade to RGBA"@,
        TransitionChoice::SlideLeft => "Slide left"@,
        TransitionChoice::SlideRight => "Slide right"@,
        TransitionChoice::SlideUp => "Slide up"@,
        TransitionChoice::SlideDown => "Slide down"@,
    }
}

/// The name of a transition.
pub fn transition_choice_label(choice: TransitionChoice) -> (label: &'static str)
    ensures
        label@ == choice_name(choice),
{
    match choice {
        TransitionChoice::FadeToNext => "Fade to next",
        TransitionChoice::FadeToColor => "Fade to RGBA",
        TransitionChoice::SlideLeft => "Slide left",
        TransitionChoice::SlideRight => "Slide right",
        TransitionChoice::SlideUp => "Slide up",
        TransitionChoice::SlideDown => "Slide down",
    }
}

/// The name of a shape.
pub fn shape_overlay_choice_label(choice: ShapeOverlayChoice) -> (label: &'static str)
    ensures
        label@ == (match choice {
            ShapeOverlayChoice::Line => "Line"@,
            ShapeOverlayChoice::Arrow => "Arrow"@,
            ShapeOverlayChoice::Rectangle => "Rectangle"@,
            ShapeOverlayChoice::Ellipse => "Ellipse"@,
        }),
{
    match choice {
        ShapeOverlayChoice::Line => "Line",
        ShapeOverlayChoice::Arrow => "Arrow",
        ShapeOverlayChoice::Rectangle => "Rectangle",
        ShapeOverlayChoice::Ellipse => "Ellipse",
    }
}

/// The name of a way to blend.
pub fn blend_mode_label(mode: BlendMode) -> (label: &'static str)
    ensures
        label@ == (match mode {
            BlendMode::Normal => "Normal"@,
            BlendMode::Multiply => "Multiply"@,
            BlendMode::Screen => "Screen"@,
        }),
{
    match mode {
        BlendMode::Normal => "Normal",
        BlendMode::Multiply => "Multiply",
        BlendMode::Screen => "Screen",
    }
}

/// The name of what a layer shows.
pub open spec fn content_name(content: OverlayContent) -> Seq<char> {
    match content {
        OverlayContent::Raster { .. } => "Raster"@,
        OverlayContent::Text { .. } => "Text"@,
        OverlayContent::Shape { .. } => "Shape"@,
        OverlayContent::Drawing { .. } => "Drawing"@,
        OverlayContent::KeyStroke { .. } => "Key stroke"@,
        OverlayContent::Cursor { .. } => "Cursor"@,
        OverlayContent::MouseClick { .. } => "Mouse click"@,
        OverlayContent::Progress { .. } => "Progress"@,
    }
}

/// The name of what a layer shows.
pub fn overlay_content_label(content: &OverlayContent) -> (label: &'static str)
    ensures
        label@ == content_name(*content),
{
    match content {
        OverlayContent::Raster { .. } => "Raster",
        OverlayContent::Text { .. } => "Text",
        OverlayContent::Shape { .. } => "Shape",
        OverlayContent::Drawing { .. } => "Drawing",
        OverlayContent::KeyStroke { .. } => "Key stroke",
        OverlayContent::Cursor { .. } => "Cursor",
        OverlayContent::MouseClick { .. } => "Mouse click",
        OverlayContent::Progress { .. } => "Progress",
    }
}

/// A time in seconds, exact to the microsecond.
pub open spec fn duration_text(duration_us: int) -> Seq<char> {
    text::decimal(duration_us / 1_000_000) + "."@ + text::padded(duration_us % 1_000_000, 6) + " s"@
}

/// Writes a time in seconds, exact to the microsecond.
pub fn format_duration_us(duration_us: u64) -> (label: String)
    ensures
        label@ == duration_text(duration_us as int),
{
    let mut label = "".to_owned();
    proof {
        reveal_strlit("");
    }
    append_decimal(&mut label, duration_us / 1_000_000);
    label.append(".");
    append_padded(&mut label, duration_us % 1_000_000, 6);
    label.append(" s");
    assert(label@ =~= duration_text(duration_us as int));
    label
}

/// A time that may be missing.
pub open spec fn optional_duration_text(duration_us: Option<u64>) -> Seq<char> {
    match duration_us {
        Some(us) => duration_text(us as int),
        None => "None"@,
    }
}

/// Writes a time that may be missing.
pub fn format_optional_duration(duration_us: Option<u64>) -> (label: String)
    ensures
        label@ == optional_duration_text(duration_us),
{
    match duration_us {
        Some(us) => format_duration_us(us),
        None => "None".to_owned(),
    }
}

/// The choice that leads to a transition.
pub open spec fn choice_of(kind: TransitionKind) -> TransitionChoice {
    match kind {
        TransitionKind::FadeToNext => TransitionChoice::FadeToNext,
        TransitionKind::FadeToColor { .. } => TransitionChoice::FadeToColor,
        TransitionKind::Slide { direction: SlideDirection::Left } => TransitionChoice::SlideLeft,
        TransitionKind::Slide { direction: SlideDirection::Right } => TransitionChoice::SlideRight,
        TransitionKind::Slide { direction: SlideDirection::Up } => TransitionChoice::SlideUp,
        TransitionKind::Slide { direction: SlideDirection::Down } => TransitionChoice::SlideDown,
    }
}

/// The name of what a transition does: that of its choice.
fn transition_label(kind: TransitionKind) -> (label: &'static str)
    ensures
        label@ == choice_name(choice_of(kind)),
{
    transition_choice_label(
        match kind {
            TransitionKind::FadeToNext => TransitionChoice::FadeToNext,
            TransitionKind::FadeToColor { .. } => TransitionChoice::FadeToColor,
            TransitionKind::Slide { direction } => match direction {
                SlideDirection::Left => TransitionChoice::SlideLeft,
                SlideDirection::Right => TransitionChoice::SlideRight,
                SlideDirection::Up => TransitionChoice::SlideUp,
                SlideDirection::Down => TransitionChoice::SlideDown,
            },
        },
    )
}

/// What is told of the current frame's transition.
pub open spec fn transition_summary(transition: Transition) -> Seq<char> {
    "Current outgoing: "@ + choice_name(choice_of(transition.kind)) + " \u{b7} "@ + text::decimal(
        transition.steps as int,
    ) + " step(s) \u{b7} "@ + text::decimal(transition.duration@) + " \u{b5}s added"@
}

/// Writes what is told of the current frame's transition.
pub fn format_transition_summary(transition: &Transition) -> (label: String)
    ensures
        label@ == transition_summary(*transition),
{
    let mut label = "Current outgoing: ".to_owned();
    label.append(transition_label(transition.kind));
    label.append(" \u{b7} ");
    append_decimal(&mut label, transition.steps as u64);
    label.append(" step(s) \u{b7} ");
    append_decimal(&mut label, transition.duration.get());
    label.append(" \u{b5}s added");
    label
}

/// A duration is written in seconds with six decimals, which together write its microseconds.
pub proof fn law_durations_are_written_in_seconds(duration_us: int)
    requires
        0 <= duration_us,
    ensures
        ({
            let whole = text::decimal(duration_us / 1_000_000);
            let part = text::padded(duration_us % 1_000_000, 6);
            &&& duration_text(duration_us) == whole + "."@ + part + " s"@
            &&& part.len() == 6
            &&& 1_000_000 * text::number_written(whole) + text::number_written(part) == duration_us
        }),
{
    text::law_numbers_are_written_in_digits(duration_us / 1_000_000);
    text::law_padded_numbers_are_written_in_digits(duration_us % 1_000_000, 6);
}

/// Every kind of transition has its own choice, whatever colour it has.
pub proof fn law_every_transition_has_its_choice(kind: TransitionKind)
    ensures
        match choice_of(kind) {
            TransitionChoice::FadeToNext => kind is FadeToNext,
            TransitionChoice::FadeToColor => kind is FadeToColor,
            TransitionChoice::SlideLeft => kind == (TransitionKind::Slide { direction: SlideDirection::Left }),
            TransitionChoice::SlideRight => kind == (TransitionKind::Slide { direction: SlideDirection::Right }),
            TransitionChoice::SlideUp => kind == (TransitionKind::Slide { direction: SlideDirection::Up }),
            TransitionChoice::SlideDown => kind == (TransitionKind::Slide { direction: SlideDirection::Down }),
        },
{
}

/// No two choices have one name.
pub proof fn law_choices_have_their_own_names(one: TransitionChoice, other: TransitionChoice)
    requires
        choice_name(one) == choice_name(other),
    ensures
        one == other,
{
    reveal_strlit("Fade to next");
    reveal_strlit("Fade to RGBA");
    reveal_strlit("Slide left");
    reveal_strlit("Slide right");
    reveal_strlit("Slide up");
    reveal_strlit("Slide down");
    assert("Fade to next"@.len() == 12 && "Fade to RGBA"@.len() == 12 && "Slide left"@.len() == 10);
    assert("Slide right"@.len() == 11 && "Slide up"@.len() == 8 && "Slide down"@.len() == 10);
    assert("Fade to next"@[8] == 'n' && "Fade to RGBA"@[8] == 'R');
    assert("Slide left"@[6] == 'l' && "Slide down"@[6] == 'd');
}

} // verus!
