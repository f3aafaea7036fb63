//! Builds typed edits out of what the controls hold.
use crate::content::{ContentView, OverlayContent, ShapeKind, StrokePoint};
use crate::frames::{EdgeWidths, Effect};
use crate::geometry::{PhysicalRect, PhysicalSize, Rgba};
use crate::project::{SlideDirection, TransitionKind};
use crate::text;
use crate::text::{append_decimal, characters, join, trim};
use crate::time::{DurationUs, TimeUs};
use crate::ui_input;
use crate::ui_input::parse_input;
use crate::ui_state::{
    DrawingOverlayDraft, EditorUiState, EffectChoice, ShapeOverlayChoice, ShapeOverlayUiState,
    TransitionChoice, MAX_DRAWING_DRAFT_POINTS,
};
use crate::value::copy_all;
use vstd::prelude::*;
use vstd::string::{StrSliceExecFns, StringExecFns};

verus! {

/// The limits that the renderer sets.
#[derive(Clone, Copy, Debug, PartialEq, Eq, Structural)]
pub struct EditorLimits {
    /// The most frames that one transition can have.
    pub max_transition_steps: u16,
    /// The largest blur radius.
    pub max_blur_radius: u16,
}

/// What a time field in milliseconds says, in microseconds.
pub open spec fn time_ms(written: Seq<char>) -> Result<TimeUs, Seq<char>> {
    match ui_input::input::<u64>(written, "time in milliseconds"@) {
        Ok(milliseconds) => if milliseconds * 1_000 <= u64::MAX {
            Ok(TimeUs { us: (milliseconds * 1_000) as u64 })
        } else {
            Err("time in milliseconds is too large"@)
        },
        Err(message) => Err(message),
    }
}

/// Reads a time in milliseconds.
pub fn parse_time_ms(written: &str) -> (result: Result<TimeUs, String>)
    ensures
        text::told(result) == time_ms(written@),
{
    match parse_input::<u64>(written, "time in milliseconds") {
        Ok(milliseconds) => match milliseconds.checked_mul(1_000) {
            Some(us) => Ok(TimeUs::new(us)),
            None => Err("time in milliseconds is too large".to_owned()),
        },
        Err(message) => Err(message),
    }
}

/// What the two fields of a range of time say.
pub open spec fn time_range(state: EditorUiState) -> Result<(TimeUs, TimeUs), Seq<char>> {
    match time_ms(state.time_range_start_ms_input@) {
        Ok(start) => match time_ms(state.time_range_end_ms_input@) {
            Ok(end) => Ok((start, end)),
            Err(message) => Err(message),
        },
        Err(message) => Err(message),
    }
}

/// Reads a range of time.
pub fn parse_time_range(state: &EditorUiState) -> (result: Result<(TimeUs, TimeUs), String>)
    ensures
        text::told(result) == time_range(*state),
{
    let start: TimeUs = match parse_time_ms(state.time_range_start_ms_input.as_str()) {
        Ok(start) => start,
        Err(message) => return Err(message),
    };
    match parse_time_ms(state.time_range_end_ms_input.as_str()) {
        Ok(end) => Ok((start, end)),
        Err(message) => Err(message),
    }
}

/// What a field says that must hold a positive number.
pub open spec fn positive(written: Seq<char>, label: Seq<char>, refusal: Seq<char>) -> Result<int, Seq<char>> {
    match ui_input::input::<u64>(written, label) {
        Ok(us) => if us > 0 {
            Ok(us as int)
        } else {
            Err(refusal)
        },
        Err(message) => Err(message),
    }
}

fn parse_positive(written: &str, label: &str, refusal: &str) -> (result: Result<DurationUs, String>)
    ensures
        text::seen(result) == positive(written@, label@, refusal@),
{
    match parse_input::<u64>(written, label) {
        Ok(us) => match DurationUs::new(us) {
            Some(duration) => Ok(duration),
            None => Err(refusal.to_owned()),
        },
        Err(message) => Err(message),
    }
}

/// What a field says that holds how long to show a frame.
pub open spec fn duration_us(written: Seq<char>) -> Result<int, Seq<char>> {
    positive(written, "frame delay in microseconds"@, "frame delay must be positive"@)
}

/// Reads how long to show a frame.
pub fn parse_duration_us(written: &str) -> (result: Result<DurationUs, String>)
    ensures
        text::seen(result) == duration_us(written@),
{
    parse_positive(written, "frame delay in microseconds", "frame delay must be positive")
}

/// What a field says that holds one frame in how many is kept.
pub open spec fn keep_every(written: Seq<char>) -> Result<usize, Seq<char>> {
    match ui_input::input::<usize>(written, "reduce interval"@) {
        Ok(interval) => if interval < 2 {
            Err("reduce interval must be at least 2"@)
        } else {
            Ok(interval)
        },
        Err(message) => Err(message),
    }
}

/// Reads one frame in how many is kept.
pub fn parse_keep_every(written: &str) -> (result: Result<usize, String>)
    ensures
        text::told(result) == keep_every(written@),
{
    match parse_input::<usize>(written, "reduce interval") {
        Ok(interval) => if interval < 2 {
            Err("reduce interval must be at least 2".to_owned())
        } else {
            Ok(interval)
        },
        Err(message) => Err(message),
    }
}

/// What a field says that holds a similarity in percent.
pub open spec fn similarity_threshold(written: Seq<char>) -> Result<u8, Seq<char>> {
    match ui_input::input::<u8>(written, "duplicate similarity threshold"@) {
        Ok(threshold) => if threshold > 100 {
            Err("duplicate similarity threshold must be between 0 and 100"@)
        } else {
            Ok(threshold)
        },
        Err(message) => Err(message),
    }
}

/// Reads a similarity in percent.
pub fn parse_similarity_threshold(written: &str) -> (result: Result<u8, String>)
    ensures
        text::told(result) == similarity_threshold(written@),
{
    match parse_input::<u8>(written, "duplicate similarity threshold") {
        Ok(threshold) => if threshold > 100 {
            Err("duplicate similarity threshold must be between 0 and 100".to_owned())
        } else {
            Ok(threshold)
        },
        Err(message) => Err(message),
    }
}

/// What four fields say, where the first fault counts.
pub open spec fn four<T>(
    first: Result<T, Seq<char>>,
    second: Result<T, Seq<char>>,
    third: Result<T, Seq<char>>,
    fourth: Result<T, Seq<char>>,
) -> Result<(T, T, T, T), Seq<char>> {
    match first {
        Err(message) => Err(message),
        Ok(a) => match second {
            Err(message) => Err(message),
            Ok(b) => match third {
                Err(message) => Err(message),
                Ok(c) => match fourth {
                    Err(message) => Err(message),
                    Ok(d) => Ok((a, b, c, d)),
                },
            },
        },
    }
}

/// What four fields say that hold a rectangle.
pub open spec fn rectangle(
    fields: Result<(u32, u32, u32, u32), Seq<char>>,
    refusal: Seq<char>,
) -> Result<PhysicalRect, Seq<char>> {
    match fields {
        Err(message) => Err(message),
        Ok((x, y, width, height)) => match PhysicalRect::of(x, y, width, height) {
            Ok(rect) => Ok(rect),
            Err(error) => Err(refusal + error.words()),
        },
    }
}

/// What four fields say that hold a colour.
pub open spec fn color(fields: Result<(u8, u8, u8, u8), Seq<char>>) -> Result<Rgba, Seq<char>> {
    match fields {
        Err(message) => Err(message),
        Ok((red, green, blue, alpha)) => Ok(Rgba { red, green, blue, alpha }),
    }
}

/// What the fields of the crop say.
pub open spec fn crop(state: EditorUiState) -> Result<PhysicalRect, Seq<char>> {
    rectangle(
        four(
            ui_input::input::<u32>(state.crop_x_input@, "crop X"@),
            ui_input::input::<u32>(state.crop_y_input@, "crop Y"@),
            ui_input::input::<u32>(state.crop_width_input@, "crop width"@),
            ui_input::input::<u32>(state.crop_height_input@, "crop height"@),
        ),
        "invalid crop: "@,
    )
}

/// Reads the crop.
pub fn parse_crop(state: &EditorUiState) -> (result: Result<PhysicalRect, String>)
    ensures
        text::told(result) == crop(*state),
{
    let x: u32 = match parse_input::<u32>(state.crop_x_input.as_str(), "crop X") {
        Ok(value) => value,
        Err(message) => return Err(message),
    };
    let y: u32 = match parse_input::<u32>(state.crop_y_input.as_str(), "crop Y") {
        Ok(value) => value,
        Err(message) => return Err(message),
    };
    let width: u32 = match parse_input::<u32>(state.crop_width_input.as_str(), "crop width") {
        Ok(value) => value,
        Err(message) => return Err(message),
    };
    let height: u32 = match parse_input::<u32>(state.crop_height_input.as_str(), "crop height") {
        Ok(value) => value,
        Err(message) => return Err(message),
    };
    match PhysicalRect::new(x, y, width, height) {
        Ok(rect) => Ok(rect),
        Err(error) => Err(join("invalid crop: ", error.text())),
    }
}

/// What the fields of the region of an effect say.
pub open spec fn effect_region(state: EditorUiState) -> Result<PhysicalRect, Seq<char>> {
    rectangle(
        four(
            ui_input::input::<u32>(state.effect_region_x_input@, "effect region X"@),
            ui_input::input::<u32>(state.effect_region_y_input@, "effect region Y"@),
            ui_input::input::<u32>(state.effect_region_width_input@, "effect region width"@),
            ui_input::input::<u32>(state.effect_region_height_input@, "effect region height"@),
        ),
        "invalid effect region: "@,
    )
}

/// Reads the region of an effect.
pub fn parse_effect_region(state: &EditorUiState) -> (result: Result<PhysicalRect, String>)
    ensures
        text::told(result) == effect_region(*state),
{
    let x: u32 = match parse_input::<u32>(state.effect_region_x_input.as_str(), "effect region X") {
        Ok(value) => value,
        Err(message) => return Err(message),
    };
    let y: u32 = match parse_input::<u32>(state.effect_region_y_input.as_str(), "effect region Y") {
        Ok(value) => value,
        Err(message) => return Err(message),
    };
    let width: u32 = match parse_input::<u32>(state.effect_region_width_input.as_str(), "effect region width") {
        Ok(value) => value,
        Err(message) => return Err(message),
    };
    let height: u32 = match parse_input::<u32>(state.effect_region_height_input.as_str(), "effect region height") {
        Ok(value) => value,
        Err(message) => return Err(message),
    };
    match PhysicalRect::new(x, y, width, height) {
        Ok(rect) => Ok(rect),
        Err(error) => Err(join("invalid effect region: ", error.text())),
    }
}

/// What the fields of the output size say.
pub open spec fn output_size(state: EditorUiState) -> Result<PhysicalSize, Seq<char>> {
    match ui_input::input::<u32>(state.resize_width_input@, "resize width"@) {
        Err(message) => Err(message),
        Ok(width) => match ui_input::input::<u32>(state.resize_height_input@, "resize height"@) {
            Err(message) => Err(message),
            Ok(height) => match PhysicalSize::of(width, height) {
                Ok(size) => Ok(size),
                Err(error) => Err("invalid resize: "@ + error.words()),
            },
        },
    }
}

/// Reads the output size.
pub fn parse_output_size(state: &EditorUiState) -> (result: Result<PhysicalSize, String>)
    ensures
        text::told(result) == output_size(*state),
{
    let width: u32 = match parse_input::<u32>(state.resize_width_input.as_str(), "resize width") {
        Ok(value) => value,
        Err(message) => return Err(message),
    };
    let height: u32 = match parse_input::<u32>(state.resize_height_input.as_str(), "resize height") {
        Ok(value) => value,
        Err(message) => return Err(message),
    };
    match PhysicalSize::new(width, height) {
        Ok(size) => Ok(size),
        Err(error) => Err(join("invalid resize: ", error.text())),
    }
}

/// What the fields of the colour of a transition say.
pub open spec fn transition_color(state: EditorUiState) -> Result<Rgba, Seq<char>> {
    color(four(
        ui_input::input::<u8>(state.transition_color_red_input@, "transition red"@),
        ui_input::input::<u8>(state.transition_color_green_input@, "transition green"@),
        ui_input::input::<u8>(state.transition_color_blue_input@, "transition blue"@),
        ui_input::input::<u8>(state.transition_color_alpha_input@, "transition alpha"@),
    ))
}

/// Reads the colour of a transition.
pub fn parse_transition_color(state: &EditorUiState) -> (result: Result<Rgba, String>)
    ensures
        text::told(result) == transition_color(*state),
{
    let red: u8 = match parse_input::<u8>(state.transition_color_red_input.as_str(), "transition red") {
        Ok(value) => value,
        Err(message) => return Err(message),
    };
    let green: u8 = match parse_input::<u8>(state.transition_color_green_input.as_str(), "transition green") {
        Ok(value) => value,
        Err(message) => return Err(message),
    };
    let blue: u8 = match parse_input::<u8>(state.transition_color_blue_input.as_str(), "transition blue") {
        Ok(value) => value,
        Err(message) => return Err(message),
    };
    let alpha: u8 = match parse_input::<u8>(state.transition_color_alpha_input.as_str(), "transition alpha") {
        Ok(value) => value,
        Err(message) => return Err(message),
    };
    Ok(Rgba { red, green, blue, alpha })
}

/// What the fields of the colour of an effect say.
pub open spec fn effect_color(state: EditorUiState) -> Result<Rgba, Seq<char>> {
    match color(four(
        ui_input::input::<u8>(state.effect_color_red_input@, "effect red"@),
        ui_input::input::<u8>(state.effect_color_green_input@, "effect green"@),
        ui_input::input::<u8>(state.effect_color_blue_input@, "effect blue"@),
        ui_input::input::<u8>(state.effect_color_alpha_input@, "effect alpha"@),
    )) {
        Ok(color) => if color.alpha == 0 {
            Err("effect color alpha must be positive"@)
        } else {
            Ok(color)
        },
        Err(message) => Err(message),
    }
}

/// Reads the colour of an effect.
pub fn parse_effect_color(state: &EditorUiState) -> (result: Result<Rgba, String>)
    ensures
        text::told(result) == effect_color(*state),
{
    let red: u8 = match parse_input::<u8>(state.effect_color_red_input.as_str(), "effect red") {
        Ok(value) => value,
        Err(message) => return Err(message),
    };
    let green: u8 = match parse_input::<u8>(state.effect_color_green_input.as_str(), "effect green") {
        Ok(value) => value,
        Err(message) => return Err(message),
    };
    let blue: u8 = match parse_input::<u8>(state.effect_color_blue_input.as_str(), "effect blue") {
        Ok(value) => value,
        Err(message) => return Err(message),
    };
    let alpha: u8 = match parse_input::<u8>(state.effect_color_alpha_input.as_str(), "effect alpha") {
        Ok(value) => value,
        Err(message) => return Err(message),
    };
    if alpha == 0 {
        return Err("effect color alpha must be positive".to_owned());
    }
    Ok(Rgba { red, green, blue, alpha })
}

/// What the field of an effect's number says, counted from zero.
pub open spec fn effect_index(state: EditorUiState) -> Result<usize, Seq<char>> {
    match ui_input::input::<usize>(state.effect_index_input@, "effect number"@) {
        Ok(number) => if number == 0 {
            Err("effect number is 1-based and must be positive"@)
        } else {
            Ok((number - 1) as usize)
        },
        Err(message) => Err(message),
    }
}

/// Reads an effect's number.
pub fn parse_effect_index(state: &EditorUiState) -> (result: Result<usize, String>)
    ensures
        text::told(result) == effect_index(*state),
{
    match parse_input::<usize>(state.effect_index_input.as_str(), "effect number") {
        Ok(number) => if number == 0 {
            Err("effect number is 1-based and must be positive".to_owned())
        } else {
            Ok(number - 1)
        },
        Err(message) => Err(message),
    }
}

/// What the fields of an effect on a region say.
pub open spec fn region_effect(state: EditorUiState, limits: EditorLimits) -> Result<Effect, Seq<char>> {
    match state.effect_choice {
        EffectChoice::Blur => match ui_input::input::<u16>(state.effect_blur_radius_input@, "blur radius"@) {
            Err(message) => Err(message),
            Ok(radius) => if radius < 1 || radius > limits.max_blur_radius {
                Err("blur radius must be between 1 and "@ + text::decimal(limits.max_blur_radius as int))
            } else {
                match effect_region(state) {
                    Err(message) => Err(message),
                    Ok(region) => Ok(Effect::Blur { region, radius }),
                }
            },
        },
        EffectChoice::Pixelate => match ui_input::input::<u16>(
            state.effect_pixel_block_input@,
            "pixel block size"@,
        ) {
            Err(message) => Err(message),
            Ok(block_size) => if block_size == 0 {
                Err("pixel block size must be positive"@)
            } else {
                match effect_region(state) {
                    Err(message) => Err(message),
                    Ok(region) => Ok(Effect::Pixelate { region, block_size }),
                }
            },
        },
        _ => match ui_input::input::<u8>(state.effect_tone_percent_input@, "tone percentage"@) {
            Err(message) => Err(message),
            Ok(amount_percent) => if amount_percent > 100 {
                Err("tone percentage must be between 0 and 100"@)
            } else {
                match effect_region(state) {
                    Err(message) => Err(message),
                    Ok(region) => if state.effect_choice == EffectChoice::Darken {
                        Ok(Effect::Darken { region, amount_percent })
                    } else {
                        Ok(Effect::Lighten { region, amount_percent })
                    },
                }
            },
        },
    }
}

/// What the fields of a border say.
pub open spec fn border(state: EditorUiState) -> Result<Effect, Seq<char>> {
    match four(
        ui_input::input::<u16>(state.effect_border_top_input@, "border top"@),
        ui_input::input::<u16>(state.effect_border_right_input@, "border right"@),
        ui_input::input::<u16>(state.effect_border_bottom_input@, "border bottom"@),
        ui_input::input::<u16>(state.effect_border_left_input@, "border left"@),
    ) {
        Err(message) => Err(message),
        Ok((top, right, bottom, left)) => if top == 0 && right == 0 && bottom == 0 && left == 0 {
            Err("at least one border edge must be positive"@)
        } else {
            match effect_color(state) {
                Err(message) => Err(message),
                Ok(color) => Ok(
                    Effect::Border { widths: EdgeWidths { top, right, bottom, left }, color },
                ),
            }
        },
    }
}

/// What the fields of a shadow say.
pub open spec fn shadow(state: EditorUiState, limits: EditorLimits) -> Result<Effect, Seq<char>> {
    match ui_input::input::<u16>(state.effect_shadow_blur_input@, "shadow blur radius"@) {
        Err(message) => Err(message),
        Ok(blur_radius) => if blur_radius > limits.max_blur_radius {
            Err("shadow blur radius must be at most "@ + text::decimal(limits.max_blur_radius as int))
        } else {
            match ui_input::input::<i32>(state.effect_shadow_offset_x_input@, "shadow X"@) {
                Err(message) => Err(message),
                Ok(offset_x) => match ui_input::input::<i32>(state.effect_shadow_offset_y_input@, "shadow Y"@) {
                    Err(message) => Err(message),
                    Ok(offset_y) => match effect_color(state) {
                        Err(message) => Err(message),
                        Ok(color) => Ok(Effect::Shadow { offset_x, offset_y, blur_radius, color }),
                    },
                },
            }
        },
    }
}

/// What the fields of the chosen effect say.
pub open spec fn effect(state: EditorUiState, limits: EditorLimits) -> Result<Effect, Seq<char>> {
    match state.effect_choice {
        EffectChoice::Border => border(state),
        EffectChoice::Shadow => shadow(state, limits),
        _ => region_effect(state, limits),
    }
}

fn with_number(prefix: &str, number: u16) -> (message: String)
    ensures
        message@ == prefix@ + text::decimal(number as int),
{
    let mut message = prefix.to_owned();
    append_decimal(&mut message, number as u64);
    message
}

fn build_region_effect(state: &EditorUiState, limits: EditorLimits) -> (result: Result<Effect, String>)
    ensures
        text::told(result) == region_effect(*state, limits),
{
    match state.effect_choice {
        EffectChoice::Blur => {
            let radius: u16 = match parse_input::<u16>(state.effect_blur_radius_input.as_str(), "blur radius") {
                Ok(value) => value,
                Err(message) => return Err(message),
            };
            if radius < 1 || radius > limits.max_blur_radius {
                return Err(with_number("blur radius must be between 1 and ", limits.max_blur_radius));
            }
            match parse_effect_region(state) {
                Ok(region) => Ok(Effect::Blur { region, radius }),
                Err(message) => Err(message),
            }
        },
        EffectChoice::Pixelate => {
            let block_size: u16 = match parse_input::<u16>(
                state.effect_pixel_block_input.as_str(),
                "pixel block size",
            ) {
                Ok(value) => value,
                Err(message) => return Err(message),
            };
            if block_size == 0 {
                return Err("pixel block size must be positive".to_owned());
            }
            match parse_effect_region(state) {
                Ok(region) => Ok(Effect::Pixelate { region, block_size }),
                Err(message) => Err(message),
            }
        },
        _ => {
            let amount_percent: u8 = match parse_input::<u8>(
                state.effect_tone_percent_input.as_str(),
                "tone percentage",
            ) {
                Ok(value) => value,
                Err(message) => return Err(message),
            };
            if amount_percent > 100 {
                return Err("tone percentage must be between 0 and 100".to_owned());
            }
            match parse_effect_region(state) {
                Ok(region) => if state.effect_choice == EffectChoice::Darken {
                    Ok(Effect::Darken { region, amount_percent })
                } else {
                    Ok(Effect::Lighten { region, amount_percent })
                },
                Err(message) => Err(message),
            }
        },
    }
}

fn build_border(state: &EditorUiState) -> (result: Result<Effect, String>)
    ensures
        text::told(result) == border(*state),
{
    let top: u16 = match parse_input::<u16>(state.effect_border_top_input.as_str(), "border top") {
        Ok(value) => value,
        Err(message) => return Err(message),
    };
    let right: u16 = match parse_input::<u16>(state.effect_border_right_input.as_str(), "border right") {
        Ok(value) => value,
        Err(message) => return Err(message),
    };
    let bottom: u16 = match parse_input::<u16>(state.effect_border_bottom_input.as_str(), "border bottom") {
        Ok(value) => value,
        Err(message) => return Err(message),
    };
    let left: u16 = match parse_input::<u16>(state.effect_border_left_input.as_str(), "border left") {
        Ok(value) => value,
        Err(message) => return Err(message),
    };
    if top == 0 && right == 0 && bottom == 0 && left == 0 {
        return Err("at least one border edge must be positive".to_owned());
    }
    match parse_effect_color(state) {
        Ok(color) => Ok(Effect::Border { widths: EdgeWidths { top, right, bottom, left }, color }),
        Err(message) => Err(message),
    }
}

fn build_shadow(state: &EditorUiState, limits: EditorLimits) -> (result: Result<Effect, String>)
    ensures
        text::told(result) == shadow(*state, limits),
{
    let blur_radius: u16 = match parse_input::<u16>(state.effect_shadow_blur_input.as_str(), "shadow blur radius") {
        Ok(value) => value,
        Err(message) => return Err(message),
    };
    if blur_radius > limits.max_blur_radius {
        return Err(with_number("shadow blur radius must be at most ", limits.max_blur_radius));
    }
    let offset_x: i32 = match parse_input::<i32>(state.effect_shadow_offset_x_input.as_str(), "shadow X") {
        Ok(value) => value,
        Err(message) => return Err(message),
    };
    let offset_y: i32 = match parse_input::<i32>(state.effect_shadow_offset_y_input.as_str(), "shadow Y") {
        Ok(value) => value,
        Err(message) => return Err(message),
    };
    match parse_effect_color(state) {
        Ok(color) => Ok(Effect::Shadow { offset_x, offset_y, blur_radius, color }),
        Err(message) => Err(message),
    }
}

/// Builds the chosen effect.
pub fn build_effect(state: &EditorUiState, limits: EditorLimits) -> (result: Result<Effect, String>)
    ensures
        text::told(result) == effect(*state, limits),
{
    match state.effect_choice {
        EffectChoice::Border => build_border(state),
        EffectChoice::Shadow => build_shadow(state, limits),
        _ => build_region_effect(state, limits),
    }
}

/// How an outgoing transition is made.
#[derive(Clone, Copy, Debug, PartialEq, Eq, Structural)]
pub struct FrameTransitionSettings {
    /// Its length.
    pub duration: DurationUs,
    /// Its frames.
    pub steps: u16,
    /// What it does.
    pub kind: TransitionKind,
}

/// What [`FrameTransitionSettings`] say.
pub struct SettingsView {
    /// Its length.
    pub duration: int,
    /// Its frames.
    pub steps: u16,
    /// What it does.
    pub kind: TransitionKind,
}

impl View for FrameTransitionSettings {
    type V = SettingsView;

    open spec fn view(&self) -> SettingsView {
        SettingsView { duration: self.duration@, steps: self.steps, kind: self.kind }
    }
}

/// What the fields of a transition's kind say.
pub open spec fn transition_kind(state: EditorUiState) -> Result<TransitionKind, Seq<char>> {
    match state.transition_choice {
        TransitionChoice::FadeToNext => Ok(TransitionKind::FadeToNext),
        TransitionChoice::FadeToColor => match transition_color(state) {
            Ok(color) => Ok(TransitionKind::FadeToColor { color }),
            Err(message) => Err(message),
        },
        TransitionChoice::SlideLeft => Ok(TransitionKind::Slide { direction: SlideDirection::Left }),
        TransitionChoice::SlideRight => Ok(TransitionKind::Slide { direction: SlideDirection::Right }),
        TransitionChoice::SlideUp => Ok(TransitionKind::Slide { direction: SlideDirection::Up }),
        TransitionChoice::SlideDown => Ok(TransitionKind::Slide { direction: SlideDirection::Down }),
    }
}

fn build_transition_kind(state: &EditorUiState) -> (result: Result<TransitionKind, String>)
    ensures
        text::told(result) == transition_kind(*state),
{
    match state.transition_choice {
        TransitionChoice::FadeToNext => Ok(TransitionKind::FadeToNext),
        TransitionChoice::FadeToColor => match parse_transition_color(state) {
            Ok(color) => Ok(TransitionKind::FadeToColor { color }),
            Err(message) => Err(message),
        },
        TransitionChoice::SlideLeft => Ok(TransitionKind::Slide { direction: SlideDirection::Left }),
        TransitionChoice::SlideRight => Ok(TransitionKind::Slide { direction: SlideDirection::Right }),
        TransitionChoice::SlideUp => Ok(TransitionKind::Slide { direction: SlideDirection::Up }),
        TransitionChoice::SlideDown => Ok(TransitionKind::Slide { direction: SlideDirection::Down }),
    }
}

/// What the fields of a transition say.
pub open spec fn transition_settings(state: EditorUiState, limits: EditorLimits) -> Result<
    SettingsView,
    Seq<char>,
> {
    match positive(
        state.transition_duration_us_input@,
        "transition duration in microseconds"@,
        "transition duration must be positive"@,
    ) {
        Err(message) => Err(message),
        Ok(duration) => match ui_input::input::<u16>(state.transition_steps_input@, "transition steps"@) {
            Err(message) => Err(message),
            Ok(steps) => if steps < 1 || steps > limits.max_transition_steps {
                Err(
                    "transition steps must be between 1 and "@ + text::decimal(
                        limits.max_transition_steps as int,
                    ),
                )
            } else if duration < steps {
                Err("transition duration must provide at least 1 \u{b5}s per step"@)
            } else {
                match transition_kind(state) {
                    Err(message) => Err(message),
                    Ok(kind) => Ok(SettingsView { duration, steps, kind }),
                }
            },
        },
    }
}

/// Builds the transition that the fields describe.
pub fn build_transition_settings(state: &EditorUiState, limits: EditorLimits) -> (result: Result<
    FrameTransitionSettings,
    String,
>)
    ensures
        text::seen(result) == transition_settings(*state, limits),
{
    let duration: DurationUs = match parse_positive(
        state.transition_duration_us_input.as_str(),
        "transition duration in microseconds",
        "transition duration must be positive",
    ) {
        Ok(duration) => duration,
        Err(message) => return Err(message),
    };
    let steps: u16 = match parse_input::<u16>(state.transition_steps_input.as_str(), "transition steps") {
        Ok(value) => value,
        Err(message) => return Err(message),
    };
    if steps < 1 || steps > limits.max_transition_steps {
        return Err(with_number("transition steps must be between 1 and ", limits.max_transition_steps));
    }
    if duration.get() < steps as u64 {
        return Err("transition duration must provide at least 1 \u{b5}s per step".to_owned());
    }
    match build_transition_kind(state) {
        Ok(kind) => Ok(FrameTransitionSettings { duration, steps, kind }),
        Err(message) => Err(message),
    }
}

/// The shape that a choice stands for.
pub open spec fn kind_of(choice: ShapeOverlayChoice) -> ShapeKind {
    match choice {
        ShapeOverlayChoice::Line => ShapeKind::Line,
        ShapeOverlayChoice::Arrow => ShapeKind::Arrow,
        ShapeOverlayChoice::Rectangle => ShapeKind::Rectangle,
        ShapeOverlayChoice::Ellipse => ShapeKind::Ellipse,
    }
}

/// The shape that a choice stands for.
pub fn shape_kind(choice: ShapeOverlayChoice) -> (kind: ShapeKind)
    ensures
        kind == kind_of(choice),
{
    match choice {
        ShapeOverlayChoice::Line => ShapeKind::Line,
        ShapeOverlayChoice::Arrow => ShapeKind::Arrow,
        ShapeOverlayChoice::Rectangle => ShapeKind::Rectangle,
        ShapeOverlayChoice::Ellipse => ShapeKind::Ellipse,
    }
}

/// What the fields of the shape tool say on a canvas.
pub open spec fn shape_overlay(state: ShapeOverlayUiState, canvas: PhysicalSize) -> Result<
    ContentView,
    Seq<char>,
> {
    let outlined = state.stroke_width > 0 && state.stroke.alpha > 0;
    let filled = state.fill_enabled && state.fill.alpha > 0;
    let linear = state.kind == ShapeOverlayChoice::Line || state.kind == ShapeOverlayChoice::Arrow;
    if text::trimmed(state.name@).len() == 0 {
        Err("Shape overlay name is required."@)
    } else if state.track_opacity == 0 {
        Err("Shape track opacity must be greater than zero."@)
    } else {
        match PhysicalRect::of(state.x, state.y, state.width, state.height) {
            Err(error) => Err("Invalid shape bounds: "@ + error.words()),
            Ok(bounds) => if !bounds.inside(canvas) {
                Err("Shape bounds must stay inside the rendered canvas."@)
            } else if linear && !outlined {
                Err("Line and arrow overlays require a visible positive-width stroke."@)
            } else if !linear && !outlined && !filled {
                Err("Rectangle and ellipse overlays require a visible stroke or fill."@)
            } else {
                Ok(
                    ContentView::Shape {
                        kind: kind_of(state.kind),
                        bounds,
                        stroke_width: state.stroke_width,
                        stroke: state.stroke,
                        fill: if state.fill_enabled {
                            Some(state.fill)
                        } else {
                            None
                        },
                    },
                )
            },
        }
    }
}

fn is_blank(written: &str) -> (blank: bool)
    ensures
        blank == (text::trimmed(written@).len() == 0),
{
    characters(trim(written)).len() == 0
}

/// Builds the shape that the fields describe.
pub fn build_shape_overlay(state: &ShapeOverlayUiState, canvas: PhysicalSize) -> (result: Result<
    OverlayContent,
    String,
>)
    ensures
        text::seen(result) == shape_overlay(*state, canvas),
{
    if is_blank(state.name.as_str()) {
        return Err("Shape overlay name is required.".to_owned());
    }
    if state.track_opacity == 0 {
        return Err("Shape track opacity must be greater than zero.".to_owned());
    }
    let bounds: PhysicalRect = match PhysicalRect::new(state.x, state.y, state.width, state.height) {
        Ok(bounds) => bounds,
        Err(error) => return Err(join("Invalid shape bounds: ", error.text())),
    };
    if !bounds.fits_within(canvas) {
        return Err("Shape bounds must stay inside the rendered canvas.".to_owned());
    }
    let outlined: bool = state.stroke_width > 0 && state.stroke.alpha > 0;
    let fill: Option<Rgba> = if state.fill_enabled {
        Some(state.fill)
    } else {
        None
    };
    match state.kind {
        ShapeOverlayChoice::Line | ShapeOverlayChoice::Arrow => {
            if !outlined {
                return Err("Line and arrow overlays require a visible positive-width stroke.".to_owned());
            }
        },
        ShapeOverlayChoice::Rectangle | ShapeOverlayChoice::Ellipse => {
            if !outlined && !(state.fill_enabled && state.fill.alpha > 0) {
                return Err("Rectangle and ellipse overlays require a visible stroke or fill.".to_owned());
            }
        },
    }
    Ok(
        OverlayContent::Shape {
            kind: shape_kind(state.kind),
            bounds,
            stroke_width: state.stroke_width,
            stroke: state.stroke,
            fill,
        },
    )
}

/// Whether every point was drawn with a possible pressure.
pub open spec fn pressed(points: Seq<StrokePoint>) -> bool {
    forall|i: int| 0 <= i < points.len() ==> (#[trigger] points[i]).pressure_milli <= 1_000
}

/// What a freehand stroke draws.
pub open spec fn drawing_overlay(draft: DrawingOverlayDraft) -> Result<ContentView, Seq<char>> {
    if text::trimmed(draft.name@).len() == 0 {
        Err("Drawing overlay name is required."@)
    } else if draft.width == 0 || draft.color.alpha == 0 || draft.track_opacity == 0 {
        Err("Drawing width, color alpha, and track opacity must be visible."@)
    } else if draft.points@.len() == 0 {
        Err("Draw at least one point on the preview before committing."@)
    } else if draft.points@.len() > MAX_DRAWING_DRAFT_POINTS {
        Err("Drawing contains more than "@ + text::decimal(MAX_DRAWING_DRAFT_POINTS as int) + " points."@)
    } else if !pressed(draft.points@) {
        Err("Drawing pressure must stay in 0..=1000."@)
    } else {
        Ok(ContentView::Drawing { points: draft.points@, width: draft.width, color: draft.color })
    }
}

fn all_pressed(points: &Vec<StrokePoint>) -> (all: bool)
    ensures
        all == pressed(points@),
{
    let mut at: usize = 0;
    while at < points.len()
        invariant
            at <= points@.len(),
            forall|i: int| 0 <= i < at ==> (#[trigger] points@[i]).pressure_milli <= 1_000,
        decreases points@.len() - at,
    {
        if points[at].pressure_milli > 1_000 {
            return false;
        }
        at = at + 1;
    }
    true
}

/// Builds what a freehand stroke draws.
pub fn build_drawing_overlay(draft: &DrawingOverlayDraft) -> (result: Result<OverlayContent, String>)
    ensures
        text::seen(result) == drawing_overlay(*draft),
{
    if is_blank(draft.name.as_str()) {
        return Err("Drawing overlay name is required.".to_owned());
    }
    if draft.width == 0 || draft.color.alpha == 0 || draft.track_opacity == 0 {
        return Err("Drawing width, color alpha, and track opacity must be visible.".to_owned());
    }
    if draft.points.len() == 0 {
        return Err("Draw at least one point on the preview before committing.".to_owned());
    }
    if draft.points.len() > MAX_DRAWING_DRAFT_POINTS {
        let mut message = "Drawing contains more than ".to_owned();
        append_decimal(&mut message, MAX_DRAWING_DRAFT_POINTS as u64);
        message.append(" points.");
        return Err(message);
    }
    if !all_pressed(&draft.points) {
        return Err("Drawing pressure must stay in 0..=1000.".to_owned());
    }
    Ok(OverlayContent::Drawing { points: copy_all(&draft.points), width: draft.width, color: draft.color })
}

/// A time in milliseconds is as many thousand microseconds, wherever those can be told.
pub proof fn law_milliseconds_are_thousand_microseconds(written: Seq<char>, number: int)
    requires
        ui_input::holds(written, number),
    ensures
        time_ms(written) is Ok <==> 1_000 * number <= u64::MAX,
        time_ms(written) matches Ok(time) ==> time.us == 1_000 * number,
{
    ui_input::law_written_input_is_read::<u64>(written, "time in milliseconds"@, number);
}

/// A time range goes from the time that is written as its start to the one that is written as its end.
pub proof fn law_a_time_range_is_as_written(state: EditorUiState, start: int, end: int)
    requires
        ui_input::holds(state.time_range_start_ms_input@, start),
        ui_input::holds(state.time_range_end_ms_input@, end),
    ensures
        time_range(state) is Ok <==> 1_000 * start <= u64::MAX && 1_000 * end <= u64::MAX,
        time_range(state) matches Ok(range) ==> range.0.us == 1_000 * start && range.1.us == 1_000 * end,
{
    law_milliseconds_are_thousand_microseconds(state.time_range_start_ms_input@, start);
    law_milliseconds_are_thousand_microseconds(state.time_range_end_ms_input@, end);
}

/// A duration is the positive number that is written.
pub proof fn law_a_duration_is_as_written(written: Seq<char>, number: int)
    requires
        ui_input::holds(written, number),
    ensures
        duration_us(written) is Ok <==> 0 < number <= u64::MAX,
        duration_us(written) matches Ok(duration) ==> duration == number,
{
    ui_input::law_written_input_is_read::<u64>(written, "frame delay in microseconds"@, number);
}

/// An interval is a written number from two on, and a threshold one up to a hundred.
pub proof fn law_intervals_and_thresholds_are_as_written(written: Seq<char>, number: int)
    requires
        ui_input::holds(written, number),
    ensures
        keep_every(written) is Ok <==> 2 <= number <= usize::MAX,
        keep_every(written) matches Ok(interval) ==> interval == number,
        similarity_threshold(written) is Ok <==> number <= 100,
        similarity_threshold(written) matches Ok(threshold) ==> threshold == number,
{
    ui_input::law_written_input_is_read::<usize>(written, "reduce interval"@, number);
    ui_input::law_written_input_is_read::<u8>(written, "duplicate similarity threshold"@, number);
}

/// A crop is the rectangle that is written, wherever it has an extent and ends within the coordinates.
pub proof fn law_a_crop_is_as_written(state: EditorUiState, x: int, y: int, width: int, height: int)
    requires
        ui_input::holds(state.crop_x_input@, x),
        ui_input::holds(state.crop_y_input@, y),
        ui_input::holds(state.crop_width_input@, width),
        ui_input::holds(state.crop_height_input@, height),
    ensures
        crop(state) is Ok <==> 0 < width && 0 < height && x + width <= u32::MAX && y + height <= u32::MAX,
        crop(state) matches Ok(rect) ==> rect.origin.x == x && rect.origin.y == y && rect.size.width == width
            && rect.size.height == height,
{
    ui_input::law_written_input_is_read::<u32>(state.crop_x_input@, "crop X"@, x);
    ui_input::law_written_input_is_read::<u32>(state.crop_y_input@, "crop Y"@, y);
    ui_input::law_written_input_is_read::<u32>(state.crop_width_input@, "crop width"@, width);
    ui_input::law_written_input_is_read::<u32>(state.crop_height_input@, "crop height"@, height);
}

/// The region of an effect is the rectangle that is written for it.
pub proof fn law_an_effect_region_is_as_written(state: EditorUiState, x: int, y: int, width: int, height: int)
    requires
        ui_input::holds(state.effect_region_x_input@, x),
        ui_input::holds(state.effect_region_y_input@, y),
        ui_input::holds(state.effect_region_width_input@, width),
        ui_input::holds(state.effect_region_height_input@, height),
    ensures
        effect_region(state) is Ok <==> 0 < width && 0 < height && x + width <= u32::MAX && y + height <= u32::MAX,
        effect_region(state) matches Ok(rect) ==> rect.origin.x == x && rect.origin.y == y && rect.size.width == width
            && rect.size.height == height,
{
    ui_input::law_written_input_is_read::<u32>(state.effect_region_x_input@, "effect region X"@, x);
    ui_input::law_written_input_is_read::<u32>(state.effect_region_y_input@, "effect region Y"@, y);
    ui_input::law_written_input_is_read::<u32>(state.effect_region_width_input@, "effect region width"@, width);
    ui_input::law_written_input_is_read::<u32>(state.effect_region_height_input@, "effect region height"@, height);
}

/// A new size is the one that is written.
pub proof fn law_a_size_is_as_written(state: EditorUiState, width: int, height: int)
    requires
        ui_input::holds(state.resize_width_input@, width),
        ui_input::holds(state.resize_height_input@, height),
    ensures
        output_size(state) is Ok <==> 0 < width <= u32::MAX && 0 < height <= u32::MAX,
        output_size(state) matches Ok(size) ==> size.width == width && size.height == height,
{
    ui_input::law_written_input_is_read::<u32>(state.resize_width_input@, "resize width"@, width);
    ui_input::law_written_input_is_read::<u32>(state.resize_height_input@, "resize height"@, height);
}

/// The colour of a transition is the one that is written.
pub proof fn law_a_transition_color_is_as_written(state: EditorUiState, red: int, green: int, blue: int, alpha: int)
    requires
        ui_input::holds(state.transition_color_red_input@, red),
        ui_input::holds(state.transition_color_green_input@, green),
        ui_input::holds(state.transition_color_blue_input@, blue),
        ui_input::holds(state.transition_color_alpha_input@, alpha),
    ensures
        transition_color(state) is Ok <==> red <= 255 && green <= 255 && blue <= 255 && alpha <= 255,
        transition_color(state) matches Ok(color) ==> color.red == red && color.green == green && color.blue == blue
            && color.alpha == alpha,
{
    ui_input::law_written_input_is_read::<u8>(state.transition_color_red_input@, "transition red"@, red);
    ui_input::law_written_input_is_read::<u8>(state.transition_color_green_input@, "transition green"@, green);
    ui_input::law_written_input_is_read::<u8>(state.transition_color_blue_input@, "transition blue"@, blue);
    ui_input::law_written_input_is_read::<u8>(state.transition_color_alpha_input@, "transition alpha"@, alpha);
}

/// The colour of an effect is the one that is written, where it can be seen.
pub proof fn law_an_effect_color_is_as_written(state: EditorUiState, red: int, green: int, blue: int, alpha: int)
    requires
        ui_input::holds(state.effect_color_red_input@, red),
        ui_input::holds(state.effect_color_green_input@, green),
        ui_input::holds(state.effect_color_blue_input@, blue),
        ui_input::holds(state.effect_color_alpha_input@, alpha),
    ensures
        effect_color(state) is Ok <==> red <= 255 && green <= 255 && blue <= 255 && 0 < alpha <= 255,
        effect_color(state) matches Ok(color) ==> color.red == red && color.green == green && color.blue == blue
            && color.alpha == alpha,
{
    ui_input::law_written_input_is_read::<u8>(state.effect_color_red_input@, "effect red"@, red);
    ui_input::law_written_input_is_read::<u8>(state.effect_color_green_input@, "effect green"@, green);
    ui_input::law_written_input_is_read::<u8>(state.effect_color_blue_input@, "effect blue"@, blue);
    ui_input::law_written_input_is_read::<u8>(state.effect_color_alpha_input@, "effect alpha"@, alpha);
}

/// Effects are counted from one.
pub proof fn law_effects_are_counted_from_one(state: EditorUiState, number: int)
    requires
        ui_input::holds(state.effect_index_input@, number),
    ensures
        effect_index(state) is Ok <==> 0 < number <= usize::MAX,
        effect_index(state) matches Ok(index) ==> index + 1 == number,
{
    ui_input::law_written_input_is_read::<usize>(state.effect_index_input@, "effect number"@, number);
}

/// A blur, a pixelation or a tone has the strength that is written, within its bounds, in the region that
/// is written.
pub proof fn law_a_region_effect_is_as_written(state: EditorUiState, limits: EditorLimits, strength: int)
    requires
        effect_region(state) is Ok,
        ui_input::holds(
            match state.effect_choice {
                EffectChoice::Blur => state.effect_blur_radius_input@,
                EffectChoice::Pixelate => state.effect_pixel_block_input@,
                _ => state.effect_tone_percent_input@,
            },
            strength,
        ),
        state.effect_choice != EffectChoice::Border,
        state.effect_choice != EffectChoice::Shadow,
    ensures
        effect(state, limits) is Ok <==> (match state.effect_choice {
            EffectChoice::Blur => 1 <= strength <= limits.max_blur_radius,
            EffectChoice::Pixelate => 1 <= strength <= 0xffff,
            _ => strength <= 100,
        }),
        effect(state, limits) matches Ok(made) ==> match made {
            Effect::Blur { region, radius } => state.effect_choice is Blur && effect_region(state) == Ok::<
                PhysicalRect,
                Seq<char>,
            >(region) && radius == strength,
            Effect::Pixelate { region, block_size } => state.effect_choice is Pixelate && effect_region(state) == Ok::<
                PhysicalRect,
                Seq<char>,
            >(region) && block_size == strength,
            Effect::Darken { region, amount_percent } => state.effect_choice is Darken && effect_region(state) == Ok::<
                PhysicalRect,
                Seq<char>,
            >(region) && amount_percent == strength,
            Effect::Lighten { region, amount_percent } => state.effect_choice is Lighten && effect_region(state)
                == Ok::<PhysicalRect, Seq<char>>(region) && amount_percent == strength,
            _ => false,
        },
{
    match state.effect_choice {
        EffectChoice::Blur => {
            ui_input::law_written_input_is_read::<u16>(state.effect_blur_radius_input@, "blur radius"@, strength);
        },
        EffectChoice::Pixelate => {
            ui_input::law_written_input_is_read::<u16>(state.effect_pixel_block_input@, "pixel block size"@, strength);
        },
        _ => {
            ui_input::law_written_input_is_read::<u8>(state.effect_tone_percent_input@, "tone percentage"@, strength);
        },
    }
}

/// A border has the widths that are written, of which one is positive, and the colour that is written.
pub proof fn law_a_border_is_as_written(state: EditorUiState, top: int, right: int, bottom: int, left: int)
    requires
        state.effect_choice is Border,
        effect_color(state) is Ok,
        ui_input::holds(state.effect_border_top_input@, top),
        ui_input::holds(state.effect_border_right_input@, right),
        ui_input::holds(state.effect_border_bottom_input@, bottom),
        ui_input::holds(state.effect_border_left_input@, left),
    ensures
        forall|limits: EditorLimits|
            (#[trigger] effect(state, limits)) is Ok <==> top <= 0xffff && right <= 0xffff && bottom <= 0xffff && left
                <= 0xffff && top + right + bottom + left > 0,
        forall|limits: EditorLimits|
            (#[trigger] effect(state, limits)) matches Ok(made) ==> (made matches Effect::Border { widths, color }
                && widths.top == top && widths.right == right && widths.bottom == bottom && widths.left == left
                && effect_color(state) == Ok::<Rgba, Seq<char>>(color)),
{
    ui_input::law_written_input_is_read::<u16>(state.effect_border_top_input@, "border top"@, top);
    ui_input::law_written_input_is_read::<u16>(state.effect_border_right_input@, "border right"@, right);
    ui_input::law_written_input_is_read::<u16>(state.effect_border_bottom_input@, "border bottom"@, bottom);
    ui_input::law_written_input_is_read::<u16>(state.effect_border_left_input@, "border left"@, left);
}

/// A shadow has the offsets, the blur and the colour that are written.
pub proof fn law_a_shadow_is_as_written(state: EditorUiState, limits: EditorLimits, x: int, y: int, blur: int)
    requires
        state.effect_choice is Shadow,
        effect_color(state) is Ok,
        ui_input::holds(state.effect_shadow_offset_x_input@, x),
        ui_input::holds(state.effect_shadow_offset_y_input@, y),
        ui_input::holds(state.effect_shadow_blur_input@, blur),
    ensures
        effect(state, limits) is Ok <==> x <= i32::MAX && y <= i32::MAX && blur <= limits.max_blur_radius,
        effect(state, limits) matches Ok(made) ==> (made matches Effect::Shadow {
            offset_x,
            offset_y,
            blur_radius,
            color,
        } && offset_x == x && offset_y == y && blur_radius == blur && effect_color(state) == Ok::<Rgba, Seq<char>>(
            color,
        )),
{
    ui_input::law_written_input_is_read::<u16>(state.effect_shadow_blur_input@, "shadow blur radius"@, blur);
    ui_input::law_written_input_is_read::<i32>(state.effect_shadow_offset_x_input@, "shadow X"@, x);
    ui_input::law_written_input_is_read::<i32>(state.effect_shadow_offset_y_input@, "shadow Y"@, y);
}

/// A transition has the duration and the steps that are written, with at least a microsecond for each step,
/// and the kind that is chosen.
pub proof fn law_a_transition_is_as_written(state: EditorUiState, limits: EditorLimits, duration: int, steps: int)
    requires
        transition_kind(state) is Ok,
        ui_input::holds(state.transition_duration_us_input@, duration),
        ui_input::holds(state.transition_steps_input@, steps),
    ensures
        transition_settings(state, limits) is Ok <==> 1 <= steps <= limits.max_transition_steps && steps <= duration
            && 0 < duration <= u64::MAX,
        transition_settings(state, limits) matches Ok(settings) ==> settings.duration == duration && settings.steps
            == steps && transition_kind(state) == Ok::<TransitionKind, Seq<char>>(settings.kind),
{
    ui_input::law_written_input_is_read::<u64>(
        state.transition_duration_us_input@,
        "transition duration in microseconds"@,
        duration,
    );
    ui_input::law_written_input_is_read::<u16>(state.transition_steps_input@, "transition steps"@, steps);
}

/// The kind of a transition is the one that is chosen; only a fade to a colour needs the colour.
pub proof fn law_a_transition_is_of_the_chosen_kind(state: EditorUiState)
    ensures
        transition_kind(state) is Ok <==> !(state.transition_choice is FadeToColor) || transition_color(state) is Ok,
        transition_kind(state) matches Ok(kind) ==> match kind {
            TransitionKind::FadeToNext => state.transition_choice is FadeToNext,
            TransitionKind::FadeToColor { color } => state.transition_choice is FadeToColor && transition_color(state)
                == Ok::<Rgba, Seq<char>>(color),
            TransitionKind::Slide { direction } => match direction {
                SlideDirection::Left => state.transition_choice is SlideLeft,
                SlideDirection::Right => state.transition_choice is SlideRight,
                SlideDirection::Up => state.transition_choice is SlideUp,
                SlideDirection::Down => state.transition_choice is SlideDown,
            },
        },
{
}

/// A shape can be put exactly where it has a name, its layer can be seen, it lies on the canvas, and its
/// outline can be seen, or, of a rectangle or an ellipse, its filling; then it is as it was set.
pub proof fn law_a_shape_is_as_it_was_set(state: ShapeOverlayUiState, canvas: PhysicalSize)
    ensures
        ({
            let outlined = state.stroke_width > 0 && state.stroke.alpha > 0;
            let filled = state.fill_enabled && state.fill.alpha > 0;
            let made = shape_overlay(state, canvas);
            &&& made is Ok <==> {
                &&& text::trimmed(state.name@).len() > 0
                &&& state.track_opacity > 0
                &&& state.width > 0 && state.height > 0
                &&& state.x + state.width <= u32::MAX && state.y + state.height <= u32::MAX
                &&& state.x + state.width <= canvas.width && state.y + state.height <= canvas.height
                &&& outlined || (filled && (state.kind is Rectangle || state.kind is Ellipse))
            }
            &&& made matches Ok(content) ==> (content matches ContentView::Shape {
                kind,
                bounds,
                stroke_width,
                stroke,
                fill,
            } && {
                &&& bounds.origin.x == state.x && bounds.origin.y == state.y
                &&& bounds.size.width == state.width && bounds.size.height == state.height
                &&& stroke_width == state.stroke_width && stroke == state.stroke
                &&& fill is Some <==> state.fill_enabled
                &&& fill matches Some(color) ==> color == state.fill
                &&& kind is Line <==> state.kind is Line
                &&& kind is Arrow <==> state.kind is Arrow
                &&& kind is Rectangle <==> state.kind is Rectangle
                &&& kind is Ellipse <==> state.kind is Ellipse
            })
        }),
{
}

/// A drawing can be put exactly where it has a name, its line and its layer can be seen, it has 1 to 4,096
/// points and no pressure beyond the whole; then it has its points, its width and its colour.
pub proof fn law_a_drawing_is_as_it_was_drawn(draft: DrawingOverlayDraft)
    ensures
        drawing_overlay(draft) is Ok <==> {
            &&& text::trimmed(draft.name@).len() > 0
            &&& draft.width > 0 && draft.color.alpha > 0 && draft.track_opacity > 0
            &&& 1 <= draft.points@.len() <= 4_096
            &&& forall|i: int| 0 <= i < draft.points@.len() ==> (#[trigger] draft.points@[i]).pressure_milli <= 1_000
        },
        drawing_overlay(draft) matches Ok(content) ==> (content matches ContentView::Drawing { points, width, color }
            && points == draft.points@ && width == draft.width && color == draft.color),
{
}

} // verus!
