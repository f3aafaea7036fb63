//! The parts of a project that the editor reads and rewrites.
//!
//! What the editing logic only carries along, such as recorded input or an
//! annotation recipe, is held as the bytes it is stored as.
use vstd::prelude::*;
use crate::geometry::{PhysicalPoint, PhysicalRect, PhysicalSize, Rgba};
use crate::ids::AssetId;
use crate::value;
use crate::value::{duplicate_all, same_all, Value};

verus! {

impl Value for u8 {
    fn duplicate(&self) -> (copy: Self) {
        *self
    }

    fn same(&self, other: &Self) -> (equal: bool) {
        *self == *other
    }
}

/// A stored form that the editor hands on unread.
#[derive(Clone, Debug, PartialEq, Eq)]
pub struct Payload {
    /// The stored bytes.
    pub bytes: Vec<u8>,
}

impl View for Payload {
    type V = Seq<u8>;

    open spec fn view(&self) -> Seq<u8> {
        self.bytes@
    }
}

impl Value for Payload {
    fn duplicate(&self) -> (copy: Self) {
        let bytes = duplicate_all(&self.bytes);
        assert(value::views(bytes@) =~= bytes@);
        assert(value::views(self.bytes@) =~= self.bytes@);
        Payload { bytes }
    }

    fn same(&self, other: &Self) -> (equal: bool) {
        assert(value::views(other.bytes@) =~= other.bytes@);
        assert(value::views(self.bytes@) =~= self.bytes@);
        same_all(&self.bytes, &other.bytes)
    }
}

/// How a track is mixed with what lies under it.
#[derive(Clone, Copy, Debug, PartialEq, Eq, Hash, Structural)]
pub enum BlendMode {
    /// Paint over.
    Normal,
    /// Multiply channels.
    Multiply,
    /// Multiply the inverted channels.
    Screen,
}

/// The outline of a shape overlay.
#[derive(Clone, Copy, Debug, PartialEq, Eq, Hash, Structural)]
pub enum ShapeKind {
    /// A straight line.
    Line,
    /// A line with a head.
    Arrow,
    /// A rectangle.
    Rectangle,
    /// An ellipse.
    Ellipse,
}

/// Placement of text lines inside their box.
#[derive(Clone, Copy, Debug, PartialEq, Eq, Hash, Structural)]
pub enum HorizontalAlignment {
    /// At the start of the line.
    Start,
    /// In the middle.
    Center,
    /// At the end of the line.
    End,
}

/// The shaped pixels of a text.
#[derive(Clone, Copy, Debug, PartialEq, Eq, Hash, Structural)]
pub struct TextRaster {
    /// Where the pixels are stored.
    pub asset_id: AssetId,
    /// The dimensions of the pixels.
    pub size: PhysicalSize,
}

/// One sample of a freehand stroke.
#[derive(Clone, Copy, Debug, PartialEq, Eq, Hash, Structural)]
pub struct StrokePoint {
    /// Where the pen was.
    pub point: PhysicalPoint,
    /// How hard it pressed, in thousandths.
    pub pressure_milli: u16,
}

impl View for StrokePoint {
    type V = StrokePoint;

    open spec fn view(&self) -> StrokePoint {
        *self
    }
}

impl Value for StrokePoint {
    fn duplicate(&self) -> (copy: Self) {
        *self
    }

    fn same(&self, other: &Self) -> (equal: bool) {
        *self == *other
    }
}

/// What an overlay paints.
#[derive(Clone, Debug, PartialEq, Eq)]
pub enum OverlayContent {
    /// Stored pixels.
    Raster {
        /// Where the pixels are stored.
        asset_id: AssetId,
        /// Top left corner on the canvas.
        position: PhysicalPoint,
        /// Painted dimensions.
        size: PhysicalSize,
        /// Strength of the pixels.
        opacity: u8,
    },
    /// Shaped text that can be edited again.
    Text {
        /// The words.
        text: String,
        /// Top left corner on the canvas.
        position: PhysicalPoint,
        /// Width at which lines wrap.
        max_width: Option<u32>,
        /// Name of the font.
        font_family: String,
        /// Font height in pixels.
        font_size_px: u32,
        /// Colour of the letters.
        foreground: Rgba,
        /// Colour behind the letters.
        background: Option<Rgba>,
        /// Placement of the lines.
        alignment: HorizontalAlignment,
        /// The shaped pixels, once prepared.
        raster: Option<TextRaster>,
    },
    /// A vector shape.
    Shape {
        /// Its outline.
        kind: ShapeKind,
        /// The box it fills.
        bounds: PhysicalRect,
        /// Width of the outline in pixels.
        stroke_width: u16,
        /// Colour of the outline.
        stroke: Rgba,
        /// Colour of the inside.
        fill: Option<Rgba>,
    },
    /// A freehand stroke.
    Drawing {
        /// The samples in order.
        points: Vec<StrokePoint>,
        /// Width of the pen in pixels.
        width: u16,
        /// Colour of the pen.
        color: Rgba,
    },
    /// A recorded key press.
    KeyStroke {
        /// The keys as shown.
        text: String,
        /// Top left corner on the canvas.
        position: PhysicalPoint,
        /// The shaped pixels, once prepared.
        raster: Option<TextRaster>,
    },
    /// A recorded cursor.
    Cursor {
        /// Where the cursor image is stored.
        asset_id: AssetId,
        /// The rest of its stored form.
        payload: Payload,
    },
    /// A recorded mouse click.
    MouseClick {
        /// Its stored form.
        payload: Payload,
    },
    /// A progress bar.
    Progress {
        /// The style, where it is no longer derived from the time.
        style: Option<Payload>,
        /// The rest of its stored form.
        payload: Payload,
    },
}

/// What an [`OverlayContent`] shows.
pub enum ContentView {
    /// Stored pixels.
    Raster { asset_id: AssetId, position: PhysicalPoint, size: PhysicalSize, opacity: u8 },
    /// Text.
    Text {
        text: Seq<char>,
        position: PhysicalPoint,
        max_width: Option<u32>,
        font_family: Seq<char>,
        font_size_px: u32,
        foreground: Rgba,
        background: Option<Rgba>,
        alignment: HorizontalAlignment,
        raster: Option<TextRaster>,
    },
    /// A shape.
    Shape {
        kind: ShapeKind,
        bounds: PhysicalRect,
        stroke_width: u16,
        stroke: Rgba,
        fill: Option<Rgba>,
    },
    /// A freehand stroke.
    Drawing { points: Seq<StrokePoint>, width: u16, color: Rgba },
    /// A key press.
    KeyStroke { text: Seq<char>, position: PhysicalPoint, raster: Option<TextRaster> },
    /// A cursor.
    Cursor { asset_id: AssetId, payload: Seq<u8> },
    /// A click.
    MouseClick { payload: Seq<u8> },
    /// A progress bar.
    Progress { style: Option<Seq<u8>>, payload: Seq<u8> },
}

impl View for OverlayContent {
    type V = ContentView;

    open spec fn view(&self) -> ContentView {
        match *self {
            OverlayContent::Raster { asset_id, position, size, opacity } => ContentView::Raster {
                asset_id,
                position,
                size,
                opacity,
            },
            OverlayContent::Text {
                text,
                position,
                max_width,
                font_family,
                font_size_px,
                foreground,
                background,
                alignment,
                raster,
            } => ContentView::Text {
                text: text@,
                position,
                max_width,
                font_family: font_family@,
                font_size_px,
                foreground,
                background,
                alignment,
                raster,
            },
            OverlayContent::Shape { kind, bounds, stroke_width, stroke, fill } => ContentView::Shape {
                kind,
                bounds,
                stroke_width,
                stroke,
                fill,
            },
            OverlayContent::Drawing { points, width, color } => ContentView::Drawing {
                points: points@,
                width,
                color,
            },
            OverlayContent::KeyStroke { text, position, raster } => ContentView::KeyStroke {
                text: text@,
                position,
                raster,
            },
            OverlayContent::Cursor { asset_id, payload } => ContentView::Cursor {
                asset_id,
                payload: payload@,
            },
            OverlayContent::MouseClick { payload } => ContentView::MouseClick { payload: payload@ },
            OverlayContent::Progress { style, payload } => ContentView::Progress {
                style: value::option_view(style),
                payload: payload@,
            },
        }
    }
}

/// Copies an optional value.
pub fn duplicate_option<T: Value>(item: &Option<T>) -> (copy: Option<T>)
    ensures
        value::option_view(copy) == value::option_view(*item),
{
    match item {
        Some(inner) => Some(inner.duplicate()),
        None => None,
    }
}

/// Whether both optional values show the same.
pub fn same_option<T: Value>(left: &Option<T>, right: &Option<T>) -> (equal: bool)
    ensures
        equal == (value::option_view(*left) == value::option_view(*right)),
{
    match (left, right) {
        (Some(left), Some(right)) => left.same(right),
        (None, None) => true,
        _ => false,
    }
}

impl Value for OverlayContent {
    fn duplicate(&self) -> (copy: Self) {
        match self {
            OverlayContent::Raster { asset_id, position, size, opacity } => OverlayContent::Raster {
                asset_id: *asset_id,
                position: *position,
                size: *size,
                opacity: *opacity,
            },
            OverlayContent::Text {
                text,
                position,
                max_width,
                font_family,
                font_size_px,
                foreground,
                background,
                alignment,
                raster,
            } => OverlayContent::Text {
                text: text.clone(),
                position: *position,
                max_width: *max_width,
                font_family: font_family.clone(),
                font_size_px: *font_size_px,
                foreground: *foreground,
                background: *background,
                alignment: *alignment,
                raster: *raster,
            },
            OverlayContent::Shape { kind, bounds, stroke_width, stroke, fill } => OverlayContent::Shape {
                kind: *kind,
                bounds: *bounds,
                stroke_width: *stroke_width,
                stroke: *stroke,
                fill: *fill,
            },
            OverlayContent::Drawing { points, width, color } => OverlayContent::Drawing {
                points: crate::value::copy_all(points),
                width: *width,
                color: *color,
            },
            OverlayContent::KeyStroke { text, position, raster } => OverlayContent::KeyStroke {
                text: text.clone(),
                position: *position,
                raster: *raster,
            },
            OverlayContent::Cursor { asset_id, payload } => OverlayContent::Cursor {
                asset_id: *asset_id,
                payload: payload.duplicate(),
            },
            OverlayContent::MouseClick { payload } => OverlayContent::MouseClick {
                payload: payload.duplicate(),
            },
            OverlayContent::Progress { style, payload } => OverlayContent::Progress {
                style: duplicate_option(style),
                payload: payload.duplicate(),
            },
        }
    }

    fn same(&self, other: &Self) -> (equal: bool) {
        match (self, other) {
            (
                OverlayContent::Raster { asset_id, position, size, opacity },
                OverlayContent::Raster {
                    asset_id: other_asset,
                    position: other_position,
                    size: other_size,
                    opacity: other_opacity,
                },
            ) => {
                *asset_id == *other_asset && *position == *other_position && *size == *other_size
                    && *opacity == *other_opacity
            },
            (
                OverlayContent::Text {
                    text,
                    position,
                    max_width,
                    font_family,
                    font_size_px,
                    foreground,
                    background,
                    alignment,
                    raster,
                },
                OverlayContent::Text {
                    text: other_text,
                    position: other_position,
                    max_width: other_width,
                    font_family: other_family,
                    font_size_px: other_font_size,
                    foreground: other_foreground,
                    background: other_background,
                    alignment: other_alignment,
                    raster: other_raster,
                },
            ) => {
                *text == *other_text && *position == *other_position && *max_width == *other_width
                    && *font_family == *other_family && *font_size_px == *other_font_size
                    && *foreground == *other_foreground && *background == *other_background
                    && *alignment == *other_alignment && *raster == *other_raster
            },
            (
                OverlayContent::Shape { kind, bounds, stroke_width, stroke, fill },
                OverlayContent::Shape {
                    kind: other_kind,
                    bounds: other_bounds,
                    stroke_width: other_width,
                    stroke: other_stroke,
                    fill: other_fill,
                },
            ) => {
                *kind == *other_kind && *bounds == *other_bounds && *stroke_width == *other_width
                    && *stroke == *other_stroke && *fill == *other_fill
            },
            (
                OverlayContent::Drawing { points, width, color },
                OverlayContent::Drawing {
                    points: other_points,
                    width: other_width,
                    color: other_color,
                },
            ) => {
                assert(value::views(points@) =~= points@);
                assert(value::views(other_points@) =~= other_points@);
                *width == *other_width && *color == *other_color && same_all(points, other_points)
            },
            (
                OverlayContent::KeyStroke { text, position, raster },
                OverlayContent::KeyStroke {
                    text: other_text,
                    position: other_position,
                    raster: other_raster,
                },
            ) => {
                *text == *other_text && *position == *other_position && *raster == *other_raster
            },
            (
                OverlayContent::Cursor { asset_id, payload },
                OverlayContent::Cursor { asset_id: other_asset, payload: other_payload },
            ) => *asset_id == *other_asset && payload.same(other_payload),
            (
                OverlayContent::MouseClick { payload },
                OverlayContent::MouseClick { payload: other_payload },
            ) => payload.same(other_payload),
            (
                OverlayContent::Progress { style, payload },
                OverlayContent::Progress { style: other_style, payload: other_payload },
            ) => same_option(style, other_style) && payload.same(other_payload),
            _ => false,
        }
    }
}

/// Two contents that are seen alike are of one sort and agree in all that they hold.
pub proof fn law_contents_are_seen_whole(one: OverlayContent, other: OverlayContent)
    requires
        one@ == other@,
    ensures
        match (one, other) {
            (
                OverlayContent::Raster { asset_id, position, size, opacity },
                OverlayContent::Raster { asset_id: a, position: p, size: s, opacity: o },
            ) => asset_id == a && position == p && size == s && opacity == o,
            (
                OverlayContent::Text {
                    text,
                    position,
                    max_width,
                    font_family,
                    font_size_px,
                    foreground,
                    background,
                    alignment,
                    raster,
                },
                OverlayContent::Text {
                    text: t,
                    position: p,
                    max_width: m,
                    font_family: ff,
                    font_size_px: fs,
                    foreground: f,
                    background: b,
                    alignment: a,
                    raster: r,
                },
            ) => {
                &&& text@ == t@ && position == p && max_width == m && font_family@ == ff@
                &&& font_size_px == fs && foreground == f && background == b && alignment == a && raster == r
            },
            (
                OverlayContent::Shape { kind, bounds, stroke_width, stroke, fill },
                OverlayContent::Shape { kind: k, bounds: b, stroke_width: w, stroke: s, fill: f },
            ) => kind == k && bounds == b && stroke_width == w && stroke == s && fill == f,
            (
                OverlayContent::Drawing { points, width, color },
                OverlayContent::Drawing { points: p, width: w, color: c },
            ) => points@ == p@ && width == w && color == c,
            (
                OverlayContent::KeyStroke { text, position, raster },
                OverlayContent::KeyStroke { text: t, position: p, raster: r },
            ) => text@ == t@ && position == p && raster == r,
            (OverlayContent::Cursor { asset_id, payload }, OverlayContent::Cursor { asset_id: a, payload: p }) => asset_id
                == a && payload.bytes@ == p.bytes@,
            (OverlayContent::MouseClick { payload }, OverlayContent::MouseClick { payload: p }) => payload.bytes@
                == p.bytes@,
            (OverlayContent::Progress { style, payload }, OverlayContent::Progress { style: s, payload: p }) => {
                &&& payload.bytes@ == p.bytes@
                &&& match (style, s) {
                    (Some(left), Some(right)) => left.bytes@ == right.bytes@,
                    (None, None) => true,
                    _ => false,
                }
            },
            _ => false,
        },
{
}

} // verus!
