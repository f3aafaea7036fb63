//! Pixel geometry and colours.
use vstd::prelude::*;

verus! {

/// Why numbers make no picture geometry.
#[derive(Clone, Copy, Debug, PartialEq, Eq, Structural)]
pub enum GeometryError {
    /// A dimension is zero.
    Empty,
    /// An edge lies beyond the largest coordinate.
    OutOfRange,
}

impl GeometryError {
    /// The words for the error.
    pub open spec fn words(self) -> Seq<char> {
        match self {
            GeometryError::Empty => "width and height must be positive"@,
            GeometryError::OutOfRange => "rectangle exceeds the coordinate range"@,
        }
    }

    /// The words for the error.
    pub fn text(self) -> (words: &'static str)
        ensures
            words@ == self.words(),
    {
        match self {
            GeometryError::Empty => "width and height must be positive",
            GeometryError::OutOfRange => "rectangle exceeds the coordinate range",
        }
    }
}

/// A pixel position.
#[derive(Clone, Copy, Debug, PartialEq, Eq, PartialOrd, Ord, Hash, Structural)]
pub struct PhysicalPoint {
    /// Distance from the left edge.
    pub x: u32,
    /// Distance from the top edge.
    pub y: u32,
}

impl PhysicalPoint {
    /// The top left corner.
    pub fn origin() -> (point: PhysicalPoint)
        ensures
            point == (PhysicalPoint { x: 0, y: 0 }),
    {
        PhysicalPoint { x: 0, y: 0 }
    }
}

/// The dimensions of a picture.
#[derive(Clone, Copy, Debug, PartialEq, Eq, PartialOrd, Ord, Hash, Structural)]
pub struct PhysicalSize {
    /// Pixels per row.
    pub width: u32,
    /// Number of rows.
    pub height: u32,
}

impl PhysicalSize {
    /// Whether neither dimension is zero.
    pub open spec fn nonempty(self) -> bool {
        self.width > 0 && self.height > 0
    }

    /// The number of pixels.
    pub open spec fn pixel_count(self) -> int {
        self.width * self.height
    }

    /// What the given dimensions make.
    pub open spec fn of(width: u32, height: u32) -> Result<PhysicalSize, GeometryError> {
        if width > 0 && height > 0 {
            Ok(PhysicalSize { width, height })
        } else {
            Err(GeometryError::Empty)
        }
    }

    /// The size of the given dimensions, unless one of them is zero.
    pub fn new(width: u32, height: u32) -> (size: Result<PhysicalSize, GeometryError>)
        ensures
            size == PhysicalSize::of(width, height),
    {
        if width == 0 || height == 0 {
            Err(GeometryError::Empty)
        } else {
            Ok(PhysicalSize { width, height })
        }
    }

    /// Whether neither dimension is zero.
    pub fn is_valid(self) -> (valid: bool)
        ensures
            valid == self.nonempty(),
    {
        self.width > 0 && self.height > 0
    }

    /// The number of pixels, which always fits.
    pub fn area(self) -> (pixels: u64)
        ensures
            pixels == self.pixel_count(),
            pixels <= 0xffff_fffe_0000_0001,
    {
        assert(self.width * self.height <= 0xffff_fffe_0000_0001) by (nonlinear_arith)
            requires
                self.width <= 0xffff_ffff,
                self.height <= 0xffff_ffff,
        ;
        (self.width as u64) * (self.height as u64)
    }
}

/// A rectangle of pixels.
#[derive(Clone, Copy, Debug, PartialEq, Eq, PartialOrd, Ord, Hash, Structural)]
pub struct PhysicalRect {
    /// Its top left pixel.
    pub origin: PhysicalPoint,
    /// Its dimensions.
    pub size: PhysicalSize,
}

impl PhysicalRect {
    /// Whether every pixel of the rectangle lies inside a picture of size `canvas`.
    pub open spec fn inside(self, canvas: PhysicalSize) -> bool {
        &&& self.origin.x + self.size.width <= canvas.width
        &&& self.origin.y + self.size.height <= canvas.height
    }

    /// Whether the pixel in column `x` and row `y` belongs to the rectangle.
    pub open spec fn holds(self, x: int, y: int) -> bool {
        &&& self.origin.x <= x < self.origin.x + self.size.width
        &&& self.origin.y <= y < self.origin.y + self.size.height
    }

    /// What a position and dimensions make.
    pub open spec fn of(x: u32, y: u32, width: u32, height: u32) -> Result<PhysicalRect, GeometryError> {
        if width == 0 || height == 0 {
            Err(GeometryError::Empty)
        } else if x + width > u32::MAX || y + height > u32::MAX {
            Err(GeometryError::OutOfRange)
        } else {
            Ok(
                PhysicalRect {
                    origin: PhysicalPoint { x, y },
                    size: PhysicalSize { width, height },
                },
            )
        }
    }

    /// The rectangle at the given position, unless it is empty or an edge has no coordinate.
    pub fn new(x: u32, y: u32, width: u32, height: u32) -> (rect: Result<PhysicalRect, GeometryError>)
        ensures
            rect == PhysicalRect::of(x, y, width, height),
    {
        match PhysicalSize::new(width, height) {
            Ok(size) => {
                if x > u32::MAX - width || y > u32::MAX - height {
                    Err(GeometryError::OutOfRange)
                } else {
                    Ok(PhysicalRect { origin: PhysicalPoint { x, y }, size })
                }
            },
            Err(error) => Err(error),
        }
    }

    /// Whether every pixel of the rectangle lies inside a picture of size `canvas`.
    pub fn fits_within(self, canvas: PhysicalSize) -> (fits: bool)
        ensures
            fits == self.inside(canvas),
    {
        self.origin.x as u64 + self.size.width as u64 <= canvas.width as u64 && self.origin.y as u64
            + self.size.height as u64 <= canvas.height as u64
    }
}

/// A colour with straight alpha.
#[derive(Clone, Copy, Debug, PartialEq, Eq, Hash, Structural)]
pub struct Rgba {
    /// Red channel.
    pub red: u8,
    /// Green channel.
    pub green: u8,
    /// Blue channel.
    pub blue: u8,
    /// Opacity.
    pub alpha: u8,
}

impl Rgba {
    /// The colour that leaves no trace.
    pub fn transparent() -> (color: Rgba)
        ensures
            color == (Rgba { red: 0, green: 0, blue: 0, alpha: 0 }),
    {
        Rgba { red: 0, green: 0, blue: 0, alpha: 0 }
    }
}

/// A rectangle lies inside a canvas exactly where every pixel that it holds is a pixel of the canvas.
pub proof fn law_inside_means_every_pixel(rect: PhysicalRect, canvas: PhysicalSize)
    requires
        rect.size.width > 0 && rect.size.height > 0,
    ensures
        rect.inside(canvas) <==> forall|x: int, y: int| #[trigger]
            rect.holds(x, y) ==> 0 <= x < canvas.width && 0 <= y < canvas.height,
{
    let right = rect.origin.x + rect.size.width - 1;
    let below = rect.origin.y + rect.size.height - 1;
    assert(rect.holds(right, below));
}

/// A rectangle holds as many columns as it is wide, from its left edge on, and as many rows as it is high,
/// from its upper edge on.
pub proof fn law_a_rectangle_holds_its_columns_and_rows(rect: PhysicalRect, column: int, row: int)
    requires
        rect.size.width > 0 && rect.size.height > 0,
    ensures
        rect.holds(rect.origin.x + column, rect.origin.y + row) <==> 0 <= column < rect.size.width && 0 <= row
            < rect.size.height,
{
}

/// A picture has a row of pixels more for every row that it is higher, and none where it has no extent.
pub proof fn law_pixels_are_counted_by_rows(width: u32, height: u32)
    ensures
        height < u32::MAX ==> (PhysicalSize { width, height: (height + 1) as u32 }).pixel_count() == (PhysicalSize {
            width,
            height,
        }).pixel_count() + width,
        (PhysicalSize { width, height: 0 }).pixel_count() == 0,
        (PhysicalSize { width, height }).pixel_count() == (PhysicalSize { width: height, height: width }).pixel_count(),
{
    assert(width * (height + 1) == width * height + width) by (nonlinear_arith);
    assert(width * height == height * width) by (nonlinear_arith);
    assert(width * 0 == 0) by (nonlinear_arith);
}

/// A size has both extents, and a rectangle ends where a coordinate can still tell; what was asked for is
/// what is made.
pub proof fn law_what_extents_are_accepted(x: u32, y: u32, width: u32, height: u32)
    ensures
        PhysicalSize::of(width, height) is Ok <==> width != 0 && height != 0,
        PhysicalSize::of(width, height) matches Ok(size) ==> size.width == width && size.height == height,
        PhysicalRect::of(x, y, width, height) is Ok <==> width != 0 && height != 0 && x + width <= 0xffff_ffff && y
            + height <= 0xffff_ffff,
        PhysicalRect::of(x, y, width, height) matches Ok(rect) ==> rect.origin.x == x && rect.origin.y == y
            && rect.size.width == width && rect.size.height == height,
        PhysicalRect::of(x, y, width, height) == Err::<PhysicalRect, GeometryError>(GeometryError::Empty) <==> width
            == 0 || height == 0,
{
}

} // verus!
