//! The plain values of the display: places, sizes and colours, and the
//! laying of a colour into a frame buffer.

use vstd::prelude::*;

verus! {

/// A place on the screen or in a grid of cells, from the top left.
#[derive(Debug, Clone, Copy, PartialEq, Eq, Structural)]
pub struct Position {
    pub x: usize,
    pub y: usize,
}

impl Position {
    /// The place `x` to the right and `y` down.
    pub fn new(x: usize, y: usize) -> (position: Self)
        ensures
            position == (Position { x, y }),
    {
        Self { x, y }
    }
}

/// A width and a height.
#[derive(Debug, Clone, Copy, PartialEq, Eq, Structural)]
pub struct Size {
    pub width: usize,
    pub height: usize,
}

impl Size {
    /// The size of `width` by `height`.
    pub fn new(width: usize, height: usize) -> (size: Self)
        ensures
            size == (Size { width, height }),
    {
        Self { width, height }
    }
}

/// A rectangle: its top left corner and its size.
#[derive(Debug, Clone, Copy, PartialEq, Eq, Structural)]
pub struct Region {
    pub position: Position,
    pub size: Size,
}

impl Region {
    /// The rectangle of `size` at `position`.
    pub fn new(position: Position, size: Size) -> (region: Self)
        ensures
            region == (Region { position, size }),
    {
        Self { position, size }
    }
}

/// A colour by its red, green and blue parts.
#[derive(Debug, Clone, Copy, PartialEq, Eq, Structural)]
pub struct Color {
    pub red: u8,
    pub green: u8,
    pub blue: u8,
}

impl Color {
    /// The colour with the given parts.
    pub fn new(red: u8, green: u8, blue: u8) -> (color: Self)
        ensures
            color == (Color { red, green, blue }),
    {
        Self { red, green, blue }
    }
}

/// How the display is driven.
#[derive(Debug, Clone, Copy, PartialEq, Eq, Structural)]
pub enum DisplayType {
    Unknown,
    /// Every pixel is written to the frame buffer at once.
    Simple,
    /// Pixels are gathered in a second buffer that is copied over as a whole.
    Buffered,
}

/// What every display driver can do.
pub trait CommonDisplayDriver: Sized {
    /// A driver that is bound to no display yet.
    fn new() -> Self;

    /// Brings what the driver holds onto the display.
    fn draw_all(&mut self);

    /// Fills the display with `color`.
    fn clear(&mut self, color: Color);
}

/// How the bytes of a pixel of the frame buffer are laid out.
#[derive(Debug, Clone, Copy, PartialEq, Eq, Structural)]
pub enum PixelFormat {
    /// One byte red, one byte green, one byte blue.
    Rgb,
    /// One byte blue, one byte green, one byte red.
    Bgr,
    /// One byte of grey.
    U8,
    /// A layout by bit positions, which is not written to.
    Unknown { red_position: u8, green_position: u8, blue_position: u8 },
}

impl PixelFormat {
    /// How many bytes of a pixel the format gives a meaning to; none for a
    /// format that is not written to.
    pub open spec fn bytes_written(self) -> int {
        match self {
            PixelFormat::Rgb => 3,
            PixelFormat::Bgr => 3,
            PixelFormat::U8 => 1,
            PixelFormat::Unknown { .. } => 0,
        }
    }

    /// The bytes that stand for `color` in this format.
    pub open spec fn encode(self, color: Color) -> Seq<u8> {
        match self {
            PixelFormat::Rgb => seq![color.red, color.green, color.blue],
            PixelFormat::Bgr => seq![color.blue, color.green, color.red],
            PixelFormat::U8 => seq![(color.red / 3 + color.green / 3 + color.blue / 3) as u8],
            PixelFormat::Unknown { .. } => Seq::empty(),
        }
    }
}

/// A frame buffer with the bytes `bytes` laid in at `index`.
pub open spec fn overlay(buffer: Seq<u8>, index: int, bytes: Seq<u8>) -> Seq<u8> {
    Seq::new(
        buffer.len(),
        |i: int|
            if index <= i < index + bytes.len() {
                bytes[i - index]
            } else {
                buffer[i]
            },
    )
}

/// The offset in the frame buffer of the pixel at `position`, where a line
/// of the buffer holds `stride` pixels of `bytes_per_pixel` bytes.
pub fn pixel_offset(position: Position, stride: usize, bytes_per_pixel: usize) -> (offset: usize)
    requires
        position.y * stride + position.x <= usize::MAX,
        (position.y * stride + position.x) * bytes_per_pixel <= usize::MAX,
    ensures
        offset == (position.y * stride + position.x) * bytes_per_pixel,
{
    let line_offset = position.y * stride;
    let pixel_offset = line_offset + position.x;
    pixel_offset * bytes_per_pixel
}

/// Lays `color` into the pixel of `frame_buffer` that starts at byte
/// `index`: red, green and blue in the order of the format, or their grey.
/// The rest of the pixel and of the buffer stays as it is.
pub fn set_pixel_in_at(
    frame_buffer: &mut [u8],
    pixel_format: PixelFormat,
    bytes_per_pixel: usize,
    index: usize,
    color: Color,
)
    requires
        pixel_format.bytes_written() > 0,
        pixel_format.bytes_written() <= bytes_per_pixel,
        index + bytes_per_pixel <= old(frame_buffer)@.len(),
    ensures
        final(frame_buffer)@ == overlay(old(frame_buffer)@, index as int, pixel_format.encode(color)),
{
    let len: usize = frame_buffer.len();
    assert(index + bytes_per_pixel <= len);
    match pixel_format {
        PixelFormat::Rgb => {
            frame_buffer[index] = color.red;
            frame_buffer[index + 1] = color.green;
            frame_buffer[index + 2] = color.blue;
        },
        PixelFormat::Bgr => {
            frame_buffer[index] = color.blue;
            frame_buffer[index + 1] = color.green;
            frame_buffer[index + 2] = color.red;
        },
        PixelFormat::U8 => {
            let gray: u8 = color.red / 3 + color.green / 3 + color.blue / 3;
            frame_buffer[index] = gray;
        },
        PixelFormat::Unknown { .. } => {},
    }
    assert(frame_buffer@ =~= overlay(old(frame_buffer)@, index as int, pixel_format.encode(color)));
}

} // verus!
