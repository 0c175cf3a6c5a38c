//! The framebuffer: a grid of packed colours beside a grid of depths, where a
//! point is painted only over a lesser depth.

use vstd::prelude::*;
use crate::bmp::{bitmap, encodable, encode_bitmap};
use crate::color::Color;
use crate::scalar::{Scalar, LOWEST_KEY};

verus! {

/// Why a point was not painted.
#[derive(Clone, Copy, Debug, PartialEq, Eq, Structural)]
pub enum PaintPointErrors {
    XTooLarge,
    XTooSmall,
    YTooLarge,
    YTooSmall,
}

/// Why a pixel could not be read.
#[derive(Clone, Copy, Debug, PartialEq, Eq, Structural)]
pub enum GetColorErrors {
    XTooLarge,
    YTooLarge,
}

impl PaintPointErrors {
    /// The name of the variant.
    pub fn name(&self) -> (s: &'static str)
        ensures
            s@ == match *self {
                PaintPointErrors::XTooLarge => "XTooLarge"@,
                PaintPointErrors::XTooSmall => "XTooSmall"@,
                PaintPointErrors::YTooLarge => "YTooLarge"@,
                PaintPointErrors::YTooSmall => "YTooSmall"@,
            },
    {
        match self {
            PaintPointErrors::XTooLarge => "XTooLarge",
            PaintPointErrors::XTooSmall => "XTooSmall",
            PaintPointErrors::YTooLarge => "YTooLarge",
            PaintPointErrors::YTooSmall => "YTooSmall",
        }
    }
}

/// What a framebuffer holds, as mathematics.
pub struct FramebufferView {
    pub width: nat,
    pub height: nat,
    /// The packed colour of each pixel, row after row from the top.
    pub pixels: Seq<u32>,
    /// The key of the depth last painted at each pixel.
    pub depths: Seq<int>,
    /// The pixels that a clear puts back.
    pub backdrop: Seq<u32>,
    pub background_color: Color,
    /// The colour that the next point is painted in.
    pub current_color: Color,
}

/// What painting the point `(x, y)` returns in a buffer of the given size:
/// the first complaint in the order left, top, right, bottom.
pub open spec fn paint_outcome(width: nat, height: nat, x: int, y: int) -> Result<
    (),
    PaintPointErrors,
> {
    if x < 0 {
        Err(PaintPointErrors::XTooSmall)
    } else if y < 0 {
        Err(PaintPointErrors::YTooSmall)
    } else if x >= width {
        Err(PaintPointErrors::XTooLarge)
    } else if y >= height {
        Err(PaintPointErrors::YTooLarge)
    } else {
        Ok(())
    }
}

impl FramebufferView {
    /// Each grid has one entry per pixel.
    pub open spec fn wf(self) -> bool {
        &&& self.pixels.len() == self.width * self.height
        &&& self.depths.len() == self.width * self.height
        &&& self.backdrop.len() == self.width * self.height
    }

    /// The pixels, four bytes each, fit in one allocation.
    pub open spec fn fits(self) -> bool {
        self.wf() && 4 * (self.width * self.height) <= isize::MAX
    }

    pub open spec fn contains(self, x: int, y: int) -> bool {
        0 <= x < self.width && 0 <= y < self.height
    }

    /// Where the pixel `(x, y)` lies in the grids.
    pub open spec fn offset(self, x: int, y: int) -> int {
        y * self.width + x
    }

    pub open spec fn color_at(self, x: int, y: int) -> Color {
        Color::unpacked(self.pixels[self.offset(x, y)] as int)
    }

    pub open spec fn depth_at(self, x: int, y: int) -> int {
        self.depths[self.offset(x, y)]
    }

    /// The backdrop shows the background colour everywhere.
    pub open spec fn plain_backdrop(self) -> bool {
        forall|i: int|
            0 <= i < self.backdrop.len() ==> #[trigger] self.backdrop[i]
                == self.background_color.packed()
    }

    /// After a point at `(x, y)` was painted at `depth`: the pixel takes the
    /// current colour and the depth if the depth is above the one held there,
    /// and nothing changes otherwise, nor for a point outside the buffer.
    pub open spec fn painted(self, x: int, y: int, depth: int) -> FramebufferView {
        if self.contains(x, y) && self.depth_at(x, y) < depth {
            FramebufferView {
                pixels: self.pixels.update(self.offset(x, y), self.current_color.packed() as u32),
                depths: self.depths.update(self.offset(x, y), depth),
                ..self
            }
        } else {
            self
        }
    }

    /// After a clear: the backdrop is shown and every depth is the lowest.
    pub open spec fn cleared(self) -> FramebufferView {
        FramebufferView {
            pixels: self.backdrop,
            depths: Seq::new(self.backdrop.len(), |i: int| LOWEST_KEY as int),
            ..self
        }
    }

    pub open spec fn with_current_color(self, color: Color) -> FramebufferView {
        FramebufferView { current_color: color, ..self }
    }

    /// With a new background colour, which the backdrop then shows everywhere.
    pub open spec fn with_background_color(self, color: Color) -> FramebufferView {
        FramebufferView {
            background_color: color,
            backdrop: Seq::new(self.backdrop.len(), |i: int| color.packed() as u32),
            ..self
        }
    }

    /// With the picture as it stands taken as the backdrop.
    pub open spec fn saved_as_background(self) -> FramebufferView {
        FramebufferView { backdrop: self.pixels, ..self }
    }
}

/// A buffer of `width * height` entries, each the packed form of `color`.
pub fn create_filled_buffer(width: usize, height: usize, color: &Color) -> (buffer: Vec<u32>)
    requires
        width * height <= usize::MAX,
    ensures
        buffer@ == Seq::new((width * height) as nat, |i: int| color.packed() as u32),
{
    let hex = color.to_hex();
    let size = area(width, height);
    let mut buffer: Vec<u32> = Vec::new();
    let mut i: usize = 0;
    while i < size
        invariant
            i <= size,
            buffer@ == Seq::new(i as nat, |k: int| hex),
        decreases size - i,
    {
        buffer.push(hex);
        i += 1;
        assert(buffer@ =~= Seq::new(i as nat, |k: int| hex));
    }
    buffer
}

fn create_filled_z_buffer(width: usize, height: usize, default: i32) -> (buffer: Vec<i32>)
    requires
        width * height <= usize::MAX,
    ensures
        buffer@ == Seq::new((width * height) as nat, |i: int| default),
{
    let size = area(width, height);
    let mut buffer: Vec<i32> = Vec::new();
    let mut i: usize = 0;
    while i < size
        invariant
            i <= size,
            buffer@ == Seq::new(i as nat, |k: int| default),
        decreases size - i,
    {
        buffer.push(default);
        i += 1;
        assert(buffer@ =~= Seq::new(i as nat, |k: int| default));
    }
    buffer
}

fn area(width: usize, height: usize) -> (size: usize)
    requires
        width * height <= usize::MAX,
    ensures
        size == width * height,
{
    width * height
}

/// Row `y` and column `x` of a grid lie inside it.
proof fn lemma_offset_in_grid(width: int, height: int, x: int, y: int)
    requires
        0 <= x < width,
        0 <= y < height,
    ensures
        0 <= y * width + x < width * height,
{
    assert(y * width + x < width * height) by (nonlinear_arith)
        requires
            0 <= x < width,
            0 <= y < height,
    ;
    assert(0 <= y * width) by (nonlinear_arith)
        requires
            0 <= y,
            0 <= width,
    ;
}

/// After a clear, a framebuffer whose backdrop is plain shows the background
/// colour at every pixel.
pub proof fn lemma_clear_shows_background(fb: FramebufferView, x: int, y: int)
    requires
        fb.wf(),
        fb.plain_backdrop(),
        fb.contains(x, y),
    ensures
        fb.cleared().color_at(x, y) == fb.background_color,
{
    lemma_offset_in_grid(fb.width as int, fb.height as int, x, y);
    Color::lemma_unpack_packed(fb.background_color);
}

/// A point painted above the depth held shows its colour and holds its depth.
pub proof fn lemma_paint_above_shows(fb: FramebufferView, x: int, y: int, depth: int)
    requires
        fb.wf(),
        fb.contains(x, y),
        fb.depth_at(x, y) < depth,
    ensures
        fb.painted(x, y, depth).color_at(x, y) == fb.current_color,
        fb.painted(x, y, depth).depth_at(x, y) == depth,
{
    lemma_offset_in_grid(fb.width as int, fb.height as int, x, y);
    Color::lemma_unpack_packed(fb.current_color);
}

/// A point painted at or below the depth held changes nothing.
pub proof fn lemma_paint_below_is_lost(fb: FramebufferView, x: int, y: int, depth: int)
    requires
        depth <= fb.depth_at(x, y),
    ensures
        fb.painted(x, y, depth) == fb,
{
}

/// The greater depth wins: of two points painted at one pixel, the first above
/// the depth held and the second not above the first, the first stays in
/// sight, whatever colour the second was painted in.
pub proof fn lemma_greater_depth_wins(
    fb: FramebufferView,
    x: int,
    y: int,
    first: int,
    second: int,
    other: Color,
)
    requires
        fb.wf(),
        fb.contains(x, y),
        fb.depth_at(x, y) < first,
        second <= first,
    ensures
        fb.painted(x, y, first).with_current_color(other).painted(x, y, second).color_at(x, y)
            == fb.current_color,
{
    lemma_paint_above_shows(fb, x, y, first);
}

/// Painting one pixel leaves the colour and depth of every other pixel.
pub proof fn lemma_paint_leaves_others(
    fb: FramebufferView,
    x: int,
    y: int,
    depth: int,
    u: int,
    v: int,
)
    requires
        fb.wf(),
        fb.contains(u, v),
        (u, v) != (x, y),
    ensures
        fb.painted(x, y, depth).color_at(u, v) == fb.color_at(u, v),
        fb.painted(x, y, depth).depth_at(u, v) == fb.depth_at(u, v),
{
    if fb.contains(x, y) {
        lemma_offset_in_grid(fb.width as int, fb.height as int, x, y);
        lemma_offset_in_grid(fb.width as int, fb.height as int, u, v);
        let w = fb.width as int;
        assert(v * w + u != y * w + x) by (nonlinear_arith)
            requires
                0 <= u < w,
                0 <= x < w,
                (u, v) != (x, y),
        ;
    }
}

/// A grid of pixels with a depth for each.
pub struct Framebuffer {
    width: usize,
    height: usize,
    buffer: Vec<u32>,
    background_color: Color,
    current_color: Color,
    empty_buffer: Vec<u32>,
    z_buffer: Vec<i32>,
    empty_z_buffer: Vec<i32>,
}

impl View for Framebuffer {
    type V = FramebufferView;

    closed spec fn view(&self) -> FramebufferView {
        FramebufferView {
            width: self.width as nat,
            height: self.height as nat,
            pixels: self.buffer@,
            depths: self.z_buffer@.map_values(|k: i32| k as int),
            backdrop: self.empty_buffer@,
            background_color: self.background_color,
            current_color: self.current_color,
        }
    }
}

impl Framebuffer {
    #[verifier::type_invariant]
    spec fn grids_fit(self) -> bool {
        &&& 4 * (self.width * self.height) <= isize::MAX
        &&& self.buffer.len() == self.width * self.height
        &&& self.empty_buffer.len() == self.width * self.height
        &&& self.z_buffer.len() == self.width * self.height
        &&& self.empty_z_buffer@ == Seq::new(
            (self.width * self.height) as nat,
            |i: int| LOWEST_KEY,
        )
    }

    /// A black framebuffer that paints in white, with every depth the lowest.
    /// The pixels, four bytes each, must fit in one allocation.
    pub fn new(width: usize, height: usize) -> (fb: Framebuffer)
        requires
            4 * (width * height) <= isize::MAX,
        ensures
            fb@.fits(),
            fb@.width == width,
            fb@.height == height,
            fb@.background_color == (Color { r: 0, g: 0, b: 0 }),
            fb@.current_color == (Color { r: 255, g: 255, b: 255 }),
            fb@.plain_backdrop(),
            fb@ == fb@.cleared(),
    {
        let background_color = Color::default();
        let current_color = Color::white();
        let empty_buffer = create_filled_buffer(width, height, &background_color);
        let buffer = empty_buffer.clone();
        let z_buffer = create_filled_z_buffer(width, height, LOWEST_KEY);
        let empty_z_buffer = z_buffer.clone();
        let fb = Framebuffer {
            width,
            height,
            buffer,
            background_color,
            current_color,
            empty_buffer,
            z_buffer,
            empty_z_buffer,
        };
        assert(fb@.pixels =~= fb@.cleared().pixels);
        assert(fb@.depths =~= fb@.cleared().depths);
        fb
    }

    pub fn width(&self) -> (w: usize)
        ensures
            w == self@.width,
            self@.fits(),
    {
        proof {
            use_type_invariant(self);
        }
        self.width
    }

    pub fn height(&self) -> (h: usize)
        ensures
            h == self@.height,
            self@.fits(),
    {
        proof {
            use_type_invariant(self);
        }
        self.height
    }

    /// The packed pixels, row after row from the top.
    pub fn buffer(&self) -> (pixels: &Vec<u32>)
        ensures
            pixels@ == self@.pixels,
    {
        &self.buffer
    }

    /// Puts the backdrop back and forgets every depth.
    pub fn clear(&mut self)
        ensures
            final(self)@ == old(self)@.cleared(),
            final(self)@.fits(),
    {
        proof {
            use_type_invariant(&*self);
        }
        self.buffer = self.empty_buffer.clone();
        self.z_buffer = self.empty_z_buffer.clone();
        assert(self@.depths =~= old(self)@.cleared().depths);
        assert(self@.pixels =~= old(self)@.cleared().pixels);
    }

    /// Takes the picture as it stands for the backdrop of later clears.
    pub fn save_as_background(&mut self)
        ensures
            final(self)@ == old(self)@.saved_as_background(),
            final(self)@.fits(),
    {
        proof {
            use_type_invariant(&*self);
        }
        self.empty_buffer = self.buffer.clone();
        assert(self@.backdrop =~= old(self)@.saved_as_background().backdrop);
    }

    /// Paints the pixel `(x, y)` in the current colour if `depth` is above the
    /// depth held there. A point outside the buffer is refused and changes
    /// nothing; a point that loses against the depth held is accepted and
    /// changes nothing.
    pub fn paint_point(&mut self, x: i64, y: i64, depth: Scalar) -> (r: Result<
        (),
        PaintPointErrors,
    >)
        ensures
            r == paint_outcome(old(self)@.width, old(self)@.height, x as int, y as int),
            final(self)@ == old(self)@.painted(x as int, y as int, depth@),
            final(self)@.fits(),
    {
        proof {
            use_type_invariant(&*self);
        }
        if x < 0 {
            return Err(PaintPointErrors::XTooSmall);
        }
        if y < 0 {
            return Err(PaintPointErrors::YTooSmall);
        }
        if x as u64 >= self.width as u64 {
            return Err(PaintPointErrors::XTooLarge);
        }
        if y as u64 >= self.height as u64 {
            return Err(PaintPointErrors::YTooLarge);
        }
        proof {
            lemma_offset_in_grid(self.width as int, self.height as int, x as int, y as int);
        }
        let idx = (y as usize) * self.width + (x as usize);
        let key = depth.key();
        if self.z_buffer[idx] < key {
            self.z_buffer[idx] = key;
            self.buffer[idx] = self.current_color.to_hex();
            assert(self@.depths =~= old(self)@.painted(x as int, y as int, depth@).depths);
        }
        Ok(())
    }

    /// The colour of the pixel `(x, y)`; a row outside the buffer is
    /// reported before a column outside it.
    pub fn get_color(&self, x: usize, y: usize) -> (r: Result<Color, GetColorErrors>)
        ensures
            r == if y >= self@.height {
                Err::<Color, GetColorErrors>(GetColorErrors::YTooLarge)
            } else if x >= self@.width {
                Err::<Color, GetColorErrors>(GetColorErrors::XTooLarge)
            } else {
                Ok::<Color, GetColorErrors>(self@.color_at(x as int, y as int))
            },
    {
        proof {
            use_type_invariant(self);
        }
        if y >= self.height {
            return Err(GetColorErrors::YTooLarge);
        }
        if x >= self.width {
            return Err(GetColorErrors::XTooLarge);
        }
        proof {
            lemma_offset_in_grid(self.width as int, self.height as int, x as int, y as int);
        }
        Ok(Color::from_hex(self.buffer[y * self.width + x]))
    }

    /// Sets the background colour and makes the backdrop show it everywhere.
    /// The picture itself changes at the next clear.
    pub fn set_background_color(&mut self, new_color: Color)
        ensures
            final(self)@ == old(self)@.with_background_color(new_color),
            final(self)@.fits(),
    {
        proof {
            use_type_invariant(&*self);
        }
        self.background_color = new_color;
        self.empty_buffer = create_filled_buffer(self.width, self.height, &new_color);
        assert(self@.backdrop =~= old(self)@.with_background_color(new_color).backdrop);
    }

    /// The picture as the bytes of a bitmap file, where its size can be
    /// written in one.
    pub fn to_bitmap(&self) -> (file: Option<Vec<u8>>)
        ensures
            file is Some == encodable(self@.width, self@.height),
            file matches Some(bytes) ==> bytes@ == bitmap(
                self@.width,
                self@.height,
                self@.pixels,
            ),
    {
        proof {
            use_type_invariant(self);
        }
        encode_bitmap(self.width, self.height, &self.buffer)
    }

    /// Sets the colour that points are painted in.
    pub fn set_current_color(&mut self, new_color: Color)
        ensures
            final(self)@ == old(self)@.with_current_color(new_color),
            final(self)@.fits(),
    {
        proof {
            use_type_invariant(&*self);
        }
        self.current_color = new_color;
    }
}

} // verus!
