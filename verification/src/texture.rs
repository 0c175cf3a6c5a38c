//! Textures: decoded pictures held as rows of colours, looked up by pixel.

use vstd::prelude::*;
use crate::color::Color;
use crate::scalar::Scalar;
use crate::scaling::{scale_whole, scaled};

verus! {

/// The pictures that the scene draws from.
#[derive(Clone, Copy, Debug, PartialEq, Eq, Structural)]
pub enum Textures {
    Space,
    Instructions,
}

/// The encodings in which the pictures are stored.
#[derive(Clone, Copy, Debug, PartialEq, Eq, Structural)]
pub enum ImageKind {
    Png,
    Jpeg,
}

/// Why no texture came of a picture.
#[derive(Clone, Copy, Debug, PartialEq, Eq, Structural)]
pub enum TextureError {
    /// The bytes are no picture of the kind they were said to be.
    Undecodable,
    /// The picture has more pixels than this machine can index.
    TooLarge,
}

/// The image crate's `DynamicImage`, a decoded picture. Nothing inside it is
/// known here but through the three names below.
#[verifier::external_type_specification]
#[verifier::external_body]
pub struct ExDynamicImage(image::DynamicImage);

/// The image crate's `ImageError`, of which nothing is known here.
#[verifier::external_type_specification]
#[verifier::external_body]
pub struct ExImageError(image::ImageError);

/// The number of columns of a decoded picture, as `DynamicImage::width`
/// gives it.
pub uninterp spec fn image_width(picture: image::DynamicImage) -> u32;

/// The number of rows of a decoded picture, as `DynamicImage::height` gives
/// it.
pub uninterp spec fn image_height(picture: image::DynamicImage) -> u32;

/// The red, green, blue and alpha that a decoded picture gives for the pixel
/// in column `x` of row `y`, as bytes: what `GenericImageView::get_pixel`
/// gives for it.
pub uninterp spec fn image_pixel(picture: image::DynamicImage, x: u32, y: u32) -> (u8, u8, u8, u8);

/// Calls `image::load_from_memory_with_format`, which decodes the bytes as a
/// file of the given format. Nothing is claimed of the outcome: which bytes
/// decode, and to what, is the decoder's business, and it may choose its
/// routines by the machine it runs on.
#[verifier::external_body]
fn decode(bytes: &[u8], kind: ImageKind) -> (r: Result<image::DynamicImage, image::ImageError>) {
    let format = match kind {
        ImageKind::Png => image::ImageFormat::Png,
        ImageKind::Jpeg => image::ImageFormat::Jpeg,
    };
    image::load_from_memory_with_format(bytes, format)
}

/// Calls `DynamicImage::width`, which reads the width of the buffer held. The
/// result is claimed to depend on the picture alone.
#[verifier::external_body]
fn picture_width(picture: &image::DynamicImage) -> (width: u32)
    ensures
        width == image_width(*picture),
{
    picture.width()
}

/// Calls `DynamicImage::height`, which reads the height of the buffer held.
/// The result is claimed to depend on the picture alone.
#[verifier::external_body]
fn picture_height(picture: &image::DynamicImage) -> (height: u32)
    ensures
        height == image_height(*picture),
{
    picture.height()
}

/// Calls `GenericImageView::get_pixel` on a `DynamicImage`, which converts the
/// pixel held at `(x, y)` to four bytes and panics outside the picture. The
/// result is claimed to depend on the picture and the place alone.
#[verifier::external_body]
fn picture_pixel(picture: &image::DynamicImage, x: u32, y: u32) -> (pixel: (u8, u8, u8, u8))
    requires
        x < image_width(*picture),
        y < image_height(*picture),
    ensures
        pixel == image_pixel(*picture, x, y),
{
    let rgba = image::GenericImageView::get_pixel(picture, x, y);
    (rgba.0[0], rgba.0[1], rgba.0[2], rgba.0[3])
}

/// What a texture holds, as mathematics.
pub struct TextureView {
    pub width: nat,
    pub height: nat,
    /// The colours, row after row from the top.
    pub colors: Seq<Color>,
}

impl TextureView {
    pub open spec fn wf(self) -> bool {
        self.colors.len() == self.width * self.height
    }

    pub open spec fn contains(self, x: int, y: int) -> bool {
        0 <= x < self.width && 0 <= y < self.height
    }

    pub open spec fn color_at(self, x: int, y: int) -> Color {
        self.colors[y * self.width + x]
    }
}

/// The pixel that a texture coordinate falls on along a side of `size`
/// pixels: the coordinate times the size, as single-precision arithmetic gives
/// it to a whole number of 32 bits.
pub open spec fn texel(size: nat, key: int) -> int {
    scaled(size, key, u32::MAX as int)
}

/// The colour of a decoded pixel: its red, green and blue, the alpha dropped.
pub open spec fn opaque_color(pixel: (u8, u8, u8, u8)) -> Color {
    Color { r: pixel.0, g: pixel.1, b: pixel.2 }
}

/// The texture that holds a decoded picture, pixel for pixel.
pub open spec fn texture_of(picture: image::DynamicImage) -> TextureView {
    let width = image_width(picture) as nat;
    let height = image_height(picture) as nat;
    TextureView {
        width,
        height,
        colors: Seq::new(width * height, |i: int| texel_of(picture, i)),
    }
}

/// What becomes of an outcome of the decoder: an error is `Undecodable`, a
/// picture with more pixels than this machine can index is `TooLarge`, and
/// every other picture gives the texture that holds it pixel for pixel.
pub open spec fn texture_from(
    outcome: Result<image::DynamicImage, image::ImageError>,
) -> Result<TextureView, TextureError> {
    match outcome {
        Err(_) => Err(TextureError::Undecodable),
        Ok(picture) => if image_width(picture) * image_height(picture) > usize::MAX {
            Err(TextureError::TooLarge)
        } else {
            Ok(texture_of(picture))
        },
    }
}

/// A texture or its error, the texture as mathematics.
pub open spec fn viewed(r: Result<Texture, TextureError>) -> Result<TextureView, TextureError> {
    match r {
        Ok(texture) => Ok(texture@),
        Err(e) => Err(e),
    }
}

/// What becomes of the two textures of the scene: both, or the error of the
/// first that has one.
pub open spec fn textures_from(
    space: Result<TextureView, TextureError>,
    instructions: Result<TextureView, TextureError>,
) -> Result<(TextureView, TextureView), TextureError> {
    match space {
        Err(e) => Err(e),
        Ok(first) => match instructions {
            Err(e) => Err(e),
            Ok(second) => Ok((first, second)),
        },
    }
}

/// A picture held as colours.
pub struct Texture {
    width: u32,
    height: u32,
    colors: Vec<Color>,
}

impl View for Texture {
    type V = TextureView;

    closed spec fn view(&self) -> TextureView {
        TextureView {
            width: self.width as nat,
            height: self.height as nat,
            colors: self.colors@,
        }
    }
}

/// The pixels of a picture can be counted in 64 bits.
proof fn lemma_pixels_countable(width: u32, height: u32)
    ensures
        width * height <= u64::MAX,
{
    assert(width * height <= 0xffff_ffff * 0xffff_ffff) by (nonlinear_arith)
        requires
            0 <= width <= 0xffff_ffff,
            0 <= height <= 0xffff_ffff,
    ;
}

/// The colour that a texture holds at place `i` for a decoded picture.
pub open spec fn texel_of(picture: image::DynamicImage, i: int) -> Color {
    let width = image_width(picture) as int;
    opaque_color(image_pixel(picture, (i % width) as u32, (i / width) as u32))
}

/// Row `y` and column `x` of a grid lie inside it, and where in it.
proof fn lemma_cell(width: int, height: int, x: int, y: int)
    requires
        0 <= x < width,
        0 <= y < height,
    ensures
        0 <= y * width + x < width * height,
        (y * width + x) % width == x,
        (y * width + x) / width == y,
{
    assert(y * width + x < width * height) by (nonlinear_arith)
        requires
            0 <= x < width,
            0 <= y < height,
    ;
    assert(0 <= y * width) by (nonlinear_arith)
        requires
            0 <= y,
            0 <= width,
    ;
    vstd::arithmetic::div_mod::lemma_fundamental_div_mod_converse(y * width + x, width, y, x);
}

impl Texture {
    #[verifier::type_invariant]
    spec fn colors_fit(self) -> bool {
        self.colors.len() == self.width * self.height
    }

    /// A texture of the given size from its colours, row after row from the
    /// top; none where the number of colours is not that of the pixels.
    pub fn from_colors(width: u32, height: u32, colors: Vec<Color>) -> (texture: Option<Texture>)
        ensures
            match texture {
                Some(t) => t@ == (TextureView {
                    width: width as nat,
                    height: height as nat,
                    colors: colors@,
                }) && t@.wf(),
                None => colors.len() != width * height,
            },
    {
        proof {
            lemma_pixels_countable(width, height);
        }
        if colors.len() as u64 == width as u64 * height as u64 {
            Some(Texture { width, height, colors })
        } else {
            None
        }
    }

    /// The texture that holds a decoded picture, pixel for pixel.
    pub fn from_image(picture: &image::DynamicImage) -> (r: Result<Texture, TextureError>)
        ensures
            match r {
                Ok(t) => t@ == texture_of(*picture) && t@.wf() && image_width(*picture)
                    * image_height(*picture) <= usize::MAX,
                Err(e) => e == TextureError::TooLarge && image_width(*picture) * image_height(
                    *picture,
                ) > usize::MAX,
            },
    {
        let width = picture_width(picture);
        let height = picture_height(picture);
        proof {
            lemma_pixels_countable(width, height);
        }
        let size = width as u64 * height as u64;
        if size > usize::MAX as u64 {
            return Err(TextureError::TooLarge);
        }
        let ghost target = texture_of(*picture);
        let mut colors: Vec<Color> = Vec::new();
        let mut y: u32 = 0;
        while y < height
            invariant
                y <= height,
                width == image_width(*picture),
                height == image_height(*picture),
                width * height <= usize::MAX,
                colors.len() == y * width,
                forall|i: int| 0 <= i < colors.len() ==> colors[i] == texel_of(*picture, i),
            decreases height - y,
        {
            let mut x: u32 = 0;
            while x < width
                invariant
                    x <= width,
                    y < height,
                    width == image_width(*picture),
                    height == image_height(*picture),
                        width * height <= usize::MAX,
                    colors.len() == y * width + x,
                    forall|i: int| 0 <= i < colors.len() ==> colors[i] == texel_of(*picture, i),
                decreases width - x,
            {
                let pixel = picture_pixel(picture, x, y);
                proof {
                    lemma_cell(width as int, height as int, x as int, y as int);
                }
                colors.push(Color { r: pixel.0, g: pixel.1, b: pixel.2 });
                x += 1;
            }
            y += 1;
            assert(colors.len() == y * width) by (nonlinear_arith)
                requires
                    colors.len() == (y - 1) * width + width,
            ;
        }
        assert(colors.len() == width * height) by (nonlinear_arith)
            requires
                colors.len() == y * width,
                y == height,
        ;
        assert(colors@ =~= target.colors);
        Ok(Texture { width, height, colors })
    }

    /// What becomes of an outcome of the decoder: the texture of the picture
    /// that it decoded, or why there is none.
    pub fn from_decoded(outcome: Result<image::DynamicImage, image::ImageError>) -> (r: Result<
        Texture,
        TextureError,
    >)
        ensures
            viewed(r) == texture_from(outcome),
            r matches Ok(t) ==> t@.wf(),
    {
        match outcome {
            Ok(picture) => Texture::from_image(&picture),
            Err(_) => Err(TextureError::Undecodable),
        }
    }

    /// Decodes the bytes of a picture file of the given kind into a texture.
    /// Which bytes the decoder takes for a picture, and for which, is its own
    /// business; the result is what `from_decoded` makes of its outcome.
    pub fn new(bytes: &[u8], kind: ImageKind) -> (r: Result<Texture, TextureError>)
        ensures
            exists|outcome: Result<image::DynamicImage, image::ImageError>|
                #[trigger] texture_from(outcome) == viewed(r),
            r matches Ok(t) ==> t@.wf(),
    {
        let outcome = decode(bytes, kind);
        let ghost seen = outcome;
        let r = Texture::from_decoded(outcome);
        assert(texture_from(seen) == viewed(r));
        r
    }

    pub fn width(&self) -> (w: u32)
        ensures
            w == self@.width,
    {
        self.width
    }

    pub fn height(&self) -> (h: u32)
        ensures
            h == self@.height,
    {
        self.height
    }

    /// The colour of the pixel in column `x` of row `y`, if the texture has it.
    pub fn pixel_color(&self, x: u32, y: u32) -> (color: Option<Color>)
        ensures
            color == if self@.contains(x as int, y as int) {
                Some(self@.color_at(x as int, y as int))
            } else {
                None
            },
            self@.wf(),
    {
        proof {
            use_type_invariant(self);
        }
        if x < self.width && y < self.height {
            proof {
                lemma_cell(self.width as int, self.height as int, x as int, y as int);
            }
            let idx = y as usize * self.width as usize + x as usize;
            Some(self.colors[idx])
        } else {
            None
        }
    }

    /// The colour at the texture coordinates `(u, v)`, which run from zero to
    /// one across the texture: that of the pixel that `u` times the width and
    /// `v` times the height fall on, if the texture has it.
    pub fn get_pixel_color(&self, u: Scalar, v: Scalar) -> (color: Option<Color>)
        ensures
            color == if self@.contains(texel(self@.width, u@), texel(self@.height, v@)) {
                Some(self@.color_at(texel(self@.width, u@), texel(self@.height, v@)))
            } else {
                None
            },
    {
        let x = scale_whole(self.width, u.key(), u32::MAX);
        let y = scale_whole(self.height, v.key(), u32::MAX);
        self.pixel_color(x, y)
    }
}

impl Textures {
    /// The name of the file that holds the picture.
    pub fn file_name(&self) -> (name: &'static str)
        ensures
            name@ == match *self {
                Textures::Space => "space.png"@,
                Textures::Instructions => "instructions.jpg"@,
            },
    {
        match self {
            Textures::Space => "space.png",
            Textures::Instructions => "instructions.jpg",
        }
    }

    /// The encoding of the file that holds the picture.
    pub fn kind(&self) -> (kind: ImageKind)
        ensures
            kind == match *self {
                Textures::Space => ImageKind::Png,
                Textures::Instructions => ImageKind::Jpeg,
            },
    {
        match self {
            Textures::Space => ImageKind::Png,
            Textures::Instructions => ImageKind::Jpeg,
        }
    }
}

/// The textures of the scene.
pub struct GameTextures {
    pub space: Texture,
    pub instructions: Texture,
}

impl GameTextures {
    /// The textures of the scene from the two that were loaded: both, or
    /// the error of the first that has one.
    pub fn from_textures(
        space: Result<Texture, TextureError>,
        instructions: Result<Texture, TextureError>,
    ) -> (r: Result<GameTextures, TextureError>)
        ensures
            r == match space {
                Err(e) => Err::<GameTextures, TextureError>(e),
                Ok(first) => match instructions {
                    Err(e) => Err::<GameTextures, TextureError>(e),
                    Ok(second) => Ok::<GameTextures, TextureError>(
                        GameTextures { space: first, instructions: second },
                    ),
                },
            },
    {
        match space {
            Err(e) => Err(e),
            Ok(first) => match instructions {
                Err(e) => Err(e),
                Ok(second) => Ok(GameTextures { space: first, instructions: second }),
            },
        }
    }

    /// Decodes the two pictures from the bytes of their files, the first as
    /// a PNG file and the second as a JPEG file. The result is what
    /// `from_textures` makes of what `Texture::new` made of each: both
    /// textures, or the error of the first picture that has one.
    pub fn new(space: &[u8], instructions: &[u8]) -> (r: Result<GameTextures, TextureError>)
        ensures
            exists|
                first: Result<image::DynamicImage, image::ImageError>,
                second: Result<image::DynamicImage, image::ImageError>,
            |
                #![trigger texture_from(first), texture_from(second)]
                textures_from(texture_from(first), texture_from(second)) == (match r {
                    Ok(textures) => Ok::<(TextureView, TextureView), TextureError>(
                        (textures.space@, textures.instructions@),
                    ),
                    Err(e) => Err::<(TextureView, TextureView), TextureError>(e),
                }),
            r matches Ok(textures) ==> textures.space@.wf() && textures.instructions@.wf(),
    {
        let space = Texture::new(space, Textures::Space.kind());
        let instructions = Texture::new(instructions, Textures::Instructions.kind());
        let ghost first = choose|outcome: Result<image::DynamicImage, image::ImageError>|
            #[trigger] texture_from(outcome) == viewed(space);
        let ghost second = choose|outcome: Result<image::DynamicImage, image::ImageError>|
            #[trigger] texture_from(outcome) == viewed(instructions);
        let r = GameTextures::from_textures(space, instructions);
        assert(textures_from(texture_from(first), texture_from(second)) == (match r {
            Ok(textures) => Ok::<(TextureView, TextureView), TextureError>(
                (textures.space@, textures.instructions@),
            ),
            Err(e) => Err::<(TextureView, TextureView), TextureError>(e),
        }));
        r
    }

    pub fn get_texture(&self, id: Textures) -> (texture: &Texture)
        ensures
            *texture == match id {
                Textures::Space => self.space,
                Textures::Instructions => self.instructions,
            },
    {
        match id {
            Textures::Space => &self.space,
            Textures::Instructions => &self.instructions,
        }
    }
}

} // verus!
