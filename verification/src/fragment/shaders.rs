//! The shading chain: the layers of a surface, folded from first to last
//! onto the colour of a fragment.

use vstd::prelude::*;
use crate::blenders::BlendMode;
use crate::color::Color;
use crate::fragment::Fragment;

verus! {

/// The kinds of shader that a layer can be made of.
#[derive(Clone, Copy, Debug, PartialEq, Eq, Structural)]
pub enum ShaderKind {
    Stripe,
    MovingStripes,
    GlowShader,
    Intensity,
    BaseColor,
    FBmShader,
    CellularShader,
    Texture,
}

impl ShaderKind {
    /// How many palette entries a shader of this kind reads.
    pub open spec fn palette_needed(self) -> nat {
        match self {
            ShaderKind::Stripe => 1,
            ShaderKind::MovingStripes => 2,
            ShaderKind::GlowShader => 0,
            ShaderKind::Intensity => 0,
            ShaderKind::BaseColor => 1,
            ShaderKind::FBmShader => 1,
            ShaderKind::CellularShader => 1,
            ShaderKind::Texture => 0,
        }
    }

    /// Whether a palette is long enough for a shader of this kind, so that
    /// the shader never reads past its end.
    pub fn accepts_palette(&self, palette: &[Color]) -> (fits: bool)
        ensures
            fits == (palette.len() >= self.palette_needed()),
    {
        let needed: usize = match self {
            ShaderKind::Stripe => 1,
            ShaderKind::MovingStripes => 2,
            ShaderKind::GlowShader => 0,
            ShaderKind::Intensity => 0,
            ShaderKind::BaseColor => 1,
            ShaderKind::FBmShader => 1,
            ShaderKind::CellularShader => 1,
            ShaderKind::Texture => 0,
        };
        palette.len() >= needed
    }
}

/// The palette entry of the stripe with the given number: the stripes run
/// through the palette again and again.
pub fn stripe_color(colors: &[Color], stripe: usize) -> (color: Option<Color>)
    ensures
        color == if colors.len() == 0 {
            None
        } else {
            Some(colors[stripe as int % colors.len() as int])
        },
{
    if colors.len() == 0 {
        None
    } else {
        Some(colors[stripe % colors.len()])
    }
}

/// What one layer brings to a fragment, once its shader has been evaluated.
#[derive(Clone, Copy, Debug, PartialEq, Eq, Structural)]
pub enum Shade {
    /// A colour of its own.
    Color(Color),
    /// The colour gathered so far, dimmed by the light on the fragment.
    Intensity,
}

/// The colour after one more layer: the layer's colour laid over `so_far` in
/// the layer's mode.
pub open spec fn layered(so_far: Color, layer: (Shade, BlendMode), intensity: int) -> Color {
    let over = match layer.0 {
        Shade::Color(color) => color,
        Shade::Intensity => so_far.scaled(intensity),
    };
    so_far.blended(over, layer.1)
}

/// The colour of a fragment after all its layers, from the first to the last.
pub open spec fn shaded(base: Color, layers: Seq<(Shade, BlendMode)>, intensity: int) -> Color {
    layers.fold_left(base, |so_far: Color, layer: (Shade, BlendMode)| layered(so_far, layer, intensity))
}

/// Folds the layers onto the colour of the fragment, the first layer first.
/// Only the colour changes.
pub fn fragment_shader(fragment: Fragment, inputs: &[(Shade, BlendMode)]) -> (shaded_fragment:
    Fragment)
    ensures
        shaded_fragment == (Fragment {
            color: shaded(fragment.color, inputs@, fragment.intensity@),
            ..fragment
        }),
{
    let ghost step = |so_far: Color, layer: (Shade, BlendMode)|
        layered(so_far, layer, fragment.intensity@);
    let mut color = fragment.color;
    let mut i: usize = 0;
    while i < inputs.len()
        invariant
            i <= inputs.len(),
            step == |so_far: Color, layer: (Shade, BlendMode)|
                layered(so_far, layer, fragment.intensity@),
            color == inputs@.take(i as int).fold_left(fragment.color, step),
        decreases inputs.len() - i,
    {
        let over = match inputs[i].0 {
            Shade::Color(c) => c,
            Shade::Intensity => color.scale(fragment.intensity),
        };
        proof {
            assert(inputs@.take(i + 1).drop_last() =~= inputs@.take(i as int));
        }
        color = color.blend(&over, &inputs[i].1);
        i += 1;
    }
    assert(inputs@.take(i as int) =~= inputs@);
    Fragment { color, ..fragment }
}

/// A surface without layers keeps the colour it came with.
pub proof fn lemma_no_layers(base: Color, intensity: int)
    ensures
        shaded(base, Seq::empty(), intensity) == base,
{
}

/// One more layer at the end is one more blend on what the layers before it gave.
pub proof fn lemma_one_more_layer(
    base: Color,
    layers: Seq<(Shade, BlendMode)>,
    last: (Shade, BlendMode),
    intensity: int,
)
    ensures
        shaded(base, layers.push(last), intensity) == layered(
            shaded(base, layers, intensity),
            last,
            intensity,
        ),
{
    assert(layers.push(last).drop_last() =~= layers);
}

} // verus!
