//! Text effects: a fill and a shade laid over a text, one after the other.
//!
//! An effect is applied in three stages, each of which takes what the stage
//! before it gave: the text is resized unless the scale is exactly 1, then
//! filled, then shaded. Every stage hands the text on as it came; the
//! order of the stages is what this module fixes.

use vstd::prelude::*;
use crate::scale::ScaleFactor;
use crate::term::Rgb;

verus! {

/// How the body of the characters is filled.
#[derive(Clone, Debug)]
pub enum FillStyle {
    Off,
    Gradient(Vec<Rgb>),
    Rainbow,
    Pattern(PatternType),
}

/// How depth or light is added around the characters.
#[derive(Clone, Copy, Debug, PartialEq, Eq, Structural)]
pub enum ShadeStyle {
    Off,
    ThreeD,
    Shadow,
    Glow,
}

/// The pattern of a patterned fill.
#[derive(Clone, Copy, Debug, PartialEq, Eq, Structural)]
pub enum PatternType {
    Dots,
    Lines,
    Waves,
    Checkers,
}

/// A fill, a shade and a scale.
#[derive(Clone, Debug)]
pub struct TextEffect {
    pub fill: FillStyle,
    pub shade: ShadeStyle,
    pub scale: ScaleFactor,
}

impl Default for TextEffect {
    fn default() -> (effect: TextEffect)
        ensures
            effect.fill is Off,
            effect.shade == ShadeStyle::Off,
            effect.scale.is_one(),
    {
        TextEffect { fill: FillStyle::Off, shade: ShadeStyle::Off, scale: ScaleFactor::one() }
    }
}

/// What the resizing stage makes of `text`.
pub open spec fn resized(text: Seq<char>, scale: ScaleFactor) -> Seq<char> {
    text
}

/// What the filling stage makes of `text`.
pub open spec fn filled(text: Seq<char>, fill: FillStyle) -> Seq<char> {
    match fill {
        FillStyle::Off => text,
        FillStyle::Gradient(_) => text,
        FillStyle::Rainbow => text,
        FillStyle::Pattern(_) => text,
    }
}

/// What the shading stage makes of `text`.
pub open spec fn shaded(text: Seq<char>, shade: ShadeStyle) -> Seq<char> {
    match shade {
        ShadeStyle::Off => text,
        ShadeStyle::ThreeD => text,
        ShadeStyle::Shadow => text,
        ShadeStyle::Glow => text,
    }
}

/// What the first stage hands on: the text resized, or the text itself
/// where the scale is exactly 1.
pub open spec fn after_scale(text: Seq<char>, effect: TextEffect) -> Seq<char> {
    if effect.scale.is_one() {
        text
    } else {
        resized(text, effect.scale)
    }
}

/// What an effect makes of `text`: resized, then filled, then shaded.
pub open spec fn applied(text: Seq<char>, effect: TextEffect) -> Seq<char> {
    shaded(filled(after_scale(text, effect), effect.fill), effect.shade)
}

/// Applies a text effect.
pub struct EffectRenderer {
    effect: TextEffect,
}

impl EffectRenderer {
    /// The effect that the renderer applies.
    pub closed spec fn effect(self) -> TextEffect {
        self.effect
    }

    /// A renderer for `effect`.
    pub fn new(effect: TextEffect) -> (renderer: EffectRenderer)
        ensures
            renderer.effect() == effect,
    {
        EffectRenderer { effect }
    }

    /// Applies the effect to `text`: scale, then fill, then shade.
    pub fn apply(&self, text: &str) -> (out: String)
        ensures
            out@ == applied(text@, self.effect()),
    {
        let mut result = text.to_owned();
        if !self.effect.scale.is_exactly_one() {
            result = self.scale_text(result.as_str());
        }
        result = match &self.effect.fill {
            FillStyle::Off => result,
            FillStyle::Gradient(colors) => self.apply_gradient(result.as_str(), colors),
            FillStyle::Rainbow => self.apply_rainbow(result.as_str()),
            FillStyle::Pattern(pattern) => self.apply_pattern(result.as_str(), pattern),
        };
        result = match self.effect.shade {
            ShadeStyle::Off => result,
            ShadeStyle::ThreeD => self.apply_3d(result.as_str()),
            ShadeStyle::Shadow => self.apply_shadow(result.as_str()),
            ShadeStyle::Glow => self.apply_glow(result.as_str()),
        };
        result
    }

    /// The resizing stage.
    pub fn scale_text(&self, text: &str) -> (out: String)
        ensures
            out@ == resized(text@, self.effect().scale),
    {
        text.to_owned()
    }

    /// The filling stage for a gradient.
    pub fn apply_gradient(&self, text: &str, colors: &Vec<Rgb>) -> (out: String)
        ensures
            out@ == filled(text@, FillStyle::Gradient(*colors)),
    {
        text.to_owned()
    }

    /// The filling stage for the rainbow.
    pub fn apply_rainbow(&self, text: &str) -> (out: String)
        ensures
            out@ == filled(text@, FillStyle::Rainbow),
    {
        text.to_owned()
    }

    /// The filling stage for a pattern.
    pub fn apply_pattern(&self, text: &str, pattern: &PatternType) -> (out: String)
        ensures
            out@ == filled(text@, FillStyle::Pattern(*pattern)),
    {
        text.to_owned()
    }

    /// The shading stage for depth.
    pub fn apply_3d(&self, text: &str) -> (out: String)
        ensures
            out@ == shaded(text@, ShadeStyle::ThreeD),
    {
        text.to_owned()
    }

    /// The shading stage for a shadow.
    pub fn apply_shadow(&self, text: &str) -> (out: String)
        ensures
            out@ == shaded(text@, ShadeStyle::Shadow),
    {
        text.to_owned()
    }

    /// The shading stage for a glow.
    pub fn apply_glow(&self, text: &str) -> (out: String)
        ensures
            out@ == shaded(text@, ShadeStyle::Glow),
    {
        text.to_owned()
    }
}

/// As the stages stand, an effect hands the text on unchanged, whatever its
/// fill, its shade and its scale.
pub proof fn law_effects_pass_text_through(text: Seq<char>, effect: TextEffect)
    ensures
        applied(text, effect) == text,
{
}

} // verus!
