use greetme::effects::{EffectRenderer, FillStyle, PatternType, ShadeStyle, TextEffect};
use greetme::scale::ScaleFactor;
use greetme::term::Rgb;

#[test]
fn default_effect_is_plain() {
    let effect = TextEffect::default();
    assert!(matches!(effect.fill, FillStyle::Off));
    assert_eq!(effect.shade, ShadeStyle::Off);
    assert_eq!(effect.scale, ScaleFactor::one());
    assert_eq!(effect.scale.to_bits(), 1.0f32.to_bits());
}

#[test]
fn every_effect_hands_the_text_on() {
    let fills = || {
        vec![
            FillStyle::Off,
            FillStyle::Gradient(vec![Rgb { r: 1, g: 2, b: 3 }, Rgb { r: 4, g: 5, b: 6 }]),
            FillStyle::Rainbow,
            FillStyle::Pattern(PatternType::Dots),
            FillStyle::Pattern(PatternType::Lines),
            FillStyle::Pattern(PatternType::Waves),
            FillStyle::Pattern(PatternType::Checkers),
        ]
    };
    let shades = [ShadeStyle::Off, ShadeStyle::ThreeD, ShadeStyle::Shadow, ShadeStyle::Glow];
    for scale in [1.0f32, 2.0, 0.5] {
        for shade in shades {
            for fill in fills() {
                let effect =
                    TextEffect { fill, shade, scale: ScaleFactor::from_bits(scale.to_bits()) };
                let renderer = EffectRenderer::new(effect);
                assert_eq!(renderer.apply("ab\ncd"), "ab\ncd");
            }
        }
    }
}

#[test]
fn each_stage_hands_the_text_on() {
    let renderer = EffectRenderer::new(TextEffect::default());
    assert_eq!(renderer.scale_text("x"), "x");
    assert_eq!(renderer.apply_gradient("x", &vec![Rgb { r: 0, g: 0, b: 0 }]), "x");
    assert_eq!(renderer.apply_rainbow("x"), "x");
    assert_eq!(renderer.apply_pattern("x", &PatternType::Waves), "x");
    assert_eq!(renderer.apply_3d("x"), "x");
    assert_eq!(renderer.apply_shadow("x"), "x");
    assert_eq!(renderer.apply_glow("x"), "x");
}
