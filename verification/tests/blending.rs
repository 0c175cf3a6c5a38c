use gothspace::blenders::BlendMode;
use gothspace::color::Color;

const MODES: [BlendMode; 17] = [
    BlendMode::Normal,
    BlendMode::Add,
    BlendMode::Subtract,
    BlendMode::Multiply,
    BlendMode::Screen,
    BlendMode::Overlay,
    BlendMode::Darken,
    BlendMode::Lighten,
    BlendMode::Dodge,
    BlendMode::Burn,
    BlendMode::HardLight,
    BlendMode::SoftLight,
    BlendMode::Difference,
    BlendMode::Exclusion,
    BlendMode::Replace,
    BlendMode::IgnoreWhiteReplace,
    BlendMode::IgnoreWhiteAdd,
];

fn every_colour_of_a_sample() -> Vec<Color> {
    let levels = [0u8, 1, 2, 63, 64, 100, 127, 128, 129, 200, 254, 255];
    let mut colours = Vec::new();
    for r in levels {
        for g in levels {
            for b in levels {
                colours.push(Color::new(r, g, b));
            }
        }
    }
    colours
}

#[test]
fn multiply_by_white_returns_the_colour() {
    let c = Color::new(200, 100, 50).blend_multiply(&Color::new(255, 255, 255));
    assert_eq!(c, Color::new(200, 100, 50));
}

#[test]
fn multiply_by_white_is_the_identity() {
    for level in 0u8..=255 {
        let c = Color::new(level, 255 - level, level / 2);
        assert_eq!(c.blend_multiply(&Color::white()), c);
    }
}

#[test]
fn screen_with_black_is_the_identity() {
    for level in 0u8..=255 {
        let c = Color::new(level, 255 - level, level / 2);
        assert_eq!(c.blend_screen(&Color::black()), c);
    }
}

#[test]
fn difference_with_itself_is_black() {
    for c in every_colour_of_a_sample() {
        assert_eq!(c.blend_difference(&c), Color::black());
    }
}

#[test]
fn exclusion_with_black_is_the_identity() {
    for c in every_colour_of_a_sample() {
        assert_eq!(c.blend_exclusion(&Color::black()), c);
    }
}

#[test]
fn replace_gives_the_overlay() {
    for a in [Color::black(), Color::white(), Color::new(1, 2, 3)] {
        for b in [Color::black(), Color::white(), Color::new(9, 8, 7)] {
            assert_eq!(a.blend(&b, &BlendMode::Replace), b);
        }
    }
}

#[test]
fn normal_keeps_the_base_under_black() {
    let base = Color::new(10, 20, 30);
    assert_eq!(base.blend_normal(&Color::black()), base);
    assert_eq!(base.blend_normal(&Color::new(0, 0, 1)), Color::new(0, 0, 1));
    assert_eq!(base.blend_normal(&Color::white()), Color::white());
}

#[test]
fn add_and_subtract_saturate() {
    let base = Color::new(200, 100, 50);
    let over = Color::new(100, 100, 100);
    assert_eq!(base.blend_add(&over), Color::new(255, 200, 150));
    assert_eq!(base.blend_subtract(&over), Color::new(100, 0, 0));
}

#[test]
fn multiply_rounds_down() {
    let base = Color::new(200, 100, 50);
    let over = Color::new(100, 200, 30);
    assert_eq!(base.blend_multiply(&over), Color::new(78, 78, 5));
    assert_eq!(base.blend_multiply(&Color::black()), Color::black());
}

#[test]
fn screen_formula() {
    let base = Color::new(200, 0, 255);
    let over = Color::new(100, 0, 7);
    assert_eq!(base.blend_screen(&over), Color::new(222, 0, 255));
}

#[test]
fn overlay_formula() {
    let base = Color::new(100, 200, 127);
    let over = Color::new(200, 100, 255);
    assert_eq!(base.blend_overlay(&over), Color::new(156, 189, 254));
    assert_eq!(Color::grey(128).blend_overlay(&Color::black()), Color::grey(1));
}

#[test]
fn hard_light_is_overlay_with_the_operands_as_they_are() {
    for base in every_colour_of_a_sample() {
        let over = Color::new(base.b, base.r, 255 - base.g);
        assert_eq!(base.blend_hard_light(&over), base.blend_overlay(&over));
        assert_eq!(
            base.blend(&over, &BlendMode::HardLight),
            base.blend(&over, &BlendMode::Overlay)
        );
    }
}

#[test]
fn darken_and_lighten_pick_per_channel() {
    let base = Color::new(200, 100, 50);
    let over = Color::new(100, 100, 200);
    assert_eq!(base.blend_darken(&over), Color::new(100, 100, 50));
    assert_eq!(base.blend_lighten(&over), Color::new(200, 100, 200));
}

#[test]
fn dodge_formula() {
    let base = Color::new(100, 200, 0);
    let over = Color::new(100, 200, 255);
    assert_eq!(base.blend_color_dodge(&over), Color::new(164, 255, 255));
    assert_eq!(Color::grey(10).blend_color_dodge(&Color::black()), Color::grey(10));
}

#[test]
fn burn_formula() {
    let base = Color::new(100, 200, 255);
    let over = Color::new(100, 200, 0);
    assert_eq!(base.blend_color_burn(&over), Color::new(0, 185, 0));
    assert_eq!(Color::grey(255).blend_color_burn(&Color::grey(1)), Color::grey(255));
    assert_eq!(Color::grey(10).blend_color_burn(&Color::white()), Color::grey(10));
}

#[test]
fn difference_formula() {
    let base = Color::new(200, 100, 50);
    let over = Color::new(100, 200, 50);
    assert_eq!(base.blend_difference(&over), Color::new(100, 100, 0));
}

#[test]
fn exclusion_formula() {
    let base = Color::new(200, 255, 0);
    let over = Color::new(100, 255, 255);
    assert_eq!(base.blend_exclusion(&over), Color::new(144, 0, 255));
}

#[test]
fn exclusion_stays_in_a_channel() {
    for base in 0u32..=255 {
        for over in 0u32..=255 {
            let expected = base + over - 2 * base * over / 255;
            assert!(expected <= 255);
            let got = Color::grey(base as u8).blend_exclusion(&Color::grey(over as u8));
            assert_eq!(got, Color::grey(expected as u8));
        }
    }
}

#[test]
fn soft_light_known_values() {
    let cases = [
        (200u8, 100u8, 191u8),
        (100, 200, 134),
        (50, 255, 113),
        (50, 0, 10),
        (128, 128, 128),
        (30, 200, 61),
        (255, 255, 255),
        (0, 255, 0),
        (64, 255, 128),
        (63, 255, 127),
    ];
    for (base, over, expected) in cases {
        let got = Color::grey(base).blend_soft_light(&Color::grey(over));
        assert_eq!(got, Color::grey(expected), "base {} overlay {}", base, over);
    }
}

fn soft_light_by_the_rules(base: u8, over: u8) -> u8 {
    let b = base as f64 / 255.0;
    let s = over as f64 / 255.0;
    let value = if s <= 0.5 {
        b - (1.0 - 2.0 * s) * b * (1.0 - b)
    } else {
        let d = if b <= 0.25 { ((16.0 * b - 12.0) * b + 4.0) * b } else { b.sqrt() };
        b + (2.0 * s - 1.0) * (d - b)
    };
    (value * 255.0 + 0.5).floor() as u8
}

#[test]
fn soft_light_follows_the_compositing_rules() {
    for base in 0u8..=255 {
        for over in 0u8..=255 {
            let got = Color::grey(base).blend_soft_light(&Color::grey(over));
            let expected = soft_light_by_the_rules(base, over);
            assert_eq!(got, Color::grey(expected), "base {} overlay {}", base, over);
        }
    }
}

#[test]
fn white_is_ignored_where_the_mode_says_so() {
    let base = Color::new(10, 20, 30);
    let over = Color::new(100, 100, 250);
    assert_eq!(base.blend(&Color::white(), &BlendMode::IgnoreWhiteReplace), base);
    assert_eq!(base.blend(&over, &BlendMode::IgnoreWhiteReplace), over);
    assert_eq!(base.blend(&Color::white(), &BlendMode::IgnoreWhiteAdd), base);
    assert_eq!(base.blend(&over, &BlendMode::IgnoreWhiteAdd), Color::new(110, 120, 255));
    assert_eq!(base.blend(&Color::black(), &BlendMode::IgnoreWhiteReplace), Color::black());
}

#[test]
fn blend_dispatches_to_each_mode() {
    let base = Color::new(200, 100, 50);
    let over = Color::new(100, 200, 30);
    let expected = [
        base.blend_normal(&over),
        base.blend_add(&over),
        base.blend_subtract(&over),
        base.blend_multiply(&over),
        base.blend_screen(&over),
        base.blend_overlay(&over),
        base.blend_darken(&over),
        base.blend_lighten(&over),
        base.blend_color_dodge(&over),
        base.blend_color_burn(&over),
        base.blend_hard_light(&over),
        base.blend_soft_light(&over),
        base.blend_difference(&over),
        base.blend_exclusion(&over),
        over,
        over,
        base.blend_add(&over),
    ];
    for (mode, want) in MODES.iter().zip(expected.iter()) {
        assert_eq!(base.blend(&over, mode), *want, "{:?}", mode);
    }
}

#[test]
fn the_modes_differ_from_one_another() {
    let base = Color::new(200, 100, 50);
    let over = Color::new(100, 200, 30);
    assert_eq!(base.blend(&over, &BlendMode::Multiply), Color::new(78, 78, 5));
    assert_eq!(base.blend(&over, &BlendMode::Screen), Color::new(222, 222, 75));
    assert_eq!(base.blend(&over, &BlendMode::Darken), Color::new(100, 100, 30));
    assert_eq!(base.blend(&over, &BlendMode::Lighten), Color::new(200, 200, 50));
    assert_eq!(base.blend(&over, &BlendMode::Difference), Color::new(100, 100, 20));
}
