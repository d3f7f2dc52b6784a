//! The multi-stop distributor and the escape-coded renderer.

use tiny_gradient::gradient::ColorStep;
use tiny_gradient::{ColorType, Gradient, GradientDisplay, GradientStr, RGB};

struct Fc {
    r: f32,
    g: f32,
    b: f32,
}

fn normalize_rgb(c: RGB) -> Fc {
    Fc { r: c.r as f32 / 255.0, g: c.g as f32 / 255.0, b: c.b as f32 / 255.0 }
}

fn srgb_inverse_color(c: f32) -> f32 {
    if c > 0.04045 {
        libm::powf((c + 0.055) / 1.055, 2.4)
    } else {
        c / 12.92
    }
}

fn srgb_inverse_companding(c: Fc) -> Fc {
    Fc { r: srgb_inverse_color(c.r), b: srgb_inverse_color(c.b), g: srgb_inverse_color(c.g) }
}

fn linear_interpolation(c1: f32, c2: f32, frac: f32) -> f32 {
    (c1 * (1.0 - frac)) + (c2 * frac)
}

fn srgb_apply_companding_color(c: f32) -> f32 {
    if c > 0.0031308 {
        1.055 * libm::powf(c, 1.0 / 2.4) - 0.055
    } else {
        c * 12.92
    }
}

fn mix_color(c1: RGB, c2: RGB, mix: f32) -> RGB {
    let c1 = srgb_inverse_companding(normalize_rgb(c1));
    let c2 = srgb_inverse_companding(normalize_rgb(c2));

    let mut c = Fc {
        r: linear_interpolation(c1.r, c2.r, mix),
        g: linear_interpolation(c1.g, c2.g, mix),
        b: linear_interpolation(c1.b, c2.b, mix),
    };

    if c.r + c.g + c.b != 0.0 {
        let gamma = 0.43;
        let c1_bright = libm::powf(c1.r + c1.g + c1.b, gamma);
        let c2_bright = libm::powf(c2.r + c2.g + c2.b, gamma);

        let brightness = linear_interpolation(c1_bright, c2_bright, mix);
        let intensity = libm::powf(brightness, 1.0 / gamma);

        let factor = intensity / (c.r + c.g + c.b);

        c = Fc { r: c.r * factor, g: c.g * factor, b: c.b * factor };
    }

    RGB::new(
        (srgb_apply_companding_color(c.r) * 255.9999) as u8,
        (srgb_apply_companding_color(c.g) * 255.9999) as u8,
        (srgb_apply_companding_color(c.b) * 255.9999) as u8,
    )
}

fn resolve(step: &ColorStep) -> RGB {
    match *step {
        ColorStep::Exact(c) => c,
        ColorStep::Blend { from, to, num, den } => {
            mix_color(from, to, num as f32 / den as f32)
        }
    }
}

fn render_text(d: &GradientDisplay) -> String {
    let steps = d.plan();
    let mut table: Vec<RGB> = Vec::new();
    for step in &steps {
        table.push(resolve(step));
    }
    d.render(&table)
}

fn wrap(c: char, color: RGB, mode: usize) -> String {
    format!("\x1b[{};2;{};{};{}m{}\x1b[0m", mode, color.r, color.g, color.b, c)
}

#[test]
fn plan_two_stops() {
    let stops = vec![RGB::new(0, 0, 0), RGB::new(255, 255, 255)];
    let d = GradientDisplay::new("abcd", stops.clone());
    let steps = d.plan();
    assert_eq!(steps.len(), 4);
    for (i, step) in steps.iter().enumerate() {
        assert_eq!(
            *step,
            ColorStep::Blend { from: stops[0], to: stops[1], num: i, den: 3 },
        );
    }
}

#[test]
fn plan_three_stops_remainder_in_last_segment() {
    let s0 = RGB::new(10, 0, 0);
    let s1 = RGB::new(0, 10, 0);
    let s2 = RGB::new(0, 0, 10);
    let d = GradientDisplay::new("abcde", vec![s0, s1, s2]);
    let steps = d.plan();
    assert_eq!(
        steps,
        vec![
            ColorStep::Blend { from: s0, to: s1, num: 0, den: 1 },
            ColorStep::Blend { from: s0, to: s1, num: 1, den: 1 },
            ColorStep::Blend { from: s1, to: s2, num: 1, den: 3 },
            ColorStep::Blend { from: s1, to: s2, num: 2, den: 3 },
            ColorStep::Blend { from: s1, to: s2, num: 3, den: 3 },
        ],
    );
}

#[test]
fn plan_narrower_than_stops() {
    let s0 = RGB::new(1, 0, 0);
    let s1 = RGB::new(2, 0, 0);
    let s2 = RGB::new(3, 0, 0);
    let s3 = RGB::new(4, 0, 0);
    let d = GradientDisplay::new("ab", vec![s0, s1, s2, s3]);
    let steps = d.plan();
    assert_eq!(
        steps,
        vec![
            ColorStep::Exact(s2),
            ColorStep::Blend { from: s2, to: s3, num: 1, den: 2 },
        ],
    );
}

#[test]
fn plan_single_stop_is_solid() {
    let c = RGB::new(7, 7, 7);
    let d = GradientDisplay::new("abc", vec![c]);
    let steps = d.plan();
    assert_eq!(steps.len(), 3);
    for step in &steps {
        assert_eq!(resolve(step), c);
    }
}

#[test]
fn plan_endpoints_cover_first_and_last_stop() {
    let stops = vec![
        RGB::new(200, 10, 10),
        RGB::new(10, 200, 10),
        RGB::new(10, 10, 200),
        RGB::new(200, 200, 10),
    ];
    let d = GradientDisplay::new("a gradient wide enough", stops.clone());
    let steps = d.plan();
    assert_eq!(steps.len(), 22);
    assert_eq!(resolve(&steps[0]), stops[0]);
    assert_eq!(resolve(&steps[21]), stops[3]);
}

#[test]
fn render_single_char_foreground() {
    let red = RGB::new(255, 0, 0);
    let d = GradientDisplay::new("A", vec![red]);
    assert_eq!(render_text(&d), wrap('A', red, 38));
}

#[test]
fn render_single_char_background() {
    let red = RGB::new(255, 0, 0);
    let d = GradientDisplay::new("A", vec![red]).background();
    assert_eq!(render_text(&d), wrap('A', red, 48));
}

#[test]
fn background_then_foreground_is_foreground() {
    let d = GradientDisplay::new("A", vec![RGB::new(1, 2, 3)]).background().foreground();
    assert_eq!(d.color_type, ColorType::Foreground);
}

#[test]
fn render_two_chars_two_stops() {
    let black = RGB::new(0, 0, 0);
    let white = RGB::new(255, 255, 255);
    let d = GradientDisplay::new("ab", vec![black, white]);
    let expected = format!("{}{}", wrap('a', black, 38), wrap('b', white, 38));
    assert_eq!(render_text(&d), expected);
}

#[test]
fn render_multiline_restarts_gradient() {
    let black = RGB::new(0, 0, 0);
    let white = RGB::new(255, 255, 255);
    let d = GradientDisplay::new("ab\nc", vec![black, white]);
    let expected = format!(
        "{}{}\n{}",
        wrap('a', black, 38),
        wrap('b', white, 38),
        wrap('c', black, 38),
    );
    assert_eq!(render_text(&d), expected);
}

#[test]
fn render_empty_text_unchanged() {
    let d = GradientDisplay::new("", vec![RGB::new(1, 2, 3)]);
    let out = render_text(&d);
    assert_eq!(out, "");
    assert!(!out.contains('\x1b'));
}

#[test]
fn render_no_stops_unchanged() {
    let d = GradientDisplay::new("hello\nworld", Vec::new());
    let out = render_text(&d);
    assert_eq!(out, "hello\nworld");
    assert!(!out.contains('\x1b'));
}

#[test]
fn render_newlines_only_unchanged() {
    let d = GradientDisplay::new("\n\n", vec![RGB::new(1, 2, 3)]);
    assert_eq!(render_text(&d), "\n\n");
}

#[test]
fn render_is_deterministic() {
    let d = GradientDisplay::new("Hello\nWorld!", Gradient::Rainbow.colors());
    let once = render_text(&d);
    let twice = render_text(&d);
    assert_eq!(once, twice);
}

#[test]
fn gradient_str_builds_display() {
    let d = "Hello World!".gradient(vec![RGB::new(0x01, 0x00, 0x00), RGB::new(0xDA, 0x00, 0xFF)]);
    assert_eq!(d.text, "Hello World!");
    assert_eq!(d.colors.len(), 2);
    assert_eq!(d.color_type, ColorType::Foreground);

    let owned = String::from("Hi");
    let d = owned.gradient(vec![RGB::new(1, 1, 1)]);
    assert_eq!(d.text, "Hi");
}

#[test]
fn line_width_is_longest_line() {
    let d = GradientDisplay::new("ab\nabcd\nc", Vec::new());
    assert_eq!(d.line_width(), 4);
    let d = GradientDisplay::new("", Vec::new());
    assert_eq!(d.line_width(), 0);
}
