use dui_core::drawing::{DrawCommand, SceneBuilder};
use dui_core::geometry::{Rect, ScaleFactor, Translation};
use dui_core::simple_text::{
    chars_of, clamp_size, pixels, transform_from_align, xy_from_align, Font, FontManager,
    TextAlign,
};
use vello::peniko::{Brush, Color};

/// Every character up to code 255 is its own glyph and advances half an em.
fn face() -> Font {
    let glyphs: Vec<u16> = (0..256).collect();
    let advances: Vec<u16> = vec![500; 256];
    Font::new(1000, 800, -200, 0, glyphs, advances).unwrap()
}

fn one() -> ScaleFactor {
    ScaleFactor::whole(1)
}

fn red() -> Brush {
    Brush::Solid(Color::rgb8(255, 0, 0))
}

fn glyph(glyph: u16, x: i64, y: i64, size: u32, ink: Option<Brush>) -> DrawCommand {
    DrawCommand::Glyph { glyph, x, y, size, ink }
}

#[test]
fn face_needs_units_per_em() {
    assert!(Font::new(0, 800, -200, 0, Vec::new(), Vec::new()).is_none());
    assert!(Font::new(1, 0, 0, 0, Vec::new(), Vec::new()).is_some());
}

#[test]
fn face_metrics_at_a_size() {
    let face = face();
    assert_eq!(face.glyph('a'), 97);
    assert_eq!(face.glyph('\u{20ac}'), 0);
    assert_eq!(face.units_per_em(), 1000);
    assert_eq!(face.advance('a', 20), 10_000);
    assert_eq!(face.advance('a', 21), 10_500);
    assert_eq!(face.ascent(20), 16_000);
    assert_eq!(face.line_height(20), 20_000);
    assert_eq!(face.line_height(25), 25_000);
    let sparse = Font::new(1000, 800, -200, 100, vec![0, 5], vec![300]).unwrap();
    assert_eq!(sparse.glyph('\u{1}'), 5);
    assert_eq!(sparse.advance('\u{1}', 20), 0);
    assert_eq!(sparse.advance('\u{0}', 20), 6_000);
    assert_eq!(sparse.line_height(20), 22_000);
}

#[test]
fn parts_are_rounded_to_whole_units() {
    let face = face();
    assert_eq!(face.round_down(10_500), 10);
    assert_eq!(face.round_down(-10_500), -11);
    assert_eq!(face.round_down(11_000), 11);
    assert_eq!(face.round_up(10_500), 11);
    assert_eq!(face.round_up(10_000), 10);
    assert_eq!(face.round_up(-10_500), -10);
    assert_eq!(face.round_up(0), 0);
}

#[test]
fn measure_rounds_up_what_the_lines_add_up_to() {
    let fonts = FontManager::new(face());
    let bounds = Rect::new(0, 0, 100, 100);
    assert_eq!(fonts.layout(None, 21, one(), bounds, "ab"), Rect::new(0, 0, 21, 21));
    assert_eq!(fonts.layout(None, 21, one(), bounds, "abc"), Rect::new(0, 0, 32, 21));
    assert_eq!(fonts.layout(None, 21, one(), bounds, "a\nb"), Rect::new(0, 0, 11, 42));
}

#[test]
fn measure_breaks_on_the_exact_width() {
    let fonts = FontManager::new(face());
    assert_eq!(
        fonts.layout(None, 21, one(), Rect::new(0, 0, 42, 100), "ab c"),
        Rect::new(0, 0, 42, 21)
    );
    assert_eq!(
        fonts.layout(None, 21, one(), Rect::new(0, 0, 41, 100), "ab c"),
        Rect::new(0, 0, 41, 42)
    );
}

#[test]
fn add_rounds_the_place_of_a_glyph_down() {
    let fonts = FontManager::new(face());
    let mut scene = SceneBuilder::new();
    fonts.add(
        &mut scene,
        None,
        21,
        one(),
        None,
        Translation::identity(),
        "abc",
        Rect::new(0, 0, 100, 100),
    );
    assert_eq!(
        scene.commands,
        vec![glyph(97, 0, 16, 21, None), glyph(98, 10, 16, 21, None), glyph(99, 21, 16, 21, None)]
    );
}

#[test]
fn text_size_is_scaled_and_kept_in_range() {
    assert_eq!(pixels(20, &one()), 20);
    assert_eq!(pixels(20, &ScaleFactor::new(3, 2).unwrap()), 30);
    assert_eq!(pixels(-20, &one()), 0);
    assert_eq!(pixels(i64::MAX, &one()), u32::MAX);
    assert_eq!(clamp_size(7), 7);
    assert_eq!(clamp_size(-7), 0);
}

#[test]
fn characters_of_a_string() {
    assert_eq!(chars_of("a b"), vec!['a', ' ', 'b']);
    assert_eq!(chars_of(""), Vec::<char>::new());
    assert_eq!(chars_of("\u{e9}\u{20ac}"), vec!['\u{e9}', '\u{20ac}']);
}

#[test]
fn measure_one_line() {
    let fonts = FontManager::new(face());
    let bounds = Rect::new(0, 0, 100, 100);
    assert_eq!(fonts.layout(None, 20, one(), bounds, "ab cd"), Rect::new(0, 0, 50, 20));
    assert_eq!(fonts.layout(None, 20, one(), bounds, ""), Rect::new(0, 0, 0, 20));
    assert_eq!(fonts.layout(None, 20, one(), Rect::new(3, 4, 103, 104), "ab"), Rect::new(3, 4, 23, 24));
}

#[test]
fn measure_breaks_before_a_word_that_does_not_fit() {
    let fonts = FontManager::new(face());
    let bounds = Rect::new(0, 0, 30, 100);
    assert_eq!(fonts.layout(None, 20, one(), bounds, "aa bb"), Rect::new(0, 0, 30, 40));
    assert_eq!(fonts.layout(None, 20, one(), bounds, "aa bb cc"), Rect::new(0, 0, 30, 60));
}

#[test]
fn measure_is_as_wide_as_the_bounds_when_a_word_overflows() {
    let fonts = FontManager::new(face());
    let bounds = Rect::new(0, 0, 30, 100);
    assert_eq!(fonts.layout(None, 20, one(), bounds, "aaaaa"), Rect::new(0, 0, 30, 20));
}

#[test]
fn measure_line_feed_starts_a_line() {
    let fonts = FontManager::new(face());
    let bounds = Rect::new(0, 0, 100, 100);
    assert_eq!(fonts.layout(None, 20, one(), bounds, "a\nbcd"), Rect::new(0, 0, 30, 40));
}

#[test]
fn measure_scales_the_size() {
    let fonts = FontManager::new(face());
    let bounds = Rect::new(0, 0, 100, 100);
    assert_eq!(fonts.layout(None, 20, ScaleFactor::whole(2), bounds, "ab"), Rect::new(0, 0, 40, 40));
}

#[test]
fn measure_uses_the_face_it_is_given() {
    let fonts = FontManager::new(face());
    let wide = Font::new(1000, 1000, 0, 0, (0..256).collect(), vec![1000; 256]).unwrap();
    let bounds = Rect::new(0, 0, 100, 100);
    assert_eq!(fonts.layout(Some(&wide), 20, one(), bounds, "ab"), Rect::new(0, 0, 40, 20));
}

#[test]
fn add_places_glyphs_on_the_baseline() {
    let fonts = FontManager::new(face());
    let mut scene = SceneBuilder::new();
    let ink = red();
    fonts.add(
        &mut scene,
        None,
        20,
        one(),
        Some(&ink),
        Translation::identity(),
        "ab",
        Rect::new(5, 7, 105, 107),
    );
    assert_eq!(
        scene.commands,
        vec![glyph(97, 5, 23, 20, Some(red())), glyph(98, 15, 23, 20, Some(red()))]
    );
}

#[test]
fn add_drops_the_space_that_ends_a_line() {
    let fonts = FontManager::new(face());
    let mut scene = SceneBuilder::new();
    fonts.add(
        &mut scene,
        None,
        20,
        one(),
        None,
        Translation { dx: 100, dy: 200 },
        "aa bb",
        Rect::new(0, 0, 30, 100),
    );
    assert_eq!(
        scene.commands,
        vec![
            glyph(97, 100, 216, 20, None),
            glyph(97, 110, 216, 20, None),
            glyph(98, 100, 236, 20, None),
            glyph(98, 110, 236, 20, None),
        ]
    );
}

#[test]
fn add_keeps_a_space_inside_a_line() {
    let fonts = FontManager::new(face());
    let mut scene = SceneBuilder::new();
    fonts.add(
        &mut scene,
        None,
        20,
        one(),
        None,
        Translation::identity(),
        "a b",
        Rect::new(0, 0, 100, 100),
    );
    assert_eq!(
        scene.commands,
        vec![glyph(97, 0, 16, 20, None), glyph(32, 10, 16, 20, None), glyph(98, 20, 16, 20, None)]
    );
}

#[test]
fn add_run_breaks_only_at_line_feeds() {
    let fonts = FontManager::new(face());
    let mut scene = SceneBuilder::new();
    let ink = red();
    fonts.add_run(&mut scene, None, 20, &ink, Translation { dx: 1, dy: 2 }, "a \nb");
    assert_eq!(
        scene.commands,
        vec![
            glyph(97, 1, 2, 20, Some(red())),
            glyph(32, 11, 2, 20, Some(red())),
            glyph(98, 1, 22, 20, Some(red())),
        ]
    );
    let mut other = SceneBuilder::new();
    fonts.add_var_run(&mut other, None, 20, &ink, Translation { dx: 1, dy: 2 }, "a \nb");
    assert_eq!(scene.commands, other.commands);
}

#[test]
fn shift_from_alignment() {
    let size = Rect::new(0, 0, 40, 10);
    assert_eq!(xy_from_align(16, 4, size, TextAlign::Top, TextAlign::Left), (0, 0));
    assert_eq!(xy_from_align(16, 4, size, TextAlign::Center, TextAlign::Left), (0, 10));
    assert_eq!(xy_from_align(16, 4, size, TextAlign::Bottom, TextAlign::Right), (-40, 0));
    assert_eq!(xy_from_align(16, 4, size, TextAlign::Center, TextAlign::Center), (-20, 10));
    assert_eq!(
        transform_from_align(16, 4, size, TextAlign::Center, TextAlign::Right),
        Translation { dx: -40, dy: 10 }
    );
}
