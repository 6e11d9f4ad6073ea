use dui_core::defaults::DEFAULT_SPACING;
use dui_core::drawing::{DrawCommand, DrawingContext, LayoutContext};
use dui_core::geometry::{Insets, Rect, ScaleFactor, Size};
use dui_core::layout::{Id, IdManager, Layout};
use dui_core::multi::{Multi14, Multi2, Multi3};
use dui_core::pass::{draw_pass, layout_pass};
use dui_core::simple_text::{Font, FontManager};
use dui_core::stack::{ElementIterator, HStack, VStack};
use dui_core::view::{
    align_in, BackgroundImpl, BorderImpl, Composed, Element, FillImpl, FrameImpl, PaddingImpl,
    Rectangle, Text, View,
};
use dui_core::{Alignment, HorizontalAlignment, VerticalALignment};
use vello::peniko::{Brush, Color};

fn fonts() -> FontManager {
    let glyphs: Vec<u16> = (0..256).collect();
    let advances: Vec<u16> = vec![500; 256];
    FontManager::new(Font::new(1000, 800, -200, 0, glyphs, advances).unwrap())
}

fn one() -> ScaleFactor {
    ScaleFactor::whole(1)
}

fn id(path: &[u32]) -> Id {
    Id::from(path.to_vec())
}

fn solid(r: u8, g: u8, b: u8) -> Brush {
    Brush::Solid(Color::rgb8(r, g, b))
}

fn viewport() -> Rect {
    Rect::new(0, 0, 400, 300)
}

fn fill(brush: Brush, rect: Rect) -> DrawCommand {
    DrawCommand::Fill { brush, rect }
}

fn draw<V: View>(view: &V, fonts: &FontManager, cache: &IdManager) -> dui_core::pass::DrawPass {
    draw_pass(view, fonts, one(), cache, solid(1, 1, 1), solid(2, 2, 2), solid(3, 3, 3), viewport())
}

#[test]
fn rectangle_takes_its_size_at_the_origin_of_the_space() {
    let fonts = fonts();
    let mut cache = IdManager::new();
    let pass = layout_pass(&Rectangle(30, 20), &fonts, one(), &mut cache, Rect::new(7, 9, 100, 100));
    assert_eq!(pass.used_rect, Rect::new(7, 9, 37, 29));
    assert_eq!(cache.get_layout(id(&[0])), Layout {
        border_bounds: Rect::new(7, 9, 37, 29),
        padding_bounds: Rect::new(7, 9, 37, 29),
        content_bounds: Rect::new(7, 9, 37, 29),
    });
    assert_eq!(pass.visited, vec![id(&[0])]);
}

#[test]
fn rectangle_scales_its_size() {
    let fonts = fonts();
    let mut cache = IdManager::new();
    let scale = ScaleFactor::new(3, 2).unwrap();
    let pass = layout_pass(&Rectangle(30, 20), &fonts, scale, &mut cache, viewport());
    assert_eq!(pass.used_rect, Rect::new(0, 0, 45, 30));
}

#[test]
fn rectangle_is_filled_with_the_fill_brush() {
    let fonts = fonts();
    let mut cache = IdManager::new();
    let view = Rectangle(30, 20);
    layout_pass(&view, &fonts, one(), &mut cache, viewport());
    let pass = draw(&view, &fonts, &cache);
    assert_eq!(pass.scene.commands, vec![fill(solid(2, 2, 2), Rect::new(0, 0, 30, 20))]);
}

#[test]
fn drawing_without_a_layout_reads_zero_rectangles() {
    let fonts = fonts();
    let cache = IdManager::new();
    let pass = draw(&Rectangle(30, 20), &fonts, &cache);
    assert_eq!(pass.scene.commands, vec![fill(solid(2, 2, 2), Rect::new(0, 0, 0, 0))]);
}

#[test]
fn unit_view_uses_nothing_and_records_nothing() {
    let fonts = fonts();
    let mut cache = IdManager::new();
    let pass = layout_pass(&(), &fonts, one(), &mut cache, viewport());
    assert_eq!(pass.used_rect, Rect::new(0, 0, 0, 0));
    assert_eq!(cache.len(), 0);
    assert!(pass.visited.is_empty());
    assert!(draw(&(), &fonts, &cache).scene.commands.is_empty());
    assert!(().is_leaf());
    assert!(!Rectangle(1, 1).is_leaf());
}

#[test]
fn vertical_stack_geometry() {
    let fonts = fonts();
    let mut cache = IdManager::new();
    let stack = VStack::new(Multi2(Rectangle(10, 20), Rectangle(15, 30))).spacing(5);
    let pass = layout_pass(&stack, &fonts, one(), &mut cache, viewport());
    assert_eq!(pass.used_rect.height(), 55);
    assert_eq!(pass.used_rect, Rect::new(0, 0, 15, 55));
    assert_eq!(cache.get_layout(id(&[0, 0])).content_bounds, Rect::new(0, 0, 10, 20));
    assert_eq!(cache.get_layout(id(&[0, 1])).content_bounds.y0, 25);
    assert_eq!(cache.get_layout(id(&[0, 1])).content_bounds, Rect::new(0, 25, 15, 55));
    assert_eq!(cache.get_layout(id(&[0])).content_bounds, Rect::new(0, 0, 15, 55));
}

#[test]
fn vertical_stack_away_from_the_origin() {
    let fonts = fonts();
    let mut cache = IdManager::new();
    let stack = VStack::new(Multi2(Rectangle(10, 20), Rectangle(15, 30))).spacing(5);
    let pass = layout_pass(&stack, &fonts, one(), &mut cache, Rect::new(100, 200, 400, 300));
    assert_eq!(pass.used_rect, Rect::new(100, 200, 115, 255));
    assert_eq!(pass.used_rect.height(), 55);
    assert_eq!(cache.get_layout(id(&[0, 1])).content_bounds, Rect::new(100, 225, 115, 255));
}

#[test]
fn stack_spacing_is_scaled() {
    let fonts = fonts();
    let mut cache = IdManager::new();
    let stack = VStack::new(Multi2(Rectangle(10, 20), Rectangle(15, 30))).spacing(5);
    let pass = layout_pass(&stack, &fonts, ScaleFactor::whole(2), &mut cache, viewport());
    assert_eq!(pass.used_rect, Rect::new(0, 0, 30, 110));
    assert_eq!(cache.get_layout(id(&[0, 1])).content_bounds.y0, 50);
}

#[test]
fn stack_default_spacing() {
    let fonts = fonts();
    let mut cache = IdManager::new();
    let stack: VStack<Multi2<Rectangle, Rectangle>> = VStack::from((Rectangle(1, 1), Rectangle(1, 1)));
    assert_eq!(stack.spacing, DEFAULT_SPACING);
    let pass = layout_pass(&stack, &fonts, one(), &mut cache, viewport());
    assert_eq!(pass.used_rect.height(), 2 + DEFAULT_SPACING);
}

#[test]
fn horizontal_stack_geometry() {
    let fonts = fonts();
    let mut cache = IdManager::new();
    let stack = HStack::new(Multi3(Rectangle(10, 20), Rectangle(15, 30), Rectangle(5, 5))).spacing(2);
    let pass = layout_pass(&stack, &fonts, one(), &mut cache, viewport());
    assert_eq!(pass.used_rect, Rect::new(0, 0, 34, 30));
    assert_eq!(cache.get_layout(id(&[0, 1])).content_bounds, Rect::new(12, 0, 27, 30));
    assert_eq!(cache.get_layout(id(&[0, 2])).content_bounds, Rect::new(29, 0, 34, 5));
}

#[test]
fn stack_of_a_single_view_sits_two_levels_down() {
    let fonts = fonts();
    let mut cache = IdManager::new();
    let stack = VStack::new(Rectangle(10, 20));
    let pass = layout_pass(&stack, &fonts, one(), &mut cache, viewport());
    assert_eq!(pass.used_rect, Rect::new(0, 0, 10, 20));
    assert_eq!(pass.visited, vec![id(&[0]), id(&[0, 0, 0])]);
    assert_eq!(cache.get_layout(id(&[0, 0, 0])).content_bounds, Rect::new(0, 0, 10, 20));
    let shown = draw(&stack, &fonts, &cache);
    assert_eq!(shown.visited, pass.visited);
    assert_eq!(shown.scene.commands, vec![fill(solid(2, 2, 2), Rect::new(0, 0, 10, 20))]);
}

#[test]
fn stack_draws_children_in_layout_order() {
    let fonts = fonts();
    let mut cache = IdManager::new();
    let stack = VStack::new(Multi2(Rectangle(10, 20), Rectangle(15, 30))).spacing(5);
    layout_pass(&stack, &fonts, one(), &mut cache, viewport());
    let pass = draw(&stack, &fonts, &cache);
    assert_eq!(
        pass.scene.commands,
        vec![
            fill(solid(2, 2, 2), Rect::new(0, 0, 10, 20)),
            fill(solid(2, 2, 2), Rect::new(0, 25, 15, 55)),
        ]
    );
}

#[test]
fn padding_round_trip() {
    let fonts = fonts();
    let mut cache = IdManager::new();
    let view = Rectangle(50, 50).padding(Insets::uniform(5));
    let pass = layout_pass(&view, &fonts, one(), &mut cache, viewport());
    let layout = cache.get_layout(id(&[0]));
    assert_eq!(layout.padding_bounds.size(), Size::new(60, 60));
    assert_eq!(layout.content_bounds.size(), Size::new(50, 50));
    assert_eq!(layout.content_bounds.x0, layout.padding_bounds.x0 + 5);
    assert_eq!(layout.content_bounds.y0, layout.padding_bounds.y0 + 5);
    assert_eq!(layout.padding_bounds, Rect::new(0, 0, 60, 60));
    assert_eq!(layout.content_bounds, Rect::new(5, 5, 55, 55));
    assert_eq!(pass.used_rect, Rect::new(0, 0, 60, 60));
}

#[test]
fn padding_insets_are_scaled() {
    let fonts = fonts();
    let mut cache = IdManager::new();
    let view = Rectangle(50, 50).padding(Insets::new(1, 2, 3, 4));
    let pass = layout_pass(&view, &fonts, ScaleFactor::whole(2), &mut cache, viewport());
    assert_eq!(pass.used_rect, Rect::new(0, 0, 108, 112));
    assert_eq!(cache.get_layout(id(&[0])).content_bounds, Rect::new(2, 4, 102, 104));
}

#[test]
fn border_encloses_padding_encloses_content() {
    let fonts = fonts();
    let mut cache = IdManager::new();
    let view = Rectangle(50, 40).padding(Insets::uniform(5)).border(Insets::uniform(2), solid(9, 9, 9));
    let pass = layout_pass(&view, &fonts, one(), &mut cache, viewport());
    let layout = cache.get_layout(id(&[0]));
    assert_eq!(layout.content_bounds, Rect::new(7, 7, 57, 47));
    assert_eq!(layout.padding_bounds, Rect::new(2, 2, 62, 52));
    assert_eq!(layout.border_bounds, Rect::new(0, 0, 64, 54));
    assert_eq!(pass.used_rect, layout.border_bounds);
    assert!(layout.border_bounds.x0 <= layout.padding_bounds.x0);
    assert!(layout.padding_bounds.x0 <= layout.content_bounds.x0);
    assert!(layout.border_bounds.y1 >= layout.padding_bounds.y1);
    assert!(layout.padding_bounds.y1 >= layout.content_bounds.y1);
}

#[test]
fn wrappers_draw_themselves_before_their_child() {
    let fonts = fonts();
    let mut cache = IdManager::new();
    let view = Rectangle(50, 40).padding(Insets::uniform(5)).border(Insets::uniform(2), solid(9, 9, 9));
    layout_pass(&view, &fonts, one(), &mut cache, viewport());
    let pass = draw(&view, &fonts, &cache);
    assert_eq!(
        pass.scene.commands,
        vec![
            fill(solid(9, 9, 9), Rect::new(0, 0, 64, 54)),
            fill(solid(1, 1, 1), Rect::new(2, 2, 62, 52)),
            fill(solid(2, 2, 2), Rect::new(7, 7, 57, 47)),
        ]
    );
}

#[test]
fn background_and_fill_reach_only_their_own_subtree() {
    let fonts = fonts();
    let mut cache = IdManager::new();
    let view = VStack::new(Multi3(
        Rectangle(10, 10).padding(Insets::uniform(1)).background(solid(50, 0, 0)),
        Rectangle(10, 10).fill(solid(0, 60, 0)).padding(Insets::uniform(1)),
        Rectangle(10, 10),
    ))
    .spacing(0);
    let laid = layout_pass(&view, &fonts, one(), &mut cache, viewport());
    assert_eq!(laid.used_rect, Rect::new(0, 0, 12, 34));
    let pass = draw(&view, &fonts, &cache);
    assert_eq!(
        pass.scene.commands,
        vec![
            fill(solid(50, 0, 0), Rect::new(0, 0, 12, 12)),
            fill(solid(2, 2, 2), Rect::new(1, 1, 11, 11)),
            fill(solid(1, 1, 1), Rect::new(0, 12, 12, 24)),
            fill(solid(0, 60, 0), Rect::new(1, 13, 11, 23)),
            fill(solid(2, 2, 2), Rect::new(0, 24, 10, 34)),
        ]
    );
}

#[test]
fn frame_with_alignment() {
    let fonts = fonts();
    let mut cache = IdManager::new();
    let view = Rectangle(10, 10).frame(Size::new(100, 100)).align(Alignment::top_leading());
    let pass = layout_pass(&view, &fonts, one(), &mut cache, viewport());
    assert_eq!(pass.used_rect, Rect::new(0, 0, 100, 100));
    assert_eq!(cache.get_layout(id(&[0, 0])).content_bounds, Rect::new(0, 0, 10, 10));
    assert_eq!(cache.get_layout(id(&[0])).content_bounds, Rect::new(0, 0, 100, 100));

    let mut cache = IdManager::new();
    let view = Rectangle(10, 10).frame(Size::new(100, 100)).align(Alignment::center());
    layout_pass(&view, &fonts, one(), &mut cache, viewport());
    let content = cache.get_layout(id(&[0, 0])).content_bounds;
    assert_eq!((content.x0, content.y0), (45, 45));
    assert_eq!(content, Rect::new(45, 45, 55, 55));
}

#[test]
fn frame_is_centred_unless_told_otherwise() {
    let fonts = fonts();
    let mut cache = IdManager::new();
    let view = Rectangle(10, 10).frame(Size::new(100, 100));
    assert_eq!(view.alignment, Alignment::default());
    assert_eq!(Alignment::default(), Alignment::center());
    layout_pass(&view, &fonts, one(), &mut cache, Rect::new(10, 20, 400, 300));
    assert_eq!(cache.get_layout(id(&[0, 0])).content_bounds, Rect::new(55, 65, 65, 75));
}

#[test]
fn frame_trailing_and_bottom() {
    let fonts = fonts();
    let mut cache = IdManager::new();
    let view = Rectangle(10, 20).frame(Size::new(100, 100)).align(Alignment::bottom_trailing());
    layout_pass(&view, &fonts, one(), &mut cache, viewport());
    assert_eq!(cache.get_layout(id(&[0, 0])).content_bounds, Rect::new(90, 80, 100, 100));
}

#[test]
fn frame_discards_the_provisional_record_of_its_child() {
    let fonts = fonts();
    let mut cache = IdManager::new();
    let view = Rectangle(10, 10)
        .padding(Insets::uniform(1))
        .frame(Size::new(100, 100))
        .align(Alignment::bottom_trailing());
    let pass = layout_pass(&view, &fonts, one(), &mut cache, viewport());
    assert_eq!(cache.get_layout(id(&[0, 0])), Layout {
        border_bounds: Rect::new(89, 89, 99, 99),
        padding_bounds: Rect::new(88, 88, 100, 100),
        content_bounds: Rect::new(89, 89, 99, 99),
    });
    assert_eq!(pass.visited, vec![id(&[0]), id(&[0, 0]), id(&[0, 0])]);
}

#[test]
fn elastic_frame_takes_the_available_size_within_its_limits() {
    let fonts = fonts();
    let mut cache = IdManager::new();
    let view = Rectangle(10, 10)
        .frame_min_max(Size::new(100, 100), Size::new(200, 5000))
        .align(Alignment::top_leading());
    let pass = layout_pass(&view, &fonts, one(), &mut cache, Rect::new(0, 0, 400, 50));
    assert_eq!(pass.used_rect, Rect::new(0, 0, 200, 100));
    assert_eq!(cache.get_layout(id(&[0, 0])).content_bounds, Rect::new(0, 0, 10, 10));

    let mut cache = IdManager::new();
    let view = Rectangle(10, 10).frame_min_max(Size::new(100, 100), Size::new(200, 5000));
    let pass = layout_pass(&view, &fonts, one(), &mut cache, Rect::new(0, 0, 150, 120));
    assert_eq!(pass.used_rect, Rect::new(0, 0, 150, 120));
    assert_eq!(cache.get_layout(id(&[0, 0])).content_bounds, Rect::new(70, 55, 80, 65));
}

#[test]
fn frame_draws_its_child_one_level_down() {
    let fonts = fonts();
    let mut cache = IdManager::new();
    let view = VStack::new(Multi2(
        Rectangle(10, 10).frame(Size::new(20, 20)).align(Alignment::top_leading()),
        Rectangle(5, 5),
    ))
    .spacing(0);
    let laid = layout_pass(&view, &fonts, one(), &mut cache, viewport());
    let pass = draw(&view, &fonts, &cache);
    assert_eq!(
        pass.scene.commands,
        vec![
            fill(solid(2, 2, 2), Rect::new(0, 0, 10, 10)),
            fill(solid(2, 2, 2), Rect::new(0, 20, 5, 25)),
        ]
    );
    assert_eq!(pass.visited, laid.visited);
    assert_eq!(
        pass.visited,
        vec![id(&[0]), id(&[0, 0]), id(&[0, 0, 0]), id(&[0, 1])]
    );
}

#[test]
fn alignment_of_a_reference_rectangle() {
    let available = Rect::new(10, 20, 400, 300);
    let reference = Rect::new(10, 20, 21, 31);
    let size = Size::new(101, 100);
    assert_eq!(align_in(Alignment::top_leading(), size, available, reference), reference);
    assert_eq!(
        align_in(Alignment::bottom_trailing(), size, available, reference),
        Rect::new(100, 109, 111, 120)
    );
    assert_eq!(
        align_in(Alignment::center(), size, available, reference),
        Rect::new(55, 65, 66, 76)
    );
    assert_eq!(
        align_in(Alignment::top(), size, available, reference),
        Rect::new(55, 20, 66, 31)
    );
    assert_eq!(
        align_in(Alignment::bottom(), size, available, reference),
        Rect::new(55, 109, 66, 120)
    );
    assert_eq!(
        align_in(Alignment::leading(), size, available, reference),
        Rect::new(10, 65, 21, 76)
    );
    assert_eq!(
        align_in(Alignment::trailing(), size, available, reference),
        Rect::new(100, 65, 111, 76)
    );
    assert_eq!(
        align_in(Alignment::top_trailing(), size, available, reference),
        Rect::new(100, 20, 111, 31)
    );
    assert_eq!(
        align_in(Alignment::bottom_leading(), size, available, reference),
        Rect::new(10, 109, 21, 120)
    );
    assert_eq!(Alignment::top().vertical, VerticalALignment::Top);
    assert_eq!(Alignment::trailing().horizontal, HorizontalAlignment::Trailing);
}

#[test]
fn text_is_measured_and_placed() {
    let fonts = fonts();
    let mut cache = IdManager::new();
    let view = Text::new("ab");
    let pass = layout_pass(&view, &fonts, one(), &mut cache, Rect::new(5, 7, 105, 107));
    assert_eq!(pass.used_rect, Rect::new(5, 7, 25, 27));
    assert_eq!(cache.get_layout(id(&[0])).content_bounds, Rect::new(5, 7, 25, 27));
    let shown = draw(&view, &fonts, &cache);
    assert_eq!(
        shown.scene.commands,
        vec![
            DrawCommand::Glyph { glyph: 97, x: 5, y: 23, size: 20, ink: Some(solid(3, 3, 3)) },
            DrawCommand::Glyph { glyph: 98, x: 15, y: 23, size: 20, ink: Some(solid(3, 3, 3)) },
        ]
    );
}

#[test]
fn layout_twice_yields_identical_cache() {
    let fonts = fonts();
    let mut cache = IdManager::new();
    let view = VStack::new(Multi3(
        Text::new("hello world").padding(Insets::uniform(5)).background(solid(0, 9, 0)),
        Rectangle(10, 10)
            .padding(Insets::uniform(1))
            .frame(Size::new(100, 100))
            .align(Alignment::bottom_trailing()),
        VStack::new(Multi2(Rectangle(1, 2), Rectangle(3, 4))).frame_min_max(
            Size::new(10, 10),
            Size::new(50, 50),
        ),
    ));
    let first = layout_pass(&view, &fonts, one(), &mut cache, viewport());
    let count = cache.len();
    let recorded: Vec<Layout> = first.visited.iter().map(|id| cache.get_layout(id.clone())).collect();
    let second = layout_pass(&view, &fonts, one(), &mut cache, viewport());
    let again: Vec<Layout> = second.visited.iter().map(|id| cache.get_layout(id.clone())).collect();
    assert_eq!(first.used_rect, second.used_rect);
    assert_eq!(first.visited, second.visited);
    assert_eq!(cache.len(), count);
    assert_eq!(recorded, again);
}

#[test]
fn draw_pass_visits_what_the_layout_pass_visited() {
    let fonts = fonts();
    let mut cache = IdManager::new();
    let view = HStack::new(Multi2(
        Text::new("Hello World").background(solid(0, 128, 0)).padding(Insets::uniform(5)).background(
            solid(255, 0, 0),
        ),
        VStack::new(Multi2(
            Rectangle(10, 10).border(Insets::uniform(1), solid(0, 0, 0)),
            Rectangle(10, 10).frame(Size::new(30, 30)),
        )),
    ))
    .padding(Insets::uniform(1))
    .frame_min_max(Size::new(100, 100), Size::new(5000, 5000))
    .align(Alignment::top_leading());
    let laid = layout_pass(&view, &fonts, one(), &mut cache, viewport());
    let shown = draw(&view, &fonts, &cache);
    assert_eq!(laid.visited, shown.visited);
    assert_eq!(
        laid.visited,
        vec![
            id(&[0]),
            id(&[0, 0]),
            id(&[0, 0]),
            id(&[0, 0, 0]),
            id(&[0, 0, 0]),
            id(&[0, 0, 1]),
            id(&[0, 0, 1, 0]),
            id(&[0, 0, 1, 0]),
            id(&[0, 0, 1, 1]),
            id(&[0, 0, 1, 1, 0]),
        ]
    );
    for visited in &shown.visited {
        assert_ne!(cache.get_layout(visited.clone()), Layout::zero());
    }
}

#[test]
fn contexts_are_left_as_they_were_found() {
    let fonts = fonts();
    let mut cache = IdManager::new();
    let view = VStack::new(Multi2(Rectangle(10, 10).frame(Size::new(30, 30)), Rectangle(10, 10)));
    let mut lctx = LayoutContext::new(&fonts, vec![4, 2], one());
    view.layout(&mut lctx, &mut cache, viewport());
    assert_eq!(lctx.path, vec![4, 2]);
    let mut dctx = DrawingContext::new(
        &fonts,
        vec![4, 2],
        solid(1, 1, 1),
        solid(2, 2, 2),
        solid(3, 3, 3),
        viewport(),
        one(),
    );
    let fancy = view.fill(solid(7, 7, 7)).background(solid(8, 8, 8));
    fancy.draw(&mut dctx, &cache);
    assert_eq!(dctx.path, vec![4, 2]);
    assert_eq!(dctx.background_brush, solid(1, 1, 1));
    assert_eq!(dctx.fill_brush, solid(2, 2, 2));
    assert_eq!(dctx.foreground_color, solid(3, 3, 3));
    assert_eq!(dctx.visited, lctx.visited);
    assert_eq!(
        dctx.builder.commands,
        vec![
            fill(solid(7, 7, 7), Rect::new(10, 10, 20, 20)),
            fill(solid(7, 7, 7), Rect::new(0, 38, 10, 48)),
        ]
    );
}

#[test]
fn adapters_address_children_by_index() {
    let fonts = fonts();
    let mut cache = IdManager::new();
    let children = Multi3::from((Rectangle(1, 1), (), Rectangle(3, 3)));
    assert_eq!(children.len(), 3);
    assert!(!children.is_leaf_at(0));
    assert!(children.is_leaf_at(1));
    assert!(!children.is_leaf_at(2));
    let mut lctx = LayoutContext::new(&fonts, vec![0, 2], one());
    assert_eq!(children.layout_at(&mut lctx, &mut cache, viewport(), 2), Rect::new(0, 0, 3, 3));
    assert_eq!(children.layout_at(&mut lctx, &mut cache, viewport(), 1), Rect::new(0, 0, 0, 0));
    assert_eq!(cache.get_layout(id(&[0, 2])).content_bounds, Rect::new(0, 0, 3, 3));
    assert_eq!(Rectangle(1, 1).len(), 1);
    assert!(!Rectangle(1, 1).is_leaf_at(0));
}

#[test]
fn fourteen_children() {
    let fonts = fonts();
    let mut cache = IdManager::new();
    let stack = VStack::new(Multi14(
        Rectangle(1, 1),
        Rectangle(2, 1),
        Rectangle(3, 1),
        Rectangle(4, 1),
        Rectangle(5, 1),
        Rectangle(6, 1),
        Rectangle(7, 1),
        Rectangle(8, 1),
        Rectangle(9, 1),
        Rectangle(10, 1),
        Rectangle(11, 1),
        Rectangle(12, 1),
        Rectangle(13, 1),
        Rectangle(14, 1),
    ))
    .spacing(1);
    assert_eq!(stack.element.len(), 14);
    let pass = layout_pass(&stack, &fonts, one(), &mut cache, viewport());
    assert_eq!(pass.used_rect, Rect::new(0, 0, 14, 27));
    assert_eq!(cache.get_layout(id(&[0, 13])).content_bounds, Rect::new(0, 26, 14, 27));
    assert_eq!(cache.len(), 15);
    let shown = draw(&stack, &fonts, &cache);
    assert_eq!(shown.scene.commands.len(), 14);
    assert_eq!(shown.visited, pass.visited);
}

struct Card;

impl Element for Card {
    type Body = dui_core::view::Padding<Rectangle>;

    fn composed(&self) -> Self::Body {
        self.body()
    }

    fn leaf(&self) -> bool {
        false
    }

    fn body(&self) -> Self::Body {
        Rectangle(20, 10).padding(Insets::uniform(2))
    }

    fn is_leaf(&self) -> bool {
        false
    }
}

#[test]
fn composed_node_is_laid_out_as_its_body() {
    let fonts = fonts();
    let mut cache = IdManager::new();
    let view = Composed(Card);
    let pass = layout_pass(&view, &fonts, one(), &mut cache, viewport());
    assert_eq!(pass.used_rect, Rect::new(0, 0, 24, 14));
    assert_eq!(cache.get_layout(id(&[0])).content_bounds, Rect::new(2, 2, 22, 12));
    let shown = draw(&view, &fonts, &cache);
    assert_eq!(
        shown.scene.commands,
        vec![
            fill(solid(1, 1, 1), Rect::new(0, 0, 24, 14)),
            fill(solid(2, 2, 2), Rect::new(2, 2, 22, 12)),
        ]
    );
}

struct Greeting;

impl Greeting {
    fn label() -> dui_core::view::Background<dui_core::view::Padding<dui_core::view::Background<Text>>> {
        Text::new("Hello World")
            .background(solid(0, 128, 0))
            .padding(Insets::uniform(5))
            .background(solid(255, 0, 0))
    }
}

#[test]
fn row_of_two_labels_in_an_elastic_frame() {
    let fonts = fonts();
    let mut cache = IdManager::new();
    let view = HStack::from((Greeting::label(), Greeting::label()))
        .padding(Insets::uniform(1))
        .frame_min_max(Size::new(100, 100), Size::new(5000, 5000))
        .align(Alignment::top_leading());
    let laid = layout_pass(&view, &fonts, one(), &mut cache, viewport());
    assert_eq!(laid.used_rect, Rect::new(0, 0, 400, 300));
    assert_eq!(cache.get_layout(id(&[0])).content_bounds, Rect::new(0, 0, 400, 300));
    assert_eq!(cache.get_layout(id(&[0, 0])), Layout {
        border_bounds: Rect::new(1, 1, 249, 31),
        padding_bounds: Rect::new(0, 0, 250, 32),
        content_bounds: Rect::new(1, 1, 249, 31),
    });
    assert_eq!(cache.get_layout(id(&[0, 0, 0])), Layout {
        border_bounds: Rect::new(6, 6, 116, 26),
        padding_bounds: Rect::new(1, 1, 121, 31),
        content_bounds: Rect::new(6, 6, 116, 26),
    });
    assert_eq!(cache.get_layout(id(&[0, 0, 1])).content_bounds, Rect::new(134, 6, 244, 26));
    let shown = draw(&view, &fonts, &cache);
    assert_eq!(shown.visited, laid.visited);
    assert_eq!(shown.scene.commands.len(), 25);
    assert_eq!(shown.scene.commands[0], fill(solid(1, 1, 1), Rect::new(0, 0, 250, 32)));
    assert_eq!(shown.scene.commands[1], fill(solid(255, 0, 0), Rect::new(1, 1, 121, 31)));
    assert_eq!(
        shown.scene.commands[2],
        DrawCommand::Glyph { glyph: 72, x: 6, y: 22, size: 20, ink: Some(solid(3, 3, 3)) }
    );
    assert_eq!(shown.scene.commands[13], fill(solid(255, 0, 0), Rect::new(129, 1, 249, 31)));
}

#[test]
fn alignment_keeps_an_odd_extent() {
    let available = Rect::new(0, 0, 300, 300);
    let size = Size::new(100, 100);
    let odd = Rect::new(0, 0, 11, 11);
    let centred = align_in(Alignment::center(), size, available, odd);
    assert_eq!(centred, Rect::new(45, 45, 56, 56));
    for alignment in [
        Alignment::leading(),
        Alignment::trailing(),
        Alignment::center(),
        Alignment::top(),
        Alignment::bottom(),
        Alignment::top_leading(),
        Alignment::top_trailing(),
        Alignment::bottom_leading(),
        Alignment::bottom_trailing(),
    ] {
        let placed = align_in(alignment, size, available, Rect::new(3, 4, 10, 17));
        assert_eq!(placed.size(), Size::new(7, 13));
    }
}

#[test]
fn centred_frame_keeps_a_child_of_odd_size() {
    let fonts = fonts();
    let mut cache = IdManager::new();
    let view = Rectangle(11, 13).frame(Size::new(100, 100));
    layout_pass(&view, &fonts, one(), &mut cache, viewport());
    assert_eq!(cache.get_layout(id(&[0, 0])).content_bounds, Rect::new(45, 44, 56, 57));
}

#[test]
fn centred_text_of_odd_width_stays_on_one_line() {
    let fonts = fonts();
    let scale = ScaleFactor::new(21, 20).unwrap();
    let text = Text::new("a b c");

    let mut cache = IdManager::new();
    let alone = layout_pass(&text, &fonts, scale, &mut cache, viewport());
    assert_eq!(alone.used_rect, Rect::new(0, 0, 53, 21));

    let mut cache = IdManager::new();
    let framed = Text::new("a b c").frame(Size::new(100, 100));
    layout_pass(&framed, &fonts, scale, &mut cache, viewport());
    assert_eq!(cache.get_layout(id(&[0, 0])).content_bounds, Rect::new(24, 40, 77, 61));
}
