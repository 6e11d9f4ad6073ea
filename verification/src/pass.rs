//! The two passes of a frame, and what holds of them together.

use vstd::prelude::*;
use vstd::view::View as _;
use vello::peniko::Brush;
use crate::drawing::ids;
use crate::drawing::DrawCommand;
use crate::drawing::DrawingContext;
use crate::drawing::LayoutContext;
use crate::drawing::Palette;
use crate::drawing::SceneBuilder;
use crate::geometry::Insets;
use crate::geometry::Rect;
use crate::geometry::ScaleFactor;
use crate::layout::all_recorded;
use crate::layout::apply_ops;
use crate::layout::entry;
use crate::layout::lemma_apply_ops_concat;
use crate::layout::lemma_apply_ops_idempotent;
use crate::layout::lemma_apply_ops_single;
use crate::layout::CacheOp;
use crate::layout::Id;
use crate::layout::IdManager;
use crate::layout::Layout;
use crate::simple_text::FontManager;
use crate::view::Border;
use crate::view::Padding;
use crate::view::Rectangle;
use crate::view::View;

verus! {

/// The path of the root of a view tree.
pub open spec fn root_path() -> Seq<u32> {
    seq![0u32]
}

/// What a layout pass hands back: the rectangle that the tree used, and the
/// identity of every node it entered, in order.
pub struct LayoutPass {
    pub used_rect: Rect,
    pub visited: Vec<Id>,
}

/// What a draw pass hands back: the scene, and the identity of every node it
/// entered, in order.
pub struct DrawPass {
    pub scene: SceneBuilder,
    pub visited: Vec<Id>,
}

/// Lays out the tree under `view` in the viewport and records its geometry
/// in `cache`.
pub fn layout_pass<V: View>(
    view: &V,
    font_manager: &FontManager,
    scale_factor: ScaleFactor,
    cache: &mut IdManager,
    viewport: Rect,
) -> (pass: LayoutPass)
    ensures
        pass.used_rect == view.used(*font_manager, scale_factor, viewport),
        ids(pass.visited@) == view.identities(root_path()),
        final(cache)@ == apply_ops(
            old(cache)@,
            view.writes(*font_manager, scale_factor, root_path(), viewport),
        ),
        all_recorded(final(cache)@, ids(pass.visited@)),
{
    let mut path: Vec<u32> = Vec::new();
    path.push(0);
    assert(path@ =~= root_path());
    let mut lctx = LayoutContext::new(font_manager, path, scale_factor);
    let used_rect = view.layout(&mut lctx, cache, viewport);
    assert(ids(lctx.visited@) =~= view.identities(root_path()));
    proof {
        view.lemma_records_nodes(*font_manager, scale_factor, root_path(), viewport, old(cache)@);
    }
    LayoutPass { used_rect, visited: lctx.visited }
}

/// Draws the tree under `view` from what `cache` holds, with the brushes
/// that the root inherits.
pub fn draw_pass<V: View>(
    view: &V,
    font_manager: &FontManager,
    scale_factor: ScaleFactor,
    cache: &IdManager,
    background_brush: Brush,
    fill_brush: Brush,
    foreground_color: Brush,
    viewport: Rect,
) -> (pass: DrawPass)
    ensures
        pass.scene@ == view.painted(
            (Palette { background: background_brush, fill: fill_brush, foreground: foreground_color }),
            *font_manager,
            scale_factor,
            root_path(),
            cache@,
        ),
        ids(pass.visited@) == view.identities(root_path()),
{
    let mut path: Vec<u32> = Vec::new();
    path.push(0);
    assert(path@ =~= root_path());
    let mut dctx = DrawingContext::new(
        font_manager,
        path,
        background_brush,
        fill_brush,
        foreground_color,
        viewport,
        scale_factor,
    );
    view.draw(&mut dctx, cache);
    assert(ids(dctx.visited@) =~= view.identities(root_path()));
    assert(dctx.builder@ =~= view.painted(
        Palette { background: background_brush, fill: fill_brush, foreground: foreground_color },
        *font_manager,
        scale_factor,
        root_path(),
        cache@,
    ));
    DrawPass { scene: dctx.builder, visited: dctx.visited }
}

/// A pass over a tree enters the same nodes in the same order whether it
/// lays the tree out or draws it: whatever the two passes start from, each
/// adds the same identities to its record of visits.
pub proof fn lemma_passes_enter_same_nodes<V: View>(
    view: V,
    layout_before: LayoutContext,
    layout_after: LayoutContext,
    draw_before: DrawingContext,
    draw_after: DrawingContext,
    painted: Seq<DrawCommand>,
)
    requires
        layout_after.follows(layout_before, view.identities(layout_before.path@)),
        draw_after.follows(draw_before, view.identities(draw_before.path@), painted),
        layout_before.path@ == draw_before.path@,
        ids(layout_before.visited@) == ids(draw_before.visited@),
    ensures
        ids(layout_after.visited@) == ids(draw_after.visited@),
{
}

/// After a layout pass, whatever the cache held before it, the cache holds
/// a record for every node that the draw pass of the same tree enters: no
/// node reads back the rectangles of a missing record.
pub proof fn lemma_draw_finds_records<V: View>(
    view: V,
    fonts: FontManager,
    scale: ScaleFactor,
    path: Seq<u32>,
    available_rect: Rect,
    cache: Map<Seq<u32>, Layout>,
    draw_before: DrawingContext,
    draw_after: DrawingContext,
    painted: Seq<DrawCommand>,
)
    requires
        draw_before.path@ == path,
        draw_before.visited@.len() == 0,
        draw_after.follows(draw_before, view.identities(path), painted),
    ensures
        all_recorded(
            apply_ops(cache, view.writes(fonts, scale, path, available_rect)),
            ids(draw_after.visited@),
        ),
{
    view.lemma_records_nodes(fonts, scale, path, available_rect, cache);
    assert(ids(draw_after.visited@) =~= view.identities(path));
}

/// Laying a tree out twice in the same space leaves the cache as laying it
/// out once does.
pub proof fn lemma_layout_settles<V: View>(
    view: V,
    fonts: FontManager,
    scale: ScaleFactor,
    path: Seq<u32>,
    available_rect: Rect,
    cache: Map<Seq<u32>, Layout>,
)
    ensures
        ({
            let writes = view.writes(fonts, scale, path, available_rect);
            apply_ops(apply_ops(cache, writes), writes) == apply_ops(cache, writes)
        }),
{
    lemma_apply_ops_idempotent(cache, view.writes(fonts, scale, path, available_rect));
}

/// Whether laying `view` out at `path` leaves a record there whose content
/// is the rectangle that the view used.
pub open spec fn records_own_content<V: View>(
    view: V,
    fonts: FontManager,
    scale: ScaleFactor,
    path: Seq<u32>,
    available_rect: Rect,
    cache: Map<Seq<u32>, Layout>,
) -> bool {
    entry(apply_ops(cache, view.writes(fonts, scale, path, available_rect)), path) matches Some(
        layout,
    ) && layout.content_bounds == view.used(fonts, scale, available_rect)
}

/// A length that is not negative stays so when it is scaled.
pub proof fn lemma_scaled_non_negative(scale: ScaleFactor, length: int)
    requires
        length >= 0,
    ensures
        scale.scaled(length) >= 0,
{
    scale.lemma_valid();
    let product = length * scale.num();
    assert(product >= 0) by (nonlinear_arith)
        requires
            length >= 0,
            scale.num() >= 0,
            product == length * scale.num(),
    ;
    crate::geometry::lemma_quotient_within(product, scale.den());
}

/// Whether laying `view` out at `path` leaves a record there whose padding
/// is the rectangle that the view used, and encloses the content.
pub open spec fn records_own_padding<V: View>(
    view: V,
    fonts: FontManager,
    scale: ScaleFactor,
    path: Seq<u32>,
    available_rect: Rect,
    cache: Map<Seq<u32>, Layout>,
) -> bool {
    entry(apply_ops(cache, view.writes(fonts, scale, path, available_rect)), path) matches Some(
        layout,
    ) && layout.padding_bounds == view.used(fonts, scale, available_rect)
        && layout.padding_bounds.encloses(layout.content_bounds)
}

/// Padding without a negative inset, around a view that records its own
/// content, records a padding rectangle that encloses the content.
pub proof fn lemma_padding_encloses_content<V: View>(
    view: V,
    padding: Insets,
    fonts: FontManager,
    scale: ScaleFactor,
    path: Seq<u32>,
    available_rect: Rect,
    cache: Map<Seq<u32>, Layout>,
)
    requires
        padding.non_negative(),
        records_own_content(
            view,
            fonts,
            scale,
            path,
            available_rect.shrunk(padding.scaled(scale)),
            cache,
        ),
    ensures
        records_own_padding(
            (Padding { element: view, edges: padding }),
            fonts,
            scale,
            path,
            available_rect,
            cache,
        ),
{
    let inner = available_rect.shrunk(padding.scaled(scale));
    let padded = Padding { element: view, edges: padding };
    let w0 = view.writes(fonts, scale, path, inner);
    let own = CacheOp::SetPadding { id: path, rect: padded.used(fonts, scale, available_rect) };
    lemma_apply_ops_concat(cache, w0, seq![own]);
    lemma_apply_ops_single(apply_ops(cache, w0), own);
    assert(w0 + seq![own] =~= w0.push(own));
    lemma_scaled_non_negative(scale, padding.x0 as int);
    lemma_scaled_non_negative(scale, padding.y0 as int);
    lemma_scaled_non_negative(scale, padding.x1 as int);
    lemma_scaled_non_negative(scale, padding.y1 as int);
}

/// A border without a negative inset, around a view that records its own
/// padding, leaves a nested record: the border encloses the padding, and the
/// padding the content.
pub proof fn lemma_border_encloses_padding<V: View>(
    view: V,
    border: Insets,
    brush: Brush,
    fonts: FontManager,
    scale: ScaleFactor,
    path: Seq<u32>,
    available_rect: Rect,
    cache: Map<Seq<u32>, Layout>,
)
    requires
        border.non_negative(),
        records_own_padding(
            view,
            fonts,
            scale,
            path,
            available_rect.shrunk(border.scaled(scale)),
            cache,
        ),
    ensures
        ({
            let wrapped = Border { element: view, brush, edges: border };
            let after = apply_ops(cache, wrapped.writes(fonts, scale, path, available_rect));
            entry(after, path) matches Some(layout) && layout.nested()
        }),
{
    let inner = available_rect.shrunk(border.scaled(scale));
    let wrapped = Border { element: view, brush, edges: border };
    let w0 = view.writes(fonts, scale, path, inner);
    let own = CacheOp::SetBorder { id: path, rect: wrapped.used(fonts, scale, available_rect) };
    lemma_apply_ops_concat(cache, w0, seq![own]);
    lemma_apply_ops_single(apply_ops(cache, w0), own);
    assert(w0 + seq![own] =~= w0.push(own));
    lemma_scaled_non_negative(scale, border.x0 as int);
    lemma_scaled_non_negative(scale, border.y0 as int);
    lemma_scaled_non_negative(scale, border.x1 as int);
    lemma_scaled_non_negative(scale, border.y1 as int);
}

/// Once a view that records its own content is wrapped in padding and the
/// padding in a border, neither with a negative inset, the record of the
/// node is nested: its border encloses its padding, and its padding its
/// content.
pub proof fn lemma_bounds_nest<V: View>(
    view: V,
    padding: Insets,
    border: Insets,
    brush: Brush,
    fonts: FontManager,
    scale: ScaleFactor,
    path: Seq<u32>,
    available_rect: Rect,
    cache: Map<Seq<u32>, Layout>,
)
    requires
        padding.non_negative(),
        border.non_negative(),
        records_own_content(
            view,
            fonts,
            scale,
            path,
            available_rect.shrunk(border.scaled(scale)).shrunk(padding.scaled(scale)),
            cache,
        ),
    ensures
        ({
            let wrapped = Border {
                element: Padding { element: view, edges: padding },
                brush,
                edges: border,
            };
            let after = apply_ops(cache, wrapped.writes(fonts, scale, path, available_rect));
            entry(after, path) matches Some(layout) && layout.nested()
        }),
{
    let inner = available_rect.shrunk(border.scaled(scale));
    lemma_padding_encloses_content(view, padding, fonts, scale, path, inner, cache);
    lemma_border_encloses_padding(
        Padding { element: view, edges: padding },
        border,
        brush,
        fonts,
        scale,
        path,
        available_rect,
        cache,
    );
}

/// A view whose last change records the rectangle it used as the content
/// of its own node records its own content. So do the shapes, the texts,
/// the stacks and the frames.
pub proof fn lemma_last_write_records_content<V: View>(
    view: V,
    fonts: FontManager,
    scale: ScaleFactor,
    path: Seq<u32>,
    available_rect: Rect,
    cache: Map<Seq<u32>, Layout>,
)
    requires
        view.writes(fonts, scale, path, available_rect).len() > 0,
        view.writes(fonts, scale, path, available_rect).last() == (CacheOp::SetContent {
            id: path,
            rect: view.used(fonts, scale, available_rect),
        }),
    ensures
        records_own_content(view, fonts, scale, path, available_rect, cache),
{
}

/// A rectangle wrapped in padding and the padding in a border, neither
/// with a negative inset, leaves a nested record wherever it is laid out.
pub proof fn lemma_wrapped_rectangle_nests(
    view: Rectangle,
    padding: Insets,
    border: Insets,
    brush: Brush,
    fonts: FontManager,
    scale: ScaleFactor,
    path: Seq<u32>,
    available_rect: Rect,
    cache: Map<Seq<u32>, Layout>,
)
    requires
        padding.non_negative(),
        border.non_negative(),
    ensures
        ({
            let wrapped = Border {
                element: Padding { element: view, edges: padding },
                brush,
                edges: border,
            };
            let after = apply_ops(cache, wrapped.writes(fonts, scale, path, available_rect));
            entry(after, path) matches Some(layout) && layout.nested()
        }),
{
    let inner = available_rect.shrunk(border.scaled(scale)).shrunk(padding.scaled(scale));
    lemma_last_write_records_content(view, fonts, scale, path, inner, cache);
    lemma_bounds_nest(view, padding, border, brush, fonts, scale, path, available_rect, cache);
}

} // verus!
