//! The composition protocol and the views built on it.
//!
//! A view lays itself out in the space it is offered and reports the space it
//! used; later it draws itself from what the layout recorded. What a view
//! does is fixed by four functions of the view and its surroundings: the
//! rectangle it uses, the changes it makes to the cache, the identities of
//! the nodes it enters, and the commands it appends to the scene.

use vstd::prelude::*;
use vstd::view::View as _;
pub use crate::stack::ElementIterator;
pub use crate::stack::HStack;
pub use crate::stack::VStack;
use vello::peniko::Brush;
use crate::defaults::DEFAULT_TEXT_SIZE;
use crate::drawing::DrawCommand;
use crate::drawing::DrawingContext;
use crate::drawing::LayoutContext;
use crate::drawing::Palette;
use crate::geometry::add_units;
use crate::geometry::half_units;
use crate::geometry::sub_units;
use crate::geometry::Size;
use crate::drawing::ids;
use crate::drawing::lemma_ids_prefix;
use crate::drawing::pushed;
use crate::Alignment;
use crate::HorizontalAlignment;
use crate::VerticalALignment;
use crate::geometry::saturate;
use crate::geometry::Insets;
use crate::geometry::Rect;
use crate::geometry::ScaleFactor;
use crate::geometry::Translation;
use crate::layout::all_recorded;
use crate::layout::apply_ops;
use crate::layout::lemma_leads_to_self;
use crate::layout::lemma_nodes_below_child;
use crate::layout::lemma_wrapped_below;
use crate::layout::lemma_wrapped_recorded;
use crate::layout::lemma_writes_below_child;
use crate::layout::lemma_below_concat;
use crate::layout::nodes_below;
use crate::layout::target;
use crate::layout::writes_below;
use crate::layout::lemma_apply_ops_concat;
use crate::layout::lemma_apply_ops_single;
use crate::layout::lookup;
use crate::layout::CacheOp;
use crate::layout::IdManager;
use crate::layout::Layout;
use crate::simple_text::measured;
use crate::simple_text::pixel_size;
use crate::simple_text::placed;
use crate::simple_text::FontManager;

verus! {

/// What every node can do: lay itself out, and draw itself.
pub trait View {
    /// The rectangle that the view uses of `available_rect`.
    spec fn used(&self, fonts: FontManager, scale: ScaleFactor, available_rect: Rect) -> Rect;

    /// The changes that laying out the view at `path` makes to the cache,
    /// first to last.
    spec fn writes(
        &self,
        fonts: FontManager,
        scale: ScaleFactor,
        path: Seq<u32>,
        available_rect: Rect,
    ) -> Seq<CacheOp>;

    /// The identities of the nodes that a pass over the view at `path`
    /// enters, in order.
    spec fn identities(&self, path: Seq<u32>) -> Seq<Seq<u32>>;

    /// The commands that drawing the view at `path` appends to the scene.
    spec fn painted(
        &self,
        palette: Palette,
        fonts: FontManager,
        scale: ScaleFactor,
        path: Seq<u32>,
        cache: Map<Seq<u32>, Layout>,
    ) -> Seq<DrawCommand>;

    /// Laying the view out changes records at or below its own path only,
    /// and a pass over it enters nodes at or below its own path only.
    proof fn lemma_stays_below(
        &self,
        fonts: FontManager,
        scale: ScaleFactor,
        path: Seq<u32>,
        available_rect: Rect,
    )
        ensures
            writes_below(self.writes(fonts, scale, path, available_rect), path),
            nodes_below(self.identities(path), path),
    ;

    /// Once the view is laid out, whatever the cache held before, every
    /// node that a pass over the view enters has a record.
    proof fn lemma_records_nodes(
        &self,
        fonts: FontManager,
        scale: ScaleFactor,
        path: Seq<u32>,
        available_rect: Rect,
        cache: Map<Seq<u32>, Layout>,
    )
        ensures
            all_recorded(
                apply_ops(cache, self.writes(fonts, scale, path, available_rect)),
                self.identities(path),
            ),
    ;

    /// Lays the view out in `available_rect`, records its geometry in
    /// `cache` and hands back the rectangle it used. The path is left as it
    /// was found.
    fn layout(&self, lctx: &mut LayoutContext, cache: &mut IdManager, available_rect: Rect) -> (used_rect:
        Rect)
        ensures
            used_rect == self.used(*old(lctx).font_manager, old(lctx).scale_factor, available_rect),
            final(cache)@ == apply_ops(
                old(cache)@,
                self.writes(
                    *old(lctx).font_manager,
                    old(lctx).scale_factor,
                    old(lctx).path@,
                    available_rect,
                ),
            ),
            final(lctx).follows(*old(lctx), self.identities(old(lctx).path@)),
    ;

    /// Draws the view from what `cache` holds for it. The path and the
    /// brushes are left as they were found.
    fn draw(&self, dctx: &mut DrawingContext, cache: &IdManager)
        ensures
            final(dctx).follows(
                *old(dctx),
                self.identities(old(dctx).path@),
                self.painted(
                    old(dctx).palette(),
                    *old(dctx).font_manager,
                    old(dctx).scale_factor,
                    old(dctx).path@,
                    cache@,
                ),
            ),
    ;
}

/// What a node is made of: the view it hands its work to.
pub trait Element {
    /// The view that the node delegates to.
    type Body: View;

    /// The view that the node delegates to.
    spec fn composed(&self) -> Self::Body;

    /// Whether the node delegates no further.
    spec fn leaf(&self) -> bool;

    /// Builds the view that the node delegates to.
    fn body(&self) -> (body: Self::Body)
        ensures
            body == self.composed(),
    ;

    /// Whether the node delegates no further.
    fn is_leaf(&self) -> (leaf: bool)
        ensures
            leaf == self.leaf(),
    ;
}

impl Element for () {
    type Body = ();

    open spec fn composed(&self) -> () {
        ()
    }

    open spec fn leaf(&self) -> bool {
        true
    }

    fn body(&self) -> (body: ()) {
        ()
    }

    fn is_leaf(&self) -> (leaf: bool) {
        true
    }
}

impl View for () {
    open spec fn used(&self, fonts: FontManager, scale: ScaleFactor, available_rect: Rect) -> Rect {
        Rect::zero()
    }

    open spec fn writes(
        &self,
        fonts: FontManager,
        scale: ScaleFactor,
        path: Seq<u32>,
        available_rect: Rect,
    ) -> Seq<CacheOp> {
        Seq::empty()
    }

    open spec fn identities(&self, path: Seq<u32>) -> Seq<Seq<u32>> {
        Seq::empty()
    }

    open spec fn painted(
        &self,
        palette: Palette,
        fonts: FontManager,
        scale: ScaleFactor,
        path: Seq<u32>,
        cache: Map<Seq<u32>, Layout>,
    ) -> Seq<DrawCommand> {
        Seq::empty()
    }

    proof fn lemma_stays_below(
        &self,
        fonts: FontManager,
        scale: ScaleFactor,
        path: Seq<u32>,
        available_rect: Rect,
    ) {
    }

    proof fn lemma_records_nodes(
        &self,
        fonts: FontManager,
        scale: ScaleFactor,
        path: Seq<u32>,
        available_rect: Rect,
        cache: Map<Seq<u32>, Layout>,
    ) {
    }

    fn layout(&self, lctx: &mut LayoutContext, cache: &mut IdManager, available_rect: Rect) -> (used_rect:
        Rect) {
        assert(ids(lctx.visited@) + Seq::<Seq<u32>>::empty() =~= ids(
            lctx.visited@,
        ));
        Rect::zero()
    }

    fn draw(&self, dctx: &mut DrawingContext, cache: &IdManager) {
        assert(ids(dctx.visited@) + Seq::<Seq<u32>>::empty() =~= ids(
            dctx.visited@,
        ));
        assert(dctx.builder@ + Seq::<DrawCommand>::empty() =~= dctx.builder@);
    }
}

/// A filled rectangle of a fixed width and height.
pub struct Rectangle(pub i64, pub i64);

impl Rectangle {
    /// The rectangle of the view's size, scaled, at the origin of
    /// `available_rect`.
    pub open spec fn footprint(&self, scale: ScaleFactor, available_rect: Rect) -> Rect {
        Rect {
            x0: available_rect.x0,
            y0: available_rect.y0,
            x1: saturate(available_rect.x0 + scale.scaled(self.0 as int)) as i64,
            y1: saturate(available_rect.y0 + scale.scaled(self.1 as int)) as i64,
        }
    }
}

impl View for Rectangle {
    open spec fn used(&self, fonts: FontManager, scale: ScaleFactor, available_rect: Rect) -> Rect {
        self.footprint(scale, available_rect)
    }

    open spec fn writes(
        &self,
        fonts: FontManager,
        scale: ScaleFactor,
        path: Seq<u32>,
        available_rect: Rect,
    ) -> Seq<CacheOp> {
        seq![CacheOp::SetContent { id: path, rect: self.footprint(scale, available_rect) }]
    }

    open spec fn identities(&self, path: Seq<u32>) -> Seq<Seq<u32>> {
        seq![path]
    }

    open spec fn painted(
        &self,
        palette: Palette,
        fonts: FontManager,
        scale: ScaleFactor,
        path: Seq<u32>,
        cache: Map<Seq<u32>, Layout>,
    ) -> Seq<DrawCommand> {
        seq![DrawCommand::Fill { brush: palette.fill, rect: lookup(cache, path).content_bounds }]
    }

    proof fn lemma_stays_below(
        &self,
        fonts: FontManager,
        scale: ScaleFactor,
        path: Seq<u32>,
        available_rect: Rect,
    ) {
        lemma_leads_to_self(path);
    }

    proof fn lemma_records_nodes(
        &self,
        fonts: FontManager,
        scale: ScaleFactor,
        path: Seq<u32>,
        available_rect: Rect,
        cache: Map<Seq<u32>, Layout>,
    ) {
        let own = self.writes(fonts, scale, path, available_rect)[0];
        lemma_apply_ops_single(cache, own);
    }

    fn layout(&self, lctx: &mut LayoutContext, cache: &mut IdManager, available_rect: Rect) -> (used_rect:
        Rect) {
        lctx.enter();
        let rect = Rect {
            x0: available_rect.x0,
            y0: available_rect.y0,
            x1: add_units(available_rect.x0, lctx.scale_factor.apply(self.0)),
            y1: add_units(available_rect.y0, lctx.scale_factor.apply(self.1)),
        };
        proof {
            lemma_apply_ops_single(cache@, CacheOp::SetContent { id: lctx.path@, rect });
        }
        cache.set_layout_content_rect(lctx.id(), rect);
        rect
    }

    fn draw(&self, dctx: &mut DrawingContext, cache: &IdManager) {
        dctx.enter();
        let layout = cache.get_layout(dctx.id());
        dctx.builder.fill(&dctx.fill_brush, layout.content_bounds);
        assert(dctx.builder@ =~= old(dctx).builder@ + self.painted(
            old(dctx).palette(),
            *old(dctx).font_manager,
            old(dctx).scale_factor,
            old(dctx).path@,
            cache@,
        ));
    }
}

impl Element for Rectangle {
    type Body = ();

    open spec fn composed(&self) -> () {
        ()
    }

    open spec fn leaf(&self) -> bool {
        false
    }

    fn body(&self) -> (body: ()) {
        ()
    }

    fn is_leaf(&self) -> (leaf: bool) {
        false
    }
}

/// A piece of text, set in the default face at the default size.
pub struct Text(pub String);

impl Text {
    /// The view that shows `text`.
    pub fn new(text: &str) -> (view: Text)
        ensures
            view.0@ == text@,
    {
        Text(text.to_owned())
    }
}

impl Element for Text {
    type Body = ();

    open spec fn composed(&self) -> () {
        ()
    }

    open spec fn leaf(&self) -> bool {
        false
    }

    fn body(&self) -> (body: ()) {
        ()
    }

    fn is_leaf(&self) -> (leaf: bool) {
        false
    }
}

impl View for Text {
    open spec fn used(&self, fonts: FontManager, scale: ScaleFactor, available_rect: Rect) -> Rect {
        measured(
            fonts.default_face(),
            pixel_size(DEFAULT_TEXT_SIZE, scale),
            available_rect,
            self.0@,
        )
    }

    open spec fn writes(
        &self,
        fonts: FontManager,
        scale: ScaleFactor,
        path: Seq<u32>,
        available_rect: Rect,
    ) -> Seq<CacheOp> {
        seq![CacheOp::SetContent { id: path, rect: self.used(fonts, scale, available_rect) }]
    }

    open spec fn identities(&self, path: Seq<u32>) -> Seq<Seq<u32>> {
        seq![path]
    }

    open spec fn painted(
        &self,
        palette: Palette,
        fonts: FontManager,
        scale: ScaleFactor,
        path: Seq<u32>,
        cache: Map<Seq<u32>, Layout>,
    ) -> Seq<DrawCommand> {
        placed(
            fonts.default_face(),
            pixel_size(DEFAULT_TEXT_SIZE, scale),
            Some(palette.foreground),
            Translation::identity(),
            self.0@,
            lookup(cache, path).content_bounds,
        )
    }

    proof fn lemma_stays_below(
        &self,
        fonts: FontManager,
        scale: ScaleFactor,
        path: Seq<u32>,
        available_rect: Rect,
    ) {
        lemma_leads_to_self(path);
    }

    proof fn lemma_records_nodes(
        &self,
        fonts: FontManager,
        scale: ScaleFactor,
        path: Seq<u32>,
        available_rect: Rect,
        cache: Map<Seq<u32>, Layout>,
    ) {
        let own = self.writes(fonts, scale, path, available_rect)[0];
        lemma_apply_ops_single(cache, own);
    }

    fn layout(&self, lctx: &mut LayoutContext, cache: &mut IdManager, available_rect: Rect) -> (used_rect:
        Rect) {
        lctx.enter();
        let rect = lctx.font_manager.layout(
            None,
            DEFAULT_TEXT_SIZE,
            lctx.scale_factor,
            available_rect,
            self.0.as_str(),
        );
        proof {
            lemma_apply_ops_single(cache@, CacheOp::SetContent { id: lctx.path@, rect });
        }
        cache.set_layout_content_rect(lctx.id(), rect);
        rect
    }

    fn draw(&self, dctx: &mut DrawingContext, cache: &IdManager) {
        dctx.enter();
        let rect = cache.get_layout(dctx.id());
        dctx.font_manager.add(
            &mut dctx.builder,
            None,
            DEFAULT_TEXT_SIZE,
            dctx.scale_factor,
            Some(&dctx.foreground_color),
            Translation::identity(),
            self.0.as_str(),
            rect.content_bounds,
        );
    }
}

/// A view with room left around it.
pub struct Padding<E: View> {
    pub element: E,
    pub edges: Insets,
}

impl<E: View> Element for Padding<E> {
    type Body = ();

    open spec fn composed(&self) -> () {
        ()
    }

    open spec fn leaf(&self) -> bool {
        false
    }

    fn body(&self) -> (body: ()) {
        ()
    }

    fn is_leaf(&self) -> (leaf: bool) {
        false
    }
}

impl<E: View> View for Padding<E> {
    open spec fn used(&self, fonts: FontManager, scale: ScaleFactor, available_rect: Rect) -> Rect {
        let edges = self.edges.scaled(scale);
        self.element.used(fonts, scale, available_rect.shrunk(edges)).grown(edges)
    }

    open spec fn writes(
        &self,
        fonts: FontManager,
        scale: ScaleFactor,
        path: Seq<u32>,
        available_rect: Rect,
    ) -> Seq<CacheOp> {
        self.element.writes(
            fonts,
            scale,
            path,
            available_rect.shrunk(self.edges.scaled(scale)),
        ).push(CacheOp::SetPadding { id: path, rect: self.used(fonts, scale, available_rect) })
    }

    open spec fn identities(&self, path: Seq<u32>) -> Seq<Seq<u32>> {
        seq![path] + self.element.identities(path)
    }

    open spec fn painted(
        &self,
        palette: Palette,
        fonts: FontManager,
        scale: ScaleFactor,
        path: Seq<u32>,
        cache: Map<Seq<u32>, Layout>,
    ) -> Seq<DrawCommand> {
        seq![
            DrawCommand::Fill { brush: palette.background, rect: lookup(cache, path).padding_bounds },
        ] + self.element.painted(palette, fonts, scale, path, cache)
    }

    proof fn lemma_stays_below(
        &self,
        fonts: FontManager,
        scale: ScaleFactor,
        path: Seq<u32>,
        available_rect: Rect,
    ) {
        let edges = self.edges.scaled(scale);
        self.element.lemma_stays_below(fonts, scale, path, available_rect.shrunk(edges));
        lemma_wrapped_below(
            self.element.writes(fonts, scale, path, available_rect.shrunk(edges)),
            CacheOp::SetPadding { id: path, rect: self.used(fonts, scale, available_rect) },
            self.element.identities(path),
            path,
        );
    }

    proof fn lemma_records_nodes(
        &self,
        fonts: FontManager,
        scale: ScaleFactor,
        path: Seq<u32>,
        available_rect: Rect,
        cache: Map<Seq<u32>, Layout>,
    ) {
        let edges = self.edges.scaled(scale);
        self.element.lemma_records_nodes(fonts, scale, path, available_rect.shrunk(edges), cache);
        lemma_wrapped_recorded(
            cache,
            self.element.writes(fonts, scale, path, available_rect.shrunk(edges)),
            CacheOp::SetPadding { id: path, rect: self.used(fonts, scale, available_rect) },
            self.element.identities(path),
            path,
        );
    }

    fn layout(&self, lctx: &mut LayoutContext, cache: &mut IdManager, available_rect: Rect) -> (used_rect:
        Rect) {
        lctx.enter();
        let edges = self.edges.scale(&lctx.scale_factor);
        let new_rect = available_rect.shrink(&edges);
        let layout = self.element.layout(lctx, cache, new_rect);
        let used = layout.grow(&edges);
        proof {
            let inner = self.element.writes(
                *old(lctx).font_manager,
                old(lctx).scale_factor,
                old(lctx).path@,
                new_rect,
            );
            let op = CacheOp::SetPadding { id: lctx.path@, rect: used };
            lemma_apply_ops_concat(old(cache)@, inner, seq![op]);
            lemma_apply_ops_single(cache@, op);
            assert(inner + seq![op] =~= inner.push(op));
            assert(ids(old(lctx).visited@) + seq![old(lctx).path@] + self.element.identities(
                old(lctx).path@,
            ) =~= ids(old(lctx).visited@) + (seq![old(lctx).path@] + self.element.identities(
                old(lctx).path@,
            )));
        }
        cache.set_layout_padding_rect(lctx.id(), used);
        used
    }

    fn draw(&self, dctx: &mut DrawingContext, cache: &IdManager) {
        dctx.enter();
        let layout = cache.get_layout(dctx.id());
        dctx.builder.fill(&dctx.background_brush, layout.padding_bounds);
        let ghost mid = dctx.builder@;
        self.element.draw(dctx, cache);
        proof {
            let own = seq![
                DrawCommand::Fill {
                    brush: old(dctx).palette().background,
                    rect: lookup(cache@, old(dctx).path@).padding_bounds,
                },
            ];
            let inner = self.element.painted(
                old(dctx).palette(),
                *old(dctx).font_manager,
                old(dctx).scale_factor,
                old(dctx).path@,
                cache@,
            );
            assert(mid =~= old(dctx).builder@ + own);
            assert(dctx.builder@ =~= old(dctx).builder@ + (own + inner));
            assert(ids(old(dctx).visited@) + seq![old(dctx).path@] + self.element.identities(
                old(dctx).path@,
            ) =~= ids(old(dctx).visited@) + (seq![old(dctx).path@] + self.element.identities(
                old(dctx).path@,
            )));
        }
    }
}

/// Gives a view room around itself.
pub trait PaddingImpl<T: View> {
    /// The view with `edges` of room around it.
    fn padding(self, edges: Insets) -> (padded: Padding<T>);
}

impl<T: View> PaddingImpl<T> for T {
    fn padding(self, edges: Insets) -> (padded: Padding<T>)
        ensures
            padded.element == self,
            padded.edges == edges,
    {
        Padding { element: self, edges }
    }
}

/// A view with a border drawn around it.
pub struct Border<E: View> {
    pub element: E,
    pub brush: Brush,
    pub edges: Insets,
}

impl<E: View> Element for Border<E> {
    type Body = ();

    open spec fn composed(&self) -> () {
        ()
    }

    open spec fn leaf(&self) -> bool {
        false
    }

    fn body(&self) -> (body: ()) {
        ()
    }

    fn is_leaf(&self) -> (leaf: bool) {
        false
    }
}

impl<E: View> View for Border<E> {
    open spec fn used(&self, fonts: FontManager, scale: ScaleFactor, available_rect: Rect) -> Rect {
        let edges = self.edges.scaled(scale);
        self.element.used(fonts, scale, available_rect.shrunk(edges)).grown(edges)
    }

    open spec fn writes(
        &self,
        fonts: FontManager,
        scale: ScaleFactor,
        path: Seq<u32>,
        available_rect: Rect,
    ) -> Seq<CacheOp> {
        self.element.writes(
            fonts,
            scale,
            path,
            available_rect.shrunk(self.edges.scaled(scale)),
        ).push(CacheOp::SetBorder { id: path, rect: self.used(fonts, scale, available_rect) })
    }

    open spec fn identities(&self, path: Seq<u32>) -> Seq<Seq<u32>> {
        seq![path] + self.element.identities(path)
    }

    open spec fn painted(
        &self,
        palette: Palette,
        fonts: FontManager,
        scale: ScaleFactor,
        path: Seq<u32>,
        cache: Map<Seq<u32>, Layout>,
    ) -> Seq<DrawCommand> {
        seq![DrawCommand::Fill { brush: self.brush, rect: lookup(cache, path).border_bounds }]
            + self.element.painted(palette, fonts, scale, path, cache)
    }

    proof fn lemma_stays_below(
        &self,
        fonts: FontManager,
        scale: ScaleFactor,
        path: Seq<u32>,
        available_rect: Rect,
    ) {
        let edges = self.edges.scaled(scale);
        self.element.lemma_stays_below(fonts, scale, path, available_rect.shrunk(edges));
        lemma_wrapped_below(
            self.element.writes(fonts, scale, path, available_rect.shrunk(edges)),
            CacheOp::SetBorder { id: path, rect: self.used(fonts, scale, available_rect) },
            self.element.identities(path),
            path,
        );
    }

    proof fn lemma_records_nodes(
        &self,
        fonts: FontManager,
        scale: ScaleFactor,
        path: Seq<u32>,
        available_rect: Rect,
        cache: Map<Seq<u32>, Layout>,
    ) {
        let edges = self.edges.scaled(scale);
        self.element.lemma_records_nodes(fonts, scale, path, available_rect.shrunk(edges), cache);
        lemma_wrapped_recorded(
            cache,
            self.element.writes(fonts, scale, path, available_rect.shrunk(edges)),
            CacheOp::SetBorder { id: path, rect: self.used(fonts, scale, available_rect) },
            self.element.identities(path),
            path,
        );
    }

    fn layout(&self, lctx: &mut LayoutContext, cache: &mut IdManager, available_rect: Rect) -> (used_rect:
        Rect) {
        lctx.enter();
        let edges = self.edges.scale(&lctx.scale_factor);
        let new_rect = available_rect.shrink(&edges);
        let layout = self.element.layout(lctx, cache, new_rect);
        let used = layout.grow(&edges);
        proof {
            let inner = self.element.writes(
                *old(lctx).font_manager,
                old(lctx).scale_factor,
                old(lctx).path@,
                new_rect,
            );
            let op = CacheOp::SetBorder { id: lctx.path@, rect: used };
            lemma_apply_ops_concat(old(cache)@, inner, seq![op]);
            lemma_apply_ops_single(cache@, op);
            assert(inner + seq![op] =~= inner.push(op));
            assert(ids(old(lctx).visited@) + seq![old(lctx).path@] + self.element.identities(
                old(lctx).path@,
            ) =~= ids(old(lctx).visited@) + (seq![old(lctx).path@] + self.element.identities(
                old(lctx).path@,
            )));
        }
        cache.set_layout_border_rect(lctx.id(), used);
        used
    }

    fn draw(&self, dctx: &mut DrawingContext, cache: &IdManager) {
        dctx.enter();
        let layout = cache.get_layout(dctx.id());
        dctx.builder.fill(&self.brush, layout.border_bounds);
        let ghost mid = dctx.builder@;
        self.element.draw(dctx, cache);
        proof {
            let own = seq![
                DrawCommand::Fill {
                    brush: self.brush,
                    rect: lookup(cache@, old(dctx).path@).border_bounds,
                },
            ];
            let inner = self.element.painted(
                old(dctx).palette(),
                *old(dctx).font_manager,
                old(dctx).scale_factor,
                old(dctx).path@,
                cache@,
            );
            assert(mid =~= old(dctx).builder@ + own);
            assert(dctx.builder@ =~= old(dctx).builder@ + (own + inner));
            assert(ids(old(dctx).visited@) + seq![old(dctx).path@] + self.element.identities(
                old(dctx).path@,
            ) =~= ids(old(dctx).visited@) + (seq![old(dctx).path@] + self.element.identities(
                old(dctx).path@,
            )));
        }
    }
}

/// Draws a border around a view.
pub trait BorderImpl<T: View> {
    /// The view with a border of `edges` in `brush` around it.
    fn border(self, edges: Insets, brush: Brush) -> (bordered: Border<T>);
}

impl<T: View> BorderImpl<T> for T {
    fn border(self, edges: Insets, brush: Brush) -> (bordered: Border<T>)
        ensures
            bordered.element == self,
            bordered.brush == brush,
            bordered.edges == edges,
    {
        Border { element: self, brush, edges }
    }
}

/// A view whose padding is filled with a brush of its own.
pub struct Background<V: View> {
    pub view: V,
    pub brush: Brush,
}

impl<V: View> Element for Background<V> {
    type Body = ();

    open spec fn composed(&self) -> () {
        ()
    }

    open spec fn leaf(&self) -> bool {
        false
    }

    fn body(&self) -> (body: ()) {
        ()
    }

    fn is_leaf(&self) -> (leaf: bool) {
        false
    }
}

impl<V: View> View for Background<V> {
    open spec fn used(&self, fonts: FontManager, scale: ScaleFactor, available_rect: Rect) -> Rect {
        self.view.used(fonts, scale, available_rect)
    }

    open spec fn writes(
        &self,
        fonts: FontManager,
        scale: ScaleFactor,
        path: Seq<u32>,
        available_rect: Rect,
    ) -> Seq<CacheOp> {
        self.view.writes(fonts, scale, path, available_rect)
    }

    open spec fn identities(&self, path: Seq<u32>) -> Seq<Seq<u32>> {
        self.view.identities(path)
    }

    open spec fn painted(
        &self,
        palette: Palette,
        fonts: FontManager,
        scale: ScaleFactor,
        path: Seq<u32>,
        cache: Map<Seq<u32>, Layout>,
    ) -> Seq<DrawCommand> {
        self.view.painted(
            Palette { background: self.brush, fill: palette.fill, foreground: palette.foreground },
            fonts,
            scale,
            path,
            cache,
        )
    }

    proof fn lemma_stays_below(
        &self,
        fonts: FontManager,
        scale: ScaleFactor,
        path: Seq<u32>,
        available_rect: Rect,
    ) {
        self.view.lemma_stays_below(fonts, scale, path, available_rect);
    }

    proof fn lemma_records_nodes(
        &self,
        fonts: FontManager,
        scale: ScaleFactor,
        path: Seq<u32>,
        available_rect: Rect,
        cache: Map<Seq<u32>, Layout>,
    ) {
        self.view.lemma_records_nodes(fonts, scale, path, available_rect, cache);
    }

    fn layout(&self, lctx: &mut LayoutContext, cache: &mut IdManager, available_rect: Rect) -> (used_rect:
        Rect) {
        self.view.layout(lctx, cache, available_rect)
    }

    fn draw(&self, dctx: &mut DrawingContext, cache: &IdManager) {
        let inherited = dctx.background_brush.clone();
        dctx.background_brush = self.brush.clone();
        self.view.draw(dctx, cache);
        dctx.background_brush = inherited;
    }
}

/// Gives a view a background brush.
pub trait BackgroundImpl<T: View> {
    /// The view with its padding filled in `brush`.
    fn background(self, brush: Brush) -> (backed: Background<T>);
}

impl<T: View> BackgroundImpl<T> for T {
    fn background(self, brush: Brush) -> (backed: Background<T>)
        ensures
            backed.view == self,
            backed.brush == brush,
    {
        Background { view: self, brush }
    }
}

/// A view whose shapes are filled with a brush of its own.
pub struct Fill<V: View> {
    pub view: V,
    pub brush: Brush,
}

impl<V: View> Element for Fill<V> {
    type Body = ();

    open spec fn composed(&self) -> () {
        ()
    }

    open spec fn leaf(&self) -> bool {
        false
    }

    fn body(&self) -> (body: ()) {
        ()
    }

    fn is_leaf(&self) -> (leaf: bool) {
        false
    }
}

impl<V: View> View for Fill<V> {
    open spec fn used(&self, fonts: FontManager, scale: ScaleFactor, available_rect: Rect) -> Rect {
        self.view.used(fonts, scale, available_rect)
    }

    open spec fn writes(
        &self,
        fonts: FontManager,
        scale: ScaleFactor,
        path: Seq<u32>,
        available_rect: Rect,
    ) -> Seq<CacheOp> {
        self.view.writes(fonts, scale, path, available_rect)
    }

    open spec fn identities(&self, path: Seq<u32>) -> Seq<Seq<u32>> {
        self.view.identities(path)
    }

    open spec fn painted(
        &self,
        palette: Palette,
        fonts: FontManager,
        scale: ScaleFactor,
        path: Seq<u32>,
        cache: Map<Seq<u32>, Layout>,
    ) -> Seq<DrawCommand> {
        self.view.painted(
            Palette { background: palette.background, fill: self.brush, foreground: palette.foreground },
            fonts,
            scale,
            path,
            cache,
        )
    }

    proof fn lemma_stays_below(
        &self,
        fonts: FontManager,
        scale: ScaleFactor,
        path: Seq<u32>,
        available_rect: Rect,
    ) {
        self.view.lemma_stays_below(fonts, scale, path, available_rect);
    }

    proof fn lemma_records_nodes(
        &self,
        fonts: FontManager,
        scale: ScaleFactor,
        path: Seq<u32>,
        available_rect: Rect,
        cache: Map<Seq<u32>, Layout>,
    ) {
        self.view.lemma_records_nodes(fonts, scale, path, available_rect, cache);
    }

    fn layout(&self, lctx: &mut LayoutContext, cache: &mut IdManager, available_rect: Rect) -> (used_rect:
        Rect) {
        self.view.layout(lctx, cache, available_rect)
    }

    fn draw(&self, dctx: &mut DrawingContext, cache: &IdManager) {
        let inherited = dctx.fill_brush.clone();
        dctx.fill_brush = self.brush.clone();
        self.view.draw(dctx, cache);
        dctx.fill_brush = inherited;
    }
}

/// Gives a view a fill brush.
pub trait FillImpl<T: View> {
    /// The view with its shapes filled in `brush`.
    fn fill(self, brush: Brush) -> (filled: Fill<T>);
}

impl<T: View> FillImpl<T> for T {
    fn fill(self, brush: Brush) -> (filled: Fill<T>)
        ensures
            filled.view == self,
            filled.brush == brush,
    {
        Fill { view: self, brush }
    }
}

/// A node that is laid out and drawn as the view it is composed of.
pub struct Composed<E: Element>(pub E);

impl<E: Element> View for Composed<E> {
    open spec fn used(&self, fonts: FontManager, scale: ScaleFactor, available_rect: Rect) -> Rect {
        self.0.composed().used(fonts, scale, available_rect)
    }

    open spec fn writes(
        &self,
        fonts: FontManager,
        scale: ScaleFactor,
        path: Seq<u32>,
        available_rect: Rect,
    ) -> Seq<CacheOp> {
        self.0.composed().writes(fonts, scale, path, available_rect)
    }

    open spec fn identities(&self, path: Seq<u32>) -> Seq<Seq<u32>> {
        self.0.composed().identities(path)
    }

    open spec fn painted(
        &self,
        palette: Palette,
        fonts: FontManager,
        scale: ScaleFactor,
        path: Seq<u32>,
        cache: Map<Seq<u32>, Layout>,
    ) -> Seq<DrawCommand> {
        self.0.composed().painted(palette, fonts, scale, path, cache)
    }

    proof fn lemma_stays_below(
        &self,
        fonts: FontManager,
        scale: ScaleFactor,
        path: Seq<u32>,
        available_rect: Rect,
    ) {
        self.0.composed().lemma_stays_below(fonts, scale, path, available_rect);
    }

    proof fn lemma_records_nodes(
        &self,
        fonts: FontManager,
        scale: ScaleFactor,
        path: Seq<u32>,
        available_rect: Rect,
        cache: Map<Seq<u32>, Layout>,
    ) {
        self.0.composed().lemma_records_nodes(fonts, scale, path, available_rect, cache);
    }

    fn layout(&self, lctx: &mut LayoutContext, cache: &mut IdManager, available_rect: Rect) -> (used_rect:
        Rect) {
        self.0.body().layout(lctx, cache, available_rect)
    }

    fn draw(&self, dctx: &mut DrawingContext, cache: &IdManager) {
        self.0.body().draw(dctx, cache);
    }
}

/// Where `reference` lands when it is aligned inside a frame of `size` at
/// the origin of `available_rect`. On each axis the rectangle stays where
/// it is (top, leading), ends where the frame ends (bottom, trailing), or
/// starts half its extent before the middle of the frame. It is moved, not
/// resized: it ends its own extent after where it starts.
pub open spec fn aligned_in(
    alignment: Alignment,
    size: Size,
    available_rect: Rect,
    reference: Rect,
) -> Rect {
    let y = match alignment.vertical {
        VerticalALignment::Top => (reference.y0, reference.y1),
        VerticalALignment::Bottom => {
            let end = saturate(available_rect.y0 + size.height) as i64;
            (saturate(end - reference.height()) as i64, end)
        },
        VerticalALignment::Center => {
            let middle = saturate(available_rect.y0 + size.height / 2) as i64;
            let start = saturate(middle - reference.height() / 2) as i64;
            (start, saturate(start + reference.height()) as i64)
        },
    };
    let x = match alignment.horizontal {
        HorizontalAlignment::Leading => (reference.x0, reference.x1),
        HorizontalAlignment::Trailing => {
            let end = saturate(available_rect.x0 + size.width) as i64;
            (saturate(end - reference.width()) as i64, end)
        },
        HorizontalAlignment::Center => {
            let middle = saturate(available_rect.x0 + size.width / 2) as i64;
            let start = saturate(middle - reference.width() / 2) as i64;
            (start, saturate(start + reference.width()) as i64)
        },
    };
    Rect { x0: x.0, y0: y.0, x1: x.1, y1: y.1 }
}

/// Aligns `reference` inside a frame of `size` at the origin of
/// `available_rect`.
pub fn align_in(alignment: Alignment, size: Size, available_rect: Rect, reference: Rect) -> (rect:
    Rect)
    ensures
        rect == aligned_in(alignment, size, available_rect, reference),
{
    let (y0, y1) = match alignment.vertical {
        VerticalALignment::Top => (reference.y0, reference.y1),
        VerticalALignment::Bottom => {
            let end: i64 = add_units(available_rect.y0, size.height);
            (sub_units(end, reference.height()), end)
        },
        VerticalALignment::Center => {
            let middle: i64 = add_units(available_rect.y0, half_units(size.height));
            let extent: i64 = reference.height();
            let start: i64 = sub_units(middle, half_units(extent));
            (start, add_units(start, extent))
        },
    };
    let (x0, x1) = match alignment.horizontal {
        HorizontalAlignment::Leading => (reference.x0, reference.x1),
        HorizontalAlignment::Trailing => {
            let end: i64 = add_units(available_rect.x0, size.width);
            (sub_units(end, reference.width()), end)
        },
        HorizontalAlignment::Center => {
            let middle: i64 = add_units(available_rect.x0, half_units(size.width));
            let extent: i64 = reference.width();
            let start: i64 = sub_units(middle, half_units(extent));
            (start, add_units(start, extent))
        },
    };
    Rect { x0, y0, x1, y1 }
}

/// Far enough from the ends of the coordinate range that aligning adds and
/// subtracts without stopping at them.
pub open spec fn well_inside(v: i64) -> bool {
    -0x1000_0000_0000_0000 <= v <= 0x1000_0000_0000_0000
}

/// Aligning moves a rectangle and leaves its width and height as they are,
/// odd or even, as long as the frame, the space and the rectangle lie well
/// inside the coordinate range and the rectangle has no negative extent.
pub proof fn lemma_alignment_keeps_extent(
    alignment: Alignment,
    size: Size,
    available_rect: Rect,
    reference: Rect,
)
    requires
        well_inside(size.width),
        well_inside(size.height),
        well_inside(available_rect.x0),
        well_inside(available_rect.y0),
        well_inside(reference.x0),
        well_inside(reference.y0),
        well_inside(reference.x1),
        well_inside(reference.y1),
        reference.x0 <= reference.x1,
        reference.y0 <= reference.y1,
    ensures
        aligned_in(alignment, size, available_rect, reference).width() == reference.width(),
        aligned_in(alignment, size, available_rect, reference).height() == reference.height(),
{
}

/// The rectangle of a frame of `size` at the origin of `available_rect`.
pub open spec fn frame_rect(size: Size, available_rect: Rect) -> Rect {
    Rect {
        x0: available_rect.x0,
        y0: available_rect.y0,
        x1: saturate(available_rect.x0 + size.width) as i64,
        y1: saturate(available_rect.y0 + size.height) as i64,
    }
}

/// The rectangle that the child of a frame is laid out in for good: the one
/// it used of the whole available space, aligned inside the frame.
pub open spec fn frame_child_rect<V: View>(
    view: V,
    size: Size,
    alignment: Alignment,
    fonts: FontManager,
    scale: ScaleFactor,
    available_rect: Rect,
) -> Rect {
    aligned_in(alignment, size, available_rect, view.used(fonts, scale, available_rect))
}

/// The changes that laying out a frame makes: the child is laid out in the
/// whole available space, its record is dropped, it is laid out again where
/// the alignment puts it, and the frame records its own rectangle.
pub open spec fn frame_writes<V: View>(
    view: V,
    size: Size,
    alignment: Alignment,
    fonts: FontManager,
    scale: ScaleFactor,
    path: Seq<u32>,
    available_rect: Rect,
) -> Seq<CacheOp> {
    view.writes(fonts, scale, pushed(path), available_rect).push(
        CacheOp::Remove { id: pushed(path) },
    ) + view.writes(
        fonts,
        scale,
        pushed(path),
        frame_child_rect(view, size, alignment, fonts, scale, available_rect),
    ).push(CacheOp::SetContent { id: path, rect: frame_rect(size, available_rect) })
}

/// Lays out a frame of `size` around `view`.
pub fn frame_layout<V: View>(
    view: &V,
    size: Size,
    alignment: Alignment,
    lctx: &mut LayoutContext,
    cache: &mut IdManager,
    available_rect: Rect,
) -> (used_rect: Rect)
    ensures
        used_rect == frame_rect(size, available_rect),
        final(cache)@ == apply_ops(
            old(cache)@,
            frame_writes(
                *view,
                size,
                alignment,
                *old(lctx).font_manager,
                old(lctx).scale_factor,
                old(lctx).path@,
                available_rect,
            ),
        ),
        final(lctx).follows(
            *old(lctx),
            seq![old(lctx).path@] + view.identities(pushed(old(lctx).path@)),
        ),
{
    let ghost fonts = *lctx.font_manager;
    let ghost scale = lctx.scale_factor;
    let ghost path = lctx.path@;
    let ghost seen = ids(lctx.visited@);
    lctx.enter();
    lctx.path.push(0);
    let mark: usize = lctx.visited.len();
    let ghost entered = ids(lctx.visited@);
    let ghost cache0 = cache@;
    let reference = view.layout(lctx, cache, available_rect);
    proof {
        lemma_ids_prefix(lctx.visited@, mark as int);
        assert((entered + view.identities(pushed(path))).subrange(0, mark as int) =~= entered);
    }
    lctx.visited.truncate(mark);
    let ghost cache1 = cache@;
    cache.remove(lctx.id());
    let ghost cache2 = cache@;
    let target = align_in(alignment, size, available_rect, reference);
    view.layout(lctx, cache, target);
    let ghost cache3 = cache@;
    lctx.path.pop();
    let used = Rect {
        x0: available_rect.x0,
        y0: available_rect.y0,
        x1: add_units(available_rect.x0, size.width),
        y1: add_units(available_rect.y0, size.height),
    };
    cache.set_layout_content_rect(lctx.id(), used);
    proof {
        assert(lctx.path@ =~= path);
        let w1 = view.writes(fonts, scale, pushed(path), available_rect);
        let w2 = view.writes(fonts, scale, pushed(path), target);
        let drop = CacheOp::Remove { id: pushed(path) };
        let own = CacheOp::SetContent { id: path, rect: used };
        lemma_apply_ops_single(cache1, drop);
        lemma_apply_ops_concat(cache0, w1, seq![drop]);
        assert(w1 + seq![drop] =~= w1.push(drop));
        lemma_apply_ops_single(cache3, own);
        lemma_apply_ops_concat(cache2, w2, seq![own]);
        assert(w2 + seq![own] =~= w2.push(own));
        lemma_apply_ops_concat(cache0, w1.push(drop), w2.push(own));
        assert(seen + seq![path] + view.identities(pushed(path)) =~= seen + (seq![path]
            + view.identities(pushed(path))));
    }
    used
}

/// Draws the child of a frame, one level down the path.
pub fn frame_draw<V: View>(view: &V, dctx: &mut DrawingContext, cache: &IdManager)
    ensures
        final(dctx).follows(
            *old(dctx),
            seq![old(dctx).path@] + view.identities(pushed(old(dctx).path@)),
            view.painted(
                old(dctx).palette(),
                *old(dctx).font_manager,
                old(dctx).scale_factor,
                pushed(old(dctx).path@),
                cache@,
            ),
        ),
{
    let ghost path = dctx.path@;
    let ghost seen = ids(dctx.visited@);
    dctx.enter();
    dctx.path.push(0);
    view.draw(dctx, cache);
    dctx.path.pop();
    proof {
        assert(dctx.path@ =~= path);
        assert(seen + seq![path] + view.identities(pushed(path)) =~= seen + (seq![path]
            + view.identities(pushed(path))));
        let shown = view.painted(
            old(dctx).palette(),
            *old(dctx).font_manager,
            old(dctx).scale_factor,
            pushed(path),
            cache@,
        );
        assert(old(dctx).builder@ + Seq::<DrawCommand>::empty() + shown =~= old(dctx).builder@
            + shown);
    }
}

/// Laying a frame out changes records at or below its own path only.
pub proof fn lemma_frame_stays_below<V: View>(
    view: V,
    size: Size,
    alignment: Alignment,
    fonts: FontManager,
    scale: ScaleFactor,
    path: Seq<u32>,
    available_rect: Rect,
)
    ensures
        writes_below(
            frame_writes(view, size, alignment, fonts, scale, path, available_rect),
            path,
        ),
        nodes_below(seq![path] + view.identities(pushed(path)), path),
{
    let target_rect = frame_child_rect(view, size, alignment, fonts, scale, available_rect);
    let w1 = view.writes(fonts, scale, pushed(path), available_rect);
    let w2 = view.writes(fonts, scale, pushed(path), target_rect);
    let drop = CacheOp::Remove { id: pushed(path) };
    let own = CacheOp::SetContent { id: path, rect: frame_rect(size, available_rect) };
    let nodes = view.identities(pushed(path));
    view.lemma_stays_below(fonts, scale, pushed(path), available_rect);
    view.lemma_stays_below(fonts, scale, pushed(path), target_rect);
    lemma_wrapped_below(w1, drop, nodes, pushed(path));
    lemma_writes_below_child(w1.push(drop), path, 0);
    lemma_writes_below_child(w2, path, 0);
    lemma_nodes_below_child(nodes, path, 0);
    lemma_wrapped_below(w2, own, nodes, path);
    lemma_below_concat(w1.push(drop), w2.push(own), nodes, nodes, path);
}

/// Once a frame is laid out, the frame and every node entered below it has
/// a record: what the first layout of the child left is dropped, and the
/// second layout records it afresh.
pub proof fn lemma_frame_records_nodes<V: View>(
    view: V,
    size: Size,
    alignment: Alignment,
    fonts: FontManager,
    scale: ScaleFactor,
    path: Seq<u32>,
    available_rect: Rect,
    cache: Map<Seq<u32>, Layout>,
)
    ensures
        all_recorded(
            apply_ops(
                cache,
                frame_writes(view, size, alignment, fonts, scale, path, available_rect),
            ),
            seq![path] + view.identities(pushed(path)),
        ),
{
    let target_rect = frame_child_rect(view, size, alignment, fonts, scale, available_rect);
    let w1 = view.writes(fonts, scale, pushed(path), available_rect);
    let w2 = view.writes(fonts, scale, pushed(path), target_rect);
    let drop = CacheOp::Remove { id: pushed(path) };
    let own = CacheOp::SetContent { id: path, rect: frame_rect(size, available_rect) };
    let cleared = apply_ops(cache, w1.push(drop));
    lemma_apply_ops_concat(cache, w1.push(drop), w2.push(own));
    view.lemma_records_nodes(fonts, scale, pushed(path), target_rect, cleared);
    lemma_wrapped_recorded(cleared, w2, own, view.identities(pushed(path)), path);
}

/// A view inside a frame of a fixed size.
pub struct ExactFrame<V: View> {
    pub view: V,
    pub size: Size,
    pub alignment: Alignment,
}

impl<V: View> ExactFrame<V> {
    /// This frame with its child aligned as `alignment` says.
    pub fn align(self, alignment: Alignment) -> (frame: ExactFrame<V>)
        ensures
            frame.view == self.view,
            frame.size == self.size,
            frame.alignment == alignment,
    {
        ExactFrame { view: self.view, size: self.size, alignment }
    }
}

impl<V: View> Element for ExactFrame<V> {
    type Body = ();

    open spec fn composed(&self) -> () {
        ()
    }

    open spec fn leaf(&self) -> bool {
        false
    }

    fn body(&self) -> (body: ()) {
        ()
    }

    fn is_leaf(&self) -> (leaf: bool) {
        false
    }
}

impl<V: View> View for ExactFrame<V> {
    open spec fn used(&self, fonts: FontManager, scale: ScaleFactor, available_rect: Rect) -> Rect {
        frame_rect(self.size, available_rect)
    }

    open spec fn writes(
        &self,
        fonts: FontManager,
        scale: ScaleFactor,
        path: Seq<u32>,
        available_rect: Rect,
    ) -> Seq<CacheOp> {
        frame_writes(self.view, self.size, self.alignment, fonts, scale, path, available_rect)
    }

    open spec fn identities(&self, path: Seq<u32>) -> Seq<Seq<u32>> {
        seq![path] + self.view.identities(pushed(path))
    }

    open spec fn painted(
        &self,
        palette: Palette,
        fonts: FontManager,
        scale: ScaleFactor,
        path: Seq<u32>,
        cache: Map<Seq<u32>, Layout>,
    ) -> Seq<DrawCommand> {
        self.view.painted(palette, fonts, scale, pushed(path), cache)
    }

    proof fn lemma_stays_below(
        &self,
        fonts: FontManager,
        scale: ScaleFactor,
        path: Seq<u32>,
        available_rect: Rect,
    ) {
        lemma_frame_stays_below(self.view, self.size, self.alignment, fonts, scale, path, available_rect);
    }

    proof fn lemma_records_nodes(
        &self,
        fonts: FontManager,
        scale: ScaleFactor,
        path: Seq<u32>,
        available_rect: Rect,
        cache: Map<Seq<u32>, Layout>,
    ) {
        lemma_frame_records_nodes(
            self.view,
            self.size,
            self.alignment,
            fonts,
            scale,
            path,
            available_rect,
            cache,
        );
    }

    fn layout(&self, lctx: &mut LayoutContext, cache: &mut IdManager, available_rect: Rect) -> (used_rect:
        Rect) {
        frame_layout(&self.view, self.size, self.alignment, lctx, cache, available_rect)
    }

    fn draw(&self, dctx: &mut DrawingContext, cache: &IdManager) {
        frame_draw(&self.view, dctx, cache);
    }
}

/// A view inside a frame that takes the available size, kept between a
/// smallest and a largest size.
pub struct LoseFrame<V: View> {
    pub view: V,
    pub min_size: Size,
    pub max_size: Size,
    pub alignment: Alignment,
}

impl<V: View> LoseFrame<V> {
    /// This frame with its child aligned as `alignment` says.
    pub fn align(self, alignment: Alignment) -> (frame: LoseFrame<V>)
        ensures
            frame.view == self.view,
            frame.min_size == self.min_size,
            frame.max_size == self.max_size,
            frame.alignment == alignment,
    {
        LoseFrame { view: self.view, min_size: self.min_size, max_size: self.max_size, alignment }
    }

    /// The size of the frame in `available_rect`.
    pub open spec fn size_in(&self, available_rect: Rect) -> Size {
        Size { width: available_rect.width(), height: available_rect.height() }.clamped(
            self.min_size,
            self.max_size,
        )
    }
}

impl<V: View> Element for LoseFrame<V> {
    type Body = ();

    open spec fn composed(&self) -> () {
        ()
    }

    open spec fn leaf(&self) -> bool {
        false
    }

    fn body(&self) -> (body: ()) {
        ()
    }

    fn is_leaf(&self) -> (leaf: bool) {
        false
    }
}

impl<V: View> View for LoseFrame<V> {
    open spec fn used(&self, fonts: FontManager, scale: ScaleFactor, available_rect: Rect) -> Rect {
        frame_rect(self.size_in(available_rect), available_rect)
    }

    open spec fn writes(
        &self,
        fonts: FontManager,
        scale: ScaleFactor,
        path: Seq<u32>,
        available_rect: Rect,
    ) -> Seq<CacheOp> {
        frame_writes(
            self.view,
            self.size_in(available_rect),
            self.alignment,
            fonts,
            scale,
            path,
            available_rect,
        )
    }

    open spec fn identities(&self, path: Seq<u32>) -> Seq<Seq<u32>> {
        seq![path] + self.view.identities(pushed(path))
    }

    open spec fn painted(
        &self,
        palette: Palette,
        fonts: FontManager,
        scale: ScaleFactor,
        path: Seq<u32>,
        cache: Map<Seq<u32>, Layout>,
    ) -> Seq<DrawCommand> {
        self.view.painted(palette, fonts, scale, pushed(path), cache)
    }

    proof fn lemma_stays_below(
        &self,
        fonts: FontManager,
        scale: ScaleFactor,
        path: Seq<u32>,
        available_rect: Rect,
    ) {
        lemma_frame_stays_below(self.view, self.size_in(available_rect), self.alignment, fonts, scale, path, available_rect);
    }

    proof fn lemma_records_nodes(
        &self,
        fonts: FontManager,
        scale: ScaleFactor,
        path: Seq<u32>,
        available_rect: Rect,
        cache: Map<Seq<u32>, Layout>,
    ) {
        lemma_frame_records_nodes(
            self.view,
            self.size_in(available_rect),
            self.alignment,
            fonts,
            scale,
            path,
            available_rect,
            cache,
        );
    }

    fn layout(&self, lctx: &mut LayoutContext, cache: &mut IdManager, available_rect: Rect) -> (used_rect:
        Rect) {
        let size = available_rect.size().clamp(self.min_size, self.max_size);
        frame_layout(&self.view, size, self.alignment, lctx, cache, available_rect)
    }

    fn draw(&self, dctx: &mut DrawingContext, cache: &IdManager) {
        frame_draw(&self.view, dctx, cache);
    }
}

/// Puts a view in a frame.
pub trait FrameImpl<T: View> {
    /// The view in a frame of `size`, centred.
    fn frame(self, size: Size) -> (framed: ExactFrame<T>);

    /// The view in a frame that takes the available size between `min` and
    /// `max`, centred.
    fn frame_min_max(self, min: Size, max: Size) -> (framed: LoseFrame<T>);
}

impl<T: View> FrameImpl<T> for T {
    fn frame(self, size: Size) -> (framed: ExactFrame<T>)
        ensures
            framed.view == self,
            framed.size == size,
            framed.alignment == Alignment::center(),
    {
        ExactFrame { view: self, size, alignment: Alignment::default() }
    }

    fn frame_min_max(self, min: Size, max: Size) -> (framed: LoseFrame<T>)
        ensures
            framed.view == self,
            framed.min_size == min,
            framed.max_size == max,
            framed.alignment == Alignment::center(),
    {
        LoseFrame { view: self, min_size: min, max_size: max, alignment: Alignment::default() }
    }
}

} // verus!
