//! Containers that lay several children out along one axis, and what a
//! container asks of the children it holds.

use vstd::prelude::*;
use vstd::view::View as _;
use crate::defaults::DEFAULT_SPACING;
use crate::drawing::ids;
use crate::drawing::pushed;
use crate::drawing::DrawCommand;
use crate::drawing::DrawingContext;
use crate::drawing::LayoutContext;
use crate::drawing::Palette;
use crate::geometry::add_units;
use crate::geometry::saturate;
use crate::geometry::Rect;
use crate::geometry::ScaleFactor;
use crate::layout::all_recorded;
use crate::layout::apply_ops;
use crate::layout::entry;
use crate::layout::leads_to;
use crate::layout::lemma_below_concat;
use crate::layout::lemma_nodes_below_child;
use crate::layout::lemma_recording_keeps;
use crate::layout::lemma_siblings_apart;
use crate::layout::lemma_untouched;
use crate::layout::lemma_wrapped_below;
use crate::layout::lemma_wrapped_recorded;
use crate::layout::lemma_writes_below_child;
use crate::layout::nodes_below;
use crate::layout::writes_below;
use crate::layout::lemma_apply_ops_concat;
use crate::layout::lemma_apply_ops_single;
use crate::layout::CacheOp;
use crate::layout::IdManager;
use crate::layout::Layout;
use crate::simple_text::FontManager;
use crate::view::Element;
use crate::view::View;

verus! {

/// A node that owns a run of children, each reached by its index.
///
/// Every function of a child takes the child's index; it is meant for
/// indices below `count`.
pub trait ElementIterator {
    /// Number of children; it fits a path segment.
    spec fn count(&self) -> nat;

    /// The rectangle that child `index` uses of `available_rect`.
    spec fn used_at(
        &self,
        fonts: FontManager,
        scale: ScaleFactor,
        available_rect: Rect,
        index: int,
    ) -> Rect;

    /// The changes that laying out child `index` at `path` makes to the
    /// cache.
    spec fn writes_at(
        &self,
        fonts: FontManager,
        scale: ScaleFactor,
        path: Seq<u32>,
        available_rect: Rect,
        index: int,
    ) -> Seq<CacheOp>;

    /// The identities of the nodes that a pass over child `index` at `path`
    /// enters.
    spec fn identities_at(&self, path: Seq<u32>, index: int) -> Seq<Seq<u32>>;

    /// The commands that drawing child `index` at `path` appends.
    spec fn painted_at(
        &self,
        palette: Palette,
        fonts: FontManager,
        scale: ScaleFactor,
        path: Seq<u32>,
        cache: Map<Seq<u32>, Layout>,
        index: int,
    ) -> Seq<DrawCommand>;

    /// Whether child `index` delegates no further.
    spec fn leaf_at(&self, index: int) -> bool;

    /// The index of every child fits a path segment.
    proof fn lemma_count_fits(&self)
        ensures
            self.count() <= u32::MAX,
    ;

    /// Laying child `index` out changes records at or below `path` only,
    /// and a pass over it enters nodes at or below `path` only.
    proof fn lemma_stays_below_at(
        &self,
        fonts: FontManager,
        scale: ScaleFactor,
        path: Seq<u32>,
        available_rect: Rect,
        index: int,
    )
        requires
            0 <= index < self.count(),
        ensures
            writes_below(self.writes_at(fonts, scale, path, available_rect, index), path),
            nodes_below(self.identities_at(path, index), path),
    ;

    /// Once child `index` is laid out, whatever the cache held before,
    /// every node that a pass over the child enters has a record.
    proof fn lemma_records_nodes_at(
        &self,
        fonts: FontManager,
        scale: ScaleFactor,
        path: Seq<u32>,
        available_rect: Rect,
        cache: Map<Seq<u32>, Layout>,
        index: int,
    )
        requires
            0 <= index < self.count(),
        ensures
            all_recorded(
                apply_ops(cache, self.writes_at(fonts, scale, path, available_rect, index)),
                self.identities_at(path, index),
            ),
    ;

    /// Number of children.
    fn len(&self) -> (n: usize)
        ensures
            n == self.count(),
    ;

    /// Lays out child `index`; the path in `lctx` is the child's.
    fn layout_at(
        &self,
        lctx: &mut LayoutContext,
        cache: &mut IdManager,
        available_rect: Rect,
        index: usize,
    ) -> (used_rect: Rect)
        requires
            index < self.count(),
        ensures
            used_rect == self.used_at(
                *old(lctx).font_manager,
                old(lctx).scale_factor,
                available_rect,
                index as int,
            ),
            final(cache)@ == apply_ops(
                old(cache)@,
                self.writes_at(
                    *old(lctx).font_manager,
                    old(lctx).scale_factor,
                    old(lctx).path@,
                    available_rect,
                    index as int,
                ),
            ),
            final(lctx).follows(*old(lctx), self.identities_at(old(lctx).path@, index as int)),
    ;

    /// Draws child `index`; the path in `dctx` is the child's.
    fn draw_at(&self, dctx: &mut DrawingContext, cache: &IdManager, index: usize)
        requires
            index < self.count(),
        ensures
            final(dctx).follows(
                *old(dctx),
                self.identities_at(old(dctx).path@, index as int),
                self.painted_at(
                    old(dctx).palette(),
                    *old(dctx).font_manager,
                    old(dctx).scale_factor,
                    old(dctx).path@,
                    cache@,
                    index as int,
                ),
            ),
    ;

    /// Whether child `index` delegates no further.
    fn is_leaf_at(&self, index: usize) -> (leaf: bool)
        requires
            index < self.count(),
        ensures
            leaf == self.leaf_at(index as int),
    ;
}

/// A single view is a run of one child. The child sits one level further
/// down the path, and its used rectangle is recorded there as its content.
impl<V: View> ElementIterator for V {
    open spec fn count(&self) -> nat {
        1
    }

    open spec fn used_at(
        &self,
        fonts: FontManager,
        scale: ScaleFactor,
        available_rect: Rect,
        index: int,
    ) -> Rect {
        self.used(fonts, scale, available_rect)
    }

    open spec fn writes_at(
        &self,
        fonts: FontManager,
        scale: ScaleFactor,
        path: Seq<u32>,
        available_rect: Rect,
        index: int,
    ) -> Seq<CacheOp> {
        self.writes(fonts, scale, pushed(path), available_rect).push(
            CacheOp::SetContent {
                id: pushed(path),
                rect: self.used(fonts, scale, available_rect),
            },
        )
    }

    open spec fn identities_at(&self, path: Seq<u32>, index: int) -> Seq<Seq<u32>> {
        self.identities(pushed(path))
    }

    open spec fn painted_at(
        &self,
        palette: Palette,
        fonts: FontManager,
        scale: ScaleFactor,
        path: Seq<u32>,
        cache: Map<Seq<u32>, Layout>,
        index: int,
    ) -> Seq<DrawCommand> {
        self.painted(palette, fonts, scale, pushed(path), cache)
    }

    open spec fn leaf_at(&self, index: int) -> bool {
        false
    }

    proof fn lemma_count_fits(&self) {
    }

    proof fn lemma_stays_below_at(
        &self,
        fonts: FontManager,
        scale: ScaleFactor,
        path: Seq<u32>,
        available_rect: Rect,
        index: int,
    ) {
        let inner = self.writes(fonts, scale, pushed(path), available_rect);
        let own = CacheOp::SetContent {
            id: pushed(path),
            rect: self.used(fonts, scale, available_rect),
        };
        self.lemma_stays_below(fonts, scale, pushed(path), available_rect);
        lemma_wrapped_below(inner, own, self.identities(pushed(path)), pushed(path));
        lemma_writes_below_child(inner.push(own), path, 0);
        lemma_nodes_below_child(self.identities(pushed(path)), path, 0);
    }

    proof fn lemma_records_nodes_at(
        &self,
        fonts: FontManager,
        scale: ScaleFactor,
        path: Seq<u32>,
        available_rect: Rect,
        cache: Map<Seq<u32>, Layout>,
        index: int,
    ) {
        let inner = self.writes(fonts, scale, pushed(path), available_rect);
        let own = CacheOp::SetContent {
            id: pushed(path),
            rect: self.used(fonts, scale, available_rect),
        };
        self.lemma_records_nodes(fonts, scale, pushed(path), available_rect, cache);
        assert(inner.push(own).drop_last() =~= inner);
        lemma_recording_keeps(apply_ops(cache, inner), own, self.identities(pushed(path)));
    }

    fn len(&self) -> (n: usize) {
        1
    }

    fn layout_at(
        &self,
        lctx: &mut LayoutContext,
        cache: &mut IdManager,
        available_rect: Rect,
        _index: usize,
    ) -> (used_rect: Rect) {
        let ghost path = lctx.path@;
        let ghost cache0 = cache@;
        lctx.path.push(0);
        let layout = self.layout(lctx, cache, available_rect);
        proof {
            let inner = self.writes(
                *old(lctx).font_manager,
                old(lctx).scale_factor,
                pushed(path),
                available_rect,
            );
            let own = CacheOp::SetContent { id: pushed(path), rect: layout };
            lemma_apply_ops_single(cache@, own);
            lemma_apply_ops_concat(cache0, inner, seq![own]);
            assert(inner + seq![own] =~= inner.push(own));
        }
        cache.set_layout_content_rect(lctx.id(), layout);
        lctx.path.pop();
        assert(lctx.path@ =~= path);
        layout
    }

    fn draw_at(&self, dctx: &mut DrawingContext, cache: &IdManager, _index: usize) {
        let ghost path = dctx.path@;
        dctx.path.push(0);
        self.draw(dctx, cache);
        dctx.path.pop();
        assert(dctx.path@ =~= path);
    }

    fn is_leaf_at(&self, _index: usize) -> (leaf: bool) {
        false
    }
}

/// The space offered to a child of a stack: the available space from
/// `start` on along the axis of the stack.
pub open spec fn slot_rect(vertical: bool, available_rect: Rect, start: i64) -> Rect {
    if vertical {
        Rect { x0: available_rect.x0, y0: start, x1: available_rect.x1, y1: available_rect.y1 }
    } else {
        Rect { x0: start, y0: available_rect.y0, x1: available_rect.x1, y1: available_rect.y1 }
    }
}

/// Extent of `rect` along the axis of a stack.
pub open spec fn along(vertical: bool, rect: Rect) -> i64 {
    if vertical {
        rect.height()
    } else {
        rect.width()
    }
}

/// Extent of `rect` across the axis of a stack.
pub open spec fn across(vertical: bool, rect: Rect) -> i64 {
    if vertical {
        rect.width()
    } else {
        rect.height()
    }
}

/// Where the slot of child `i` starts along the axis: the slot of the first
/// child starts where the available space starts, and every other slot
/// where the child before it ended, one `gap` further on.
pub open spec fn stack_start<E: ElementIterator>(
    element: E,
    vertical: bool,
    gap: i64,
    fonts: FontManager,
    scale: ScaleFactor,
    available_rect: Rect,
    i: int,
) -> i64
    decreases i,
{
    if i <= 0 {
        if vertical {
            available_rect.y0
        } else {
            available_rect.x0
        }
    } else {
        let start = stack_start(element, vertical, gap, fonts, scale, available_rect, i - 1);
        let child = element.used_at(fonts, scale, slot_rect(vertical, available_rect, start), i - 1);
        let end = saturate(start + along(vertical, child)) as i64;
        if i != element.count() {
            saturate(end + gap) as i64
        } else {
            end
        }
    }
}

/// The rectangle that child `i` of a stack uses.
pub open spec fn stack_child<E: ElementIterator>(
    element: E,
    vertical: bool,
    gap: i64,
    fonts: FontManager,
    scale: ScaleFactor,
    available_rect: Rect,
    i: int,
) -> Rect {
    element.used_at(
        fonts,
        scale,
        slot_rect(
            vertical,
            available_rect,
            stack_start(element, vertical, gap, fonts, scale, available_rect, i),
        ),
        i,
    )
}

/// The largest extent across the axis among the first `i` children, or zero.
pub open spec fn stack_reach<E: ElementIterator>(
    element: E,
    vertical: bool,
    gap: i64,
    fonts: FontManager,
    scale: ScaleFactor,
    available_rect: Rect,
    i: int,
) -> i64
    decreases i,
{
    if i <= 0 {
        0
    } else {
        let before = stack_reach(element, vertical, gap, fonts, scale, available_rect, i - 1);
        let child = stack_child(element, vertical, gap, fonts, scale, available_rect, i - 1);
        if across(vertical, child) > before {
            across(vertical, child)
        } else {
            before
        }
    }
}

/// The rectangle that a stack uses: from the origin of the available space
/// to the end of its last child along the axis, and to its widest child
/// across it.
pub open spec fn stack_rect<E: ElementIterator>(
    element: E,
    vertical: bool,
    gap: i64,
    fonts: FontManager,
    scale: ScaleFactor,
    available_rect: Rect,
) -> Rect {
    let n = element.count() as int;
    let end = stack_start(element, vertical, gap, fonts, scale, available_rect, n);
    let reach = stack_reach(element, vertical, gap, fonts, scale, available_rect, n);
    if vertical {
        Rect {
            x0: available_rect.x0,
            y0: available_rect.y0,
            x1: saturate(available_rect.x0 + reach) as i64,
            y1: end,
        }
    } else {
        Rect {
            x0: available_rect.x0,
            y0: available_rect.y0,
            x1: end,
            y1: saturate(available_rect.y0 + reach) as i64,
        }
    }
}

/// The path of child `i` of the node at `path`.
pub open spec fn child_path(path: Seq<u32>, i: int) -> Seq<u32> {
    path.push(i as u32)
}

/// The changes that laying out the first `i` children of a stack makes.
pub open spec fn stack_child_writes<E: ElementIterator>(
    element: E,
    vertical: bool,
    gap: i64,
    fonts: FontManager,
    scale: ScaleFactor,
    path: Seq<u32>,
    available_rect: Rect,
    i: int,
) -> Seq<CacheOp>
    decreases i,
{
    if i <= 0 {
        Seq::empty()
    } else {
        stack_child_writes(element, vertical, gap, fonts, scale, path, available_rect, i - 1)
            + element.writes_at(
            fonts,
            scale,
            child_path(path, i - 1),
            slot_rect(
                vertical,
                available_rect,
                stack_start(element, vertical, gap, fonts, scale, available_rect, i - 1),
            ),
            i - 1,
        )
    }
}

/// The changes that laying out a stack makes: those of its children, first
/// to last, and then the record of its own rectangle as its content.
pub open spec fn stack_writes<E: ElementIterator>(
    element: E,
    vertical: bool,
    gap: i64,
    fonts: FontManager,
    scale: ScaleFactor,
    path: Seq<u32>,
    available_rect: Rect,
) -> Seq<CacheOp> {
    stack_child_writes(
        element,
        vertical,
        gap,
        fonts,
        scale,
        path,
        available_rect,
        element.count() as int,
    ).push(
        CacheOp::SetContent {
            id: path,
            rect: stack_rect(element, vertical, gap, fonts, scale, available_rect),
        },
    )
}

/// The identities entered under the first `i` children of the node at
/// `path`.
pub open spec fn stack_child_identities<E: ElementIterator>(
    element: E,
    path: Seq<u32>,
    i: int,
) -> Seq<Seq<u32>>
    decreases i,
{
    if i <= 0 {
        Seq::empty()
    } else {
        stack_child_identities(element, path, i - 1) + element.identities_at(
            child_path(path, i - 1),
            i - 1,
        )
    }
}

/// The identities that a pass over a stack enters: its own, then those
/// under each child in turn.
pub open spec fn stack_identities<E: ElementIterator>(element: E, path: Seq<u32>) -> Seq<Seq<u32>> {
    seq![path] + stack_child_identities(element, path, element.count() as int)
}

/// The commands that drawing the first `i` children of a stack appends.
pub open spec fn stack_child_painted<E: ElementIterator>(
    element: E,
    palette: Palette,
    fonts: FontManager,
    scale: ScaleFactor,
    path: Seq<u32>,
    cache: Map<Seq<u32>, Layout>,
    i: int,
) -> Seq<DrawCommand>
    decreases i,
{
    if i <= 0 {
        Seq::empty()
    } else {
        stack_child_painted(element, palette, fonts, scale, path, cache, i - 1)
            + element.painted_at(palette, fonts, scale, child_path(path, i - 1), cache, i - 1)
    }
}

/// Whether `id` is the identity of a node at or below one of the first `i`
/// children of the node at `path`.
pub open spec fn under_child(path: Seq<u32>, id: Seq<u32>, i: int) -> bool {
    exists|c: int| 0 <= c < i && #[trigger] leads_to(child_path(path, c), id)
}

/// What holds of the first `i` children of a stack: laying them out
/// changes records below the stack only, each node entered lies below one
/// of them, and once they are laid out each node entered has a record. A
/// child cannot undo what an earlier child recorded, since nothing lies
/// below two children.
pub proof fn lemma_stack_children<E: ElementIterator>(
    element: E,
    vertical: bool,
    gap: i64,
    fonts: FontManager,
    scale: ScaleFactor,
    path: Seq<u32>,
    available_rect: Rect,
    cache: Map<Seq<u32>, Layout>,
    i: int,
)
    requires
        0 <= i <= element.count(),
    ensures
        writes_below(
            stack_child_writes(element, vertical, gap, fonts, scale, path, available_rect, i),
            path,
        ),
        nodes_below(stack_child_identities(element, path, i), path),
        forall|k: int|
            0 <= k < stack_child_identities(element, path, i).len() ==> under_child(
                path,
                #[trigger] stack_child_identities(element, path, i)[k],
                i,
            ),
        all_recorded(
            apply_ops(
                cache,
                stack_child_writes(element, vertical, gap, fonts, scale, path, available_rect, i),
            ),
            stack_child_identities(element, path, i),
        ),
    decreases i,
{
    if i > 0 {
        element.lemma_count_fits();
        lemma_stack_children(element, vertical, gap, fonts, scale, path, available_rect, cache, i - 1);
        let here = child_path(path, i - 1);
        let slot = slot_rect(
            vertical,
            available_rect,
            stack_start(element, vertical, gap, fonts, scale, available_rect, i - 1),
        );
        let done = stack_child_writes(
            element,
            vertical,
            gap,
            fonts,
            scale,
            path,
            available_rect,
            i - 1,
        );
        let more = element.writes_at(fonts, scale, here, slot, i - 1);
        let seen = stack_child_identities(element, path, i - 1);
        let new = element.identities_at(here, i - 1);
        let before = apply_ops(cache, done);
        let after = apply_ops(cache, done + more);
        element.lemma_stays_below_at(fonts, scale, here, slot, i - 1);
        element.lemma_records_nodes_at(fonts, scale, here, slot, before, i - 1);
        lemma_apply_ops_concat(cache, done, more);
        lemma_writes_below_child(more, path, (i - 1) as u32);
        lemma_nodes_below_child(new, path, (i - 1) as u32);
        lemma_below_concat(done, more, seen, new, path);
        assert forall|k: int| 0 <= k < (seen + new).len() implies under_child(
            path,
            #[trigger] (seen + new)[k],
            i,
        ) && after.dom().contains((seen + new)[k]) by {
            let id = (seen + new)[k];
            if k < seen.len() {
                assert(id == seen[k]);
                assert(under_child(path, seen[k], i - 1));
                let c = choose|c: int| 0 <= c < i - 1 && #[trigger] leads_to(child_path(path, c), id);
                assert(leads_to(child_path(path, c), id));
                if leads_to(here, id) {
                    lemma_siblings_apart(path, c as u32, (i - 1) as u32, id);
                }
                lemma_untouched(before, more, here, id);
                assert(before.dom().contains(seen[k]));
                assert(entry(after, id) == entry(before, id));
            } else {
                assert(id == new[k - seen.len()]);
                assert(leads_to(child_path(path, i - 1), id));
            }
        }
    }
}

/// Laying a stack out changes records at or below its own path only, and a
/// pass over it enters nodes at or below its own path only.
pub proof fn lemma_stack_stays_below<E: ElementIterator>(
    element: E,
    vertical: bool,
    gap: i64,
    fonts: FontManager,
    scale: ScaleFactor,
    path: Seq<u32>,
    available_rect: Rect,
)
    ensures
        writes_below(
            stack_writes(element, vertical, gap, fonts, scale, path, available_rect),
            path,
        ),
        nodes_below(stack_identities(element, path), path),
{
    let n = element.count() as int;
    lemma_stack_children(
        element,
        vertical,
        gap,
        fonts,
        scale,
        path,
        available_rect,
        Map::empty(),
        n,
    );
    lemma_wrapped_below(
        stack_child_writes(element, vertical, gap, fonts, scale, path, available_rect, n),
        CacheOp::SetContent {
            id: path,
            rect: stack_rect(element, vertical, gap, fonts, scale, available_rect),
        },
        stack_child_identities(element, path, n),
        path,
    );
}

/// Once a stack is laid out, the stack and every node entered below it has
/// a record.
pub proof fn lemma_stack_records_nodes<E: ElementIterator>(
    element: E,
    vertical: bool,
    gap: i64,
    fonts: FontManager,
    scale: ScaleFactor,
    path: Seq<u32>,
    available_rect: Rect,
    cache: Map<Seq<u32>, Layout>,
)
    ensures
        all_recorded(
            apply_ops(
                cache,
                stack_writes(element, vertical, gap, fonts, scale, path, available_rect),
            ),
            stack_identities(element, path),
        ),
{
    let n = element.count() as int;
    lemma_stack_children(element, vertical, gap, fonts, scale, path, available_rect, cache, n);
    lemma_wrapped_recorded(
        cache,
        stack_child_writes(element, vertical, gap, fonts, scale, path, available_rect, n),
        CacheOp::SetContent {
            id: path,
            rect: stack_rect(element, vertical, gap, fonts, scale, available_rect),
        },
        stack_child_identities(element, path, n),
        path,
    );
}

/// Lays the children of a stack out one after the other along its axis,
/// `spacing` scaled apart, and records the rectangle of the stack.
pub fn stack_layout<E: ElementIterator>(
    element: &E,
    spacing: i64,
    vertical: bool,
    lctx: &mut LayoutContext,
    cache: &mut IdManager,
    available_rect: Rect,
) -> (used_rect: Rect)
    ensures
        used_rect == stack_rect(
            *element,
            vertical,
            old(lctx).scale_factor.scaled(spacing as int) as i64,
            *old(lctx).font_manager,
            old(lctx).scale_factor,
            available_rect,
        ),
        final(cache)@ == apply_ops(
            old(cache)@,
            stack_writes(
                *element,
                vertical,
                old(lctx).scale_factor.scaled(spacing as int) as i64,
                *old(lctx).font_manager,
                old(lctx).scale_factor,
                old(lctx).path@,
                available_rect,
            ),
        ),
        final(lctx).follows(*old(lctx), stack_identities(*element, old(lctx).path@)),
{
    let ghost fonts = *lctx.font_manager;
    let ghost scale = lctx.scale_factor;
    let ghost path = lctx.path@;
    let ghost seen = ids(lctx.visited@);
    let ghost cache0 = cache@;
    lctx.enter();
    let n: usize = element.len();
    proof {
        element.lemma_count_fits();
    }
    let gap: i64 = lctx.scale_factor.apply(spacing);
    let mut start: i64 = if vertical {
        available_rect.y0
    } else {
        available_rect.x0
    };
    let mut reach: i64 = 0;
    lctx.path.push(0);
    let mut i: usize = 0;
    while i < n
        invariant
            i <= n,
            n == element.count(),
            n <= u32::MAX,
            gap == scale.scaled(spacing as int),
            lctx.font_manager == old(lctx).font_manager,
            *lctx.font_manager == fonts,
            lctx.scale_factor == scale,
            lctx.path@.len() == path.len() + 1,
            lctx.path@.drop_last() == path,
            ids(lctx.visited@) == seen + seq![path] + stack_child_identities(
                *element,
                path,
                i as int,
            ),
            cache@ == apply_ops(
                cache0,
                stack_child_writes(
                    *element,
                    vertical,
                    gap,
                    fonts,
                    scale,
                    path,
                    available_rect,
                    i as int,
                ),
            ),
            start == stack_start(*element, vertical, gap, fonts, scale, available_rect, i as int),
            reach == stack_reach(*element, vertical, gap, fonts, scale, available_rect, i as int),
        decreases n - i,
    {
        let last: usize = lctx.path.len() - 1;
        lctx.path.set(last, i as u32);
        assert(lctx.path@ =~= child_path(path, i as int));
        let slot = if vertical {
            Rect { x0: available_rect.x0, y0: start, x1: available_rect.x1, y1: available_rect.y1 }
        } else {
            Rect { x0: start, y0: available_rect.y0, x1: available_rect.x1, y1: available_rect.y1 }
        };
        let ghost before = cache@;
        let ghost entered = ids(lctx.visited@);
        let layout = element.layout_at(lctx, cache, slot, i);
        proof {
            let done = stack_child_writes(
                *element,
                vertical,
                gap,
                fonts,
                scale,
                path,
                available_rect,
                i as int,
            );
            let more = element.writes_at(fonts, scale, child_path(path, i as int), slot, i as int);
            lemma_apply_ops_concat(cache0, done, more);
            assert(entered + element.identities_at(child_path(path, i as int), i as int) =~= seen
                + seq![path] + (stack_child_identities(*element, path, i as int)
                + element.identities_at(child_path(path, i as int), i as int)));
            assert(lctx.path@.drop_last() =~= path);
        }
        let (extent, breadth) = if vertical {
            (layout.height(), layout.width())
        } else {
            (layout.width(), layout.height())
        };
        start = add_units(start, extent);
        if i != n - 1 {
            start = add_units(start, gap);
        }
        if breadth > reach {
            reach = breadth;
        }
        i += 1;
    }
    lctx.path.pop();
    let used = if vertical {
        Rect {
            x0: available_rect.x0,
            y0: available_rect.y0,
            x1: add_units(available_rect.x0, reach),
            y1: start,
        }
    } else {
        Rect {
            x0: available_rect.x0,
            y0: available_rect.y0,
            x1: start,
            y1: add_units(available_rect.y0, reach),
        }
    };
    proof {
        assert(lctx.path@ =~= path);
        let children = stack_child_writes(
            *element,
            vertical,
            gap,
            fonts,
            scale,
            path,
            available_rect,
            n as int,
        );
        let own = CacheOp::SetContent { id: path, rect: used };
        lemma_apply_ops_single(cache@, own);
        lemma_apply_ops_concat(cache0, children, seq![own]);
        assert(children + seq![own] =~= children.push(own));
        assert(seen + seq![path] + stack_child_identities(*element, path, n as int) =~= seen
            + stack_identities(*element, path));
    }
    cache.set_layout_content_rect(lctx.id(), used);
    used
}

/// Draws the children of a stack in the order in which they were laid out.
pub fn stack_draw<E: ElementIterator>(element: &E, dctx: &mut DrawingContext, cache: &IdManager)
    ensures
        final(dctx).follows(
            *old(dctx),
            stack_identities(*element, old(dctx).path@),
            stack_child_painted(
                *element,
                old(dctx).palette(),
                *old(dctx).font_manager,
                old(dctx).scale_factor,
                old(dctx).path@,
                cache@,
                element.count() as int,
            ),
        ),
{
    let ghost palette = dctx.palette();
    let ghost fonts = *dctx.font_manager;
    let ghost scale = dctx.scale_factor;
    let ghost path = dctx.path@;
    let ghost seen = ids(dctx.visited@);
    let ghost scene = dctx.builder@;
    dctx.enter();
    let n: usize = element.len();
    proof {
        element.lemma_count_fits();
    }
    dctx.path.push(0);
    let mut i: usize = 0;
    assert(dctx.builder@ =~= scene + Seq::<DrawCommand>::empty());
    while i < n
        invariant
            i <= n,
            n == element.count(),
            n <= u32::MAX,
            dctx.font_manager == old(dctx).font_manager,
            *dctx.font_manager == fonts,
            dctx.scale_factor == scale,
            dctx.palette() == palette,
            dctx.background_brush == old(dctx).background_brush,
            dctx.fill_brush == old(dctx).fill_brush,
            dctx.foreground_color == old(dctx).foreground_color,
            dctx.bounding == old(dctx).bounding,
            dctx.first == old(dctx).first,
            dctx.path@.len() == path.len() + 1,
            dctx.path@.drop_last() == path,
            ids(dctx.visited@) == seen + seq![path] + stack_child_identities(
                *element,
                path,
                i as int,
            ),
            dctx.builder@ == scene + stack_child_painted(
                *element,
                palette,
                fonts,
                scale,
                path,
                cache@,
                i as int,
            ),
        decreases n - i,
    {
        let last: usize = dctx.path.len() - 1;
        dctx.path.set(last, i as u32);
        assert(dctx.path@ =~= child_path(path, i as int));
        let ghost entered = ids(dctx.visited@);
        let ghost shown = dctx.builder@;
        element.draw_at(dctx, cache, i);
        proof {
            assert(entered + element.identities_at(child_path(path, i as int), i as int) =~= seen
                + seq![path] + (stack_child_identities(*element, path, i as int)
                + element.identities_at(child_path(path, i as int), i as int)));
            let more = element.painted_at(
                palette,
                fonts,
                scale,
                child_path(path, i as int),
                cache@,
                i as int,
            );
            assert(shown + more =~= scene + (stack_child_painted(
                *element,
                palette,
                fonts,
                scale,
                path,
                cache@,
                i as int,
            ) + more));
            assert(dctx.path@.drop_last() =~= path);
        }
        i += 1;
    }
    dctx.path.pop();
    proof {
        assert(dctx.path@ =~= path);
        assert(seen + seq![path] + stack_child_identities(*element, path, n as int) =~= seen
            + stack_identities(*element, path));
    }
}

/// Children one below the other.
pub struct VStack<E: ElementIterator> {
    pub spacing: i64,
    pub element: E,
}

impl<E: ElementIterator> VStack<E> {
    /// A stack of the children of `element`, the default spacing apart.
    pub fn new(element: E) -> (stack: VStack<E>)
        ensures
            stack.spacing == DEFAULT_SPACING,
            stack.element == element,
    {
        VStack { spacing: DEFAULT_SPACING, element }
    }

    /// This stack with its children `spacing` apart.
    pub fn spacing(self, spacing: i64) -> (stack: VStack<E>)
        ensures
            stack.spacing == spacing,
            stack.element == self.element,
    {
        VStack { spacing, element: self.element }
    }
}

impl<E: ElementIterator> Element for VStack<E> {
    type Body = ();

    open spec fn composed(&self) -> () {
        ()
    }

    open spec fn leaf(&self) -> bool {
        false
    }

    fn body(&self) -> (body: ()) {
        ()
    }

    fn is_leaf(&self) -> (leaf: bool) {
        false
    }
}

impl<E: ElementIterator> View for VStack<E> {
    open spec fn used(&self, fonts: FontManager, scale: ScaleFactor, available_rect: Rect) -> Rect {
        stack_rect(
            self.element,
            true,
            scale.scaled(self.spacing as int) as i64,
            fonts,
            scale,
            available_rect,
        )
    }

    open spec fn writes(
        &self,
        fonts: FontManager,
        scale: ScaleFactor,
        path: Seq<u32>,
        available_rect: Rect,
    ) -> Seq<CacheOp> {
        stack_writes(
            self.element,
            true,
            scale.scaled(self.spacing as int) as i64,
            fonts,
            scale,
            path,
            available_rect,
        )
    }

    open spec fn identities(&self, path: Seq<u32>) -> Seq<Seq<u32>> {
        stack_identities(self.element, path)
    }

    open spec fn painted(
        &self,
        palette: Palette,
        fonts: FontManager,
        scale: ScaleFactor,
        path: Seq<u32>,
        cache: Map<Seq<u32>, Layout>,
    ) -> Seq<DrawCommand> {
        stack_child_painted(
            self.element,
            palette,
            fonts,
            scale,
            path,
            cache,
            self.element.count() as int,
        )
    }

    proof fn lemma_stays_below(
        &self,
        fonts: FontManager,
        scale: ScaleFactor,
        path: Seq<u32>,
        available_rect: Rect,
    ) {
        lemma_stack_stays_below(
            self.element,
            true,
            scale.scaled(self.spacing as int) as i64,
            fonts,
            scale,
            path,
            available_rect,
        );
    }

    proof fn lemma_records_nodes(
        &self,
        fonts: FontManager,
        scale: ScaleFactor,
        path: Seq<u32>,
        available_rect: Rect,
        cache: Map<Seq<u32>, Layout>,
    ) {
        lemma_stack_records_nodes(
            self.element,
            true,
            scale.scaled(self.spacing as int) as i64,
            fonts,
            scale,
            path,
            available_rect,
            cache,
        );
    }

    fn layout(&self, lctx: &mut LayoutContext, cache: &mut IdManager, available_rect: Rect) -> (used_rect:
        Rect) {
        stack_layout(&self.element, self.spacing, true, lctx, cache, available_rect)
    }

    fn draw(&self, dctx: &mut DrawingContext, cache: &IdManager) {
        stack_draw(&self.element, dctx, cache);
    }
}

/// Children one beside the other.
pub struct HStack<E: ElementIterator> {
    pub spacing: i64,
    pub element: E,
}

impl<E: ElementIterator> HStack<E> {
    /// A stack of the children of `element`, the default spacing apart.
    pub fn new(element: E) -> (stack: HStack<E>)
        ensures
            stack.spacing == DEFAULT_SPACING,
            stack.element == element,
    {
        HStack { spacing: DEFAULT_SPACING, element }
    }

    /// This stack with its children `spacing` apart.
    pub fn spacing(self, spacing: i64) -> (stack: HStack<E>)
        ensures
            stack.spacing == spacing,
            stack.element == self.element,
    {
        HStack { spacing, element: self.element }
    }
}

impl<E: ElementIterator> Element for HStack<E> {
    type Body = ();

    open spec fn composed(&self) -> () {
        ()
    }

    open spec fn leaf(&self) -> bool {
        false
    }

    fn body(&self) -> (body: ()) {
        ()
    }

    fn is_leaf(&self) -> (leaf: bool) {
        false
    }
}

impl<E: ElementIterator> View for HStack<E> {
    open spec fn used(&self, fonts: FontManager, scale: ScaleFactor, available_rect: Rect) -> Rect {
        stack_rect(
            self.element,
            false,
            scale.scaled(self.spacing as int) as i64,
            fonts,
            scale,
            available_rect,
        )
    }

    open spec fn writes(
        &self,
        fonts: FontManager,
        scale: ScaleFactor,
        path: Seq<u32>,
        available_rect: Rect,
    ) -> Seq<CacheOp> {
        stack_writes(
            self.element,
            false,
            scale.scaled(self.spacing as int) as i64,
            fonts,
            scale,
            path,
            available_rect,
        )
    }

    open spec fn identities(&self, path: Seq<u32>) -> Seq<Seq<u32>> {
        stack_identities(self.element, path)
    }

    open spec fn painted(
        &self,
        palette: Palette,
        fonts: FontManager,
        scale: ScaleFactor,
        path: Seq<u32>,
        cache: Map<Seq<u32>, Layout>,
    ) -> Seq<DrawCommand> {
        stack_child_painted(
            self.element,
            palette,
            fonts,
            scale,
            path,
            cache,
            self.element.count() as int,
        )
    }

    proof fn lemma_stays_below(
        &self,
        fonts: FontManager,
        scale: ScaleFactor,
        path: Seq<u32>,
        available_rect: Rect,
    ) {
        lemma_stack_stays_below(
            self.element,
            false,
            scale.scaled(self.spacing as int) as i64,
            fonts,
            scale,
            path,
            available_rect,
        );
    }

    proof fn lemma_records_nodes(
        &self,
        fonts: FontManager,
        scale: ScaleFactor,
        path: Seq<u32>,
        available_rect: Rect,
        cache: Map<Seq<u32>, Layout>,
    ) {
        lemma_stack_records_nodes(
            self.element,
            false,
            scale.scaled(self.spacing as int) as i64,
            fonts,
            scale,
            path,
            available_rect,
            cache,
        );
    }

    fn layout(&self, lctx: &mut LayoutContext, cache: &mut IdManager, available_rect: Rect) -> (used_rect:
        Rect) {
        stack_layout(&self.element, self.spacing, false, lctx, cache, available_rect)
    }

    fn draw(&self, dctx: &mut DrawingContext, cache: &IdManager) {
        stack_draw(&self.element, dctx, cache);
    }
}

} // verus!
