//! Runs of children of different types, one adapter for each number of
//! children from two to fourteen.

use vstd::prelude::*;
use vstd::std_specs::convert::FromSpecImpl;
use crate::defaults::DEFAULT_SPACING;
use crate::drawing::DrawCommand;
use crate::drawing::DrawingContext;
use crate::drawing::LayoutContext;
use crate::drawing::Palette;
use crate::geometry::Rect;
use crate::geometry::ScaleFactor;
use crate::layout::CacheOp;
use crate::layout::IdManager;
use crate::layout::Layout;
use crate::simple_text::FontManager;
use crate::stack::ElementIterator;
use crate::stack::HStack;
use crate::stack::VStack;
use crate::view::Element;
use crate::view::View;

verus! {

/// Two children, each of a type of its own.
pub struct Multi2<E0: Element + View, E1: Element + View>(pub E0, pub E1);

impl<E0: Element + View, E1: Element + View> ElementIterator for Multi2<E0, E1> {
    open spec fn count(&self) -> nat {
        2
    }

    open spec fn used_at(
        &self,
        fonts: FontManager,
        scale: ScaleFactor,
        available_rect: Rect,
        index: int,
    ) -> Rect {
        if index == 0 {
            self.0.used(fonts, scale, available_rect)
        } else if index == 1 {
            self.1.used(fonts, scale, available_rect)
        } else {
            Rect::zero()
        }
    }

    open spec fn writes_at(
        &self,
        fonts: FontManager,
        scale: ScaleFactor,
        path: Seq<u32>,
        available_rect: Rect,
        index: int,
    ) -> Seq<CacheOp> {
        if index == 0 {
            self.0.writes(fonts, scale, path, available_rect)
        } else if index == 1 {
            self.1.writes(fonts, scale, path, available_rect)
        } else {
            Seq::empty()
        }
    }

    open spec fn identities_at(&self, path: Seq<u32>, index: int) -> Seq<Seq<u32>> {
        if index == 0 {
            self.0.identities(path)
        } else if index == 1 {
            self.1.identities(path)
        } else {
            Seq::empty()
        }
    }

    open spec fn painted_at(
        &self,
        palette: Palette,
        fonts: FontManager,
        scale: ScaleFactor,
        path: Seq<u32>,
        cache: Map<Seq<u32>, Layout>,
        index: int,
    ) -> Seq<DrawCommand> {
        if index == 0 {
            self.0.painted(palette, fonts, scale, path, cache)
        } else if index == 1 {
            self.1.painted(palette, fonts, scale, path, cache)
        } else {
            Seq::empty()
        }
    }

    open spec fn leaf_at(&self, index: int) -> bool {
        if index == 0 {
            self.0.leaf()
        } else if index == 1 {
            self.1.leaf()
        } else {
            false
        }
    }

    proof fn lemma_count_fits(&self) {
    }

    proof fn lemma_stays_below_at(
        &self,
        fonts: FontManager,
        scale: ScaleFactor,
        path: Seq<u32>,
        available_rect: Rect,
        index: int,
    ) {
        if index == 0 {
            self.0.lemma_stays_below(fonts, scale, path, available_rect);
        } else {
            self.1.lemma_stays_below(fonts, scale, path, available_rect);
        }
    }

    proof fn lemma_records_nodes_at(
        &self,
        fonts: FontManager,
        scale: ScaleFactor,
        path: Seq<u32>,
        available_rect: Rect,
        cache: Map<Seq<u32>, Layout>,
        index: int,
    ) {
        if index == 0 {
            self.0.lemma_records_nodes(fonts, scale, path, available_rect, cache);
        } else {
            self.1.lemma_records_nodes(fonts, scale, path, available_rect, cache);
        }
    }

    fn len(&self) -> (n: usize) {
        2
    }

    fn layout_at(
        &self,
        lctx: &mut LayoutContext,
        cache: &mut IdManager,
        available_rect: Rect,
        index: usize,
    ) -> (used_rect: Rect) {
        if index == 0 {
            self.0.layout(lctx, cache, available_rect)
        } else {
            self.1.layout(lctx, cache, available_rect)
        }
    }

    fn draw_at(&self, dctx: &mut DrawingContext, cache: &IdManager, index: usize) {
        if index == 0 {
            self.0.draw(dctx, cache);
        } else {
            self.1.draw(dctx, cache);
        }
    }

    fn is_leaf_at(&self, index: usize) -> (leaf: bool) {
        if index == 0 {
            self.0.is_leaf()
        } else {
            self.1.is_leaf()
        }
    }
}

impl<E0: Element + View, E1: Element + View> From<(E0, E1)> for Multi2<E0, E1> {
    fn from(value: (E0, E1)) -> (children: Multi2<E0, E1>) {
        Multi2(value.0, value.1)
    }
}

impl<E0: Element + View, E1: Element + View> FromSpecImpl<(E0, E1)> for Multi2<E0, E1> {
    open spec fn obeys_from_spec() -> bool {
        true
    }

    open spec fn from_spec(value: (E0, E1)) -> Multi2<E0, E1> {
        Multi2(value.0, value.1)
    }
}

impl<E0: Element + View, E1: Element + View> From<(E0, E1)> for VStack<Multi2<E0, E1>> {
    fn from(value: (E0, E1)) -> (stack: VStack<Multi2<E0, E1>>) {
        VStack { spacing: DEFAULT_SPACING, element: Multi2(value.0, value.1) }
    }
}

impl<E0: Element + View, E1: Element + View> FromSpecImpl<(E0, E1)> for VStack<Multi2<E0, E1>> {
    open spec fn obeys_from_spec() -> bool {
        true
    }

    open spec fn from_spec(value: (E0, E1)) -> VStack<Multi2<E0, E1>> {
        VStack { spacing: DEFAULT_SPACING, element: Multi2(value.0, value.1) }
    }
}

impl<E0: Element + View, E1: Element + View> From<(E0, E1)> for HStack<Multi2<E0, E1>> {
    fn from(value: (E0, E1)) -> (stack: HStack<Multi2<E0, E1>>) {
        HStack { spacing: DEFAULT_SPACING, element: Multi2(value.0, value.1) }
    }
}

impl<E0: Element + View, E1: Element + View> FromSpecImpl<(E0, E1)> for HStack<Multi2<E0, E1>> {
    open spec fn obeys_from_spec() -> bool {
        true
    }

    open spec fn from_spec(value: (E0, E1)) -> HStack<Multi2<E0, E1>> {
        HStack { spacing: DEFAULT_SPACING, element: Multi2(value.0, value.1) }
    }
}

/// Three children, each of a type of its own.
pub struct Multi3<E0: Element + View, E1: Element + View, E2: Element + View>(pub E0, pub E1, pub E2);

impl<E0: Element + View, E1: Element + View, E2: Element + View> ElementIterator for Multi3<E0, E1, E2> {
    open spec fn count(&self) -> nat {
        3
    }

    open spec fn used_at(
        &self,
        fonts: FontManager,
        scale: ScaleFactor,
        available_rect: Rect,
        index: int,
    ) -> Rect {
        if index == 0 {
            self.0.used(fonts, scale, available_rect)
        } else if index == 1 {
            self.1.used(fonts, scale, available_rect)
        } else if index == 2 {
            self.2.used(fonts, scale, available_rect)
        } else {
            Rect::zero()
        }
    }

    open spec fn writes_at(
        &self,
        fonts: FontManager,
        scale: ScaleFactor,
        path: Seq<u32>,
        available_rect: Rect,
        index: int,
    ) -> Seq<CacheOp> {
        if index == 0 {
            self.0.writes(fonts, scale, path, available_rect)
        } else if index == 1 {
            self.1.writes(fonts, scale, path, available_rect)
        } else if index == 2 {
            self.2.writes(fonts, scale, path, available_rect)
        } else {
            Seq::empty()
        }
    }

    open spec fn identities_at(&self, path: Seq<u32>, index: int) -> Seq<Seq<u32>> {
        if index == 0 {
            self.0.identities(path)
        } else if index == 1 {
            self.1.identities(path)
        } else if index == 2 {
            self.2.identities(path)
        } else {
            Seq::empty()
        }
    }

    open spec fn painted_at(
        &self,
        palette: Palette,
        fonts: FontManager,
        scale: ScaleFactor,
        path: Seq<u32>,
        cache: Map<Seq<u32>, Layout>,
        index: int,
    ) -> Seq<DrawCommand> {
        if index == 0 {
            self.0.painted(palette, fonts, scale, path, cache)
        } else if index == 1 {
            self.1.painted(palette, fonts, scale, path, cache)
        } else if index == 2 {
            self.2.painted(palette, fonts, scale, path, cache)
        } else {
            Seq::empty()
        }
    }

    open spec fn leaf_at(&self, index: int) -> bool {
        if index == 0 {
            self.0.leaf()
        } else if index == 1 {
            self.1.leaf()
        } else if index == 2 {
            self.2.leaf()
        } else {
            false
        }
    }

    proof fn lemma_count_fits(&self) {
    }

    proof fn lemma_stays_below_at(
        &self,
        fonts: FontManager,
        scale: ScaleFactor,
        path: Seq<u32>,
        available_rect: Rect,
        index: int,
    ) {
        if index == 0 {
            self.0.lemma_stays_below(fonts, scale, path, available_rect);
        } else if index == 1 {
            self.1.lemma_stays_below(fonts, scale, path, available_rect);
        } else {
            self.2.lemma_stays_below(fonts, scale, path, available_rect);
        }
    }

    proof fn lemma_records_nodes_at(
        &self,
        fonts: FontManager,
        scale: ScaleFactor,
        path: Seq<u32>,
        available_rect: Rect,
        cache: Map<Seq<u32>, Layout>,
        index: int,
    ) {
        if index == 0 {
            self.0.lemma_records_nodes(fonts, scale, path, available_rect, cache);
        } else if index == 1 {
            self.1.lemma_records_nodes(fonts, scale, path, available_rect, cache);
        } else {
            self.2.lemma_records_nodes(fonts, scale, path, available_rect, cache);
        }
    }

    fn len(&self) -> (n: usize) {
        3
    }

    fn layout_at(
        &self,
        lctx: &mut LayoutContext,
        cache: &mut IdManager,
        available_rect: Rect,
        index: usize,
    ) -> (used_rect: Rect) {
        if index == 0 {
            self.0.layout(lctx, cache, available_rect)
        } else if index == 1 {
            self.1.layout(lctx, cache, available_rect)
        } else {
            self.2.layout(lctx, cache, available_rect)
        }
    }

    fn draw_at(&self, dctx: &mut DrawingContext, cache: &IdManager, index: usize) {
        if index == 0 {
            self.0.draw(dctx, cache);
        } else if index == 1 {
            self.1.draw(dctx, cache);
        } else {
            self.2.draw(dctx, cache);
        }
    }

    fn is_leaf_at(&self, index: usize) -> (leaf: bool) {
        if index == 0 {
            self.0.is_leaf()
        } else if index == 1 {
            self.1.is_leaf()
        } else {
            self.2.is_leaf()
        }
    }
}

impl<E0: Element + View, E1: Element + View, E2: Element + View> From<(E0, E1, E2)> for Multi3<E0, E1, E2> {
    fn from(value: (E0, E1, E2)) -> (children: Multi3<E0, E1, E2>) {
        Multi3(value.0, value.1, value.2)
    }
}

impl<E0: Element + View, E1: Element + View, E2: Element + View> FromSpecImpl<(E0, E1, E2)> for Multi3<E0, E1, E2> {
    open spec fn obeys_from_spec() -> bool {
        true
    }

    open spec fn from_spec(value: (E0, E1, E2)) -> Multi3<E0, E1, E2> {
        Multi3(value.0, value.1, value.2)
    }
}

impl<E0: Element + View, E1: Element + View, E2: Element + View> From<(E0, E1, E2)> for VStack<Multi3<E0, E1, E2>> {
    fn from(value: (E0, E1, E2)) -> (stack: VStack<Multi3<E0, E1, E2>>) {
        VStack { spacing: DEFAULT_SPACING, element: Multi3(value.0, value.1, value.2) }
    }
}

impl<E0: Element + View, E1: Element + View, E2: Element + View> FromSpecImpl<(E0, E1, E2)> for VStack<Multi3<E0, E1, E2>> {
    open spec fn obeys_from_spec() -> bool {
        true
    }

    open spec fn from_spec(value: (E0, E1, E2)) -> VStack<Multi3<E0, E1, E2>> {
        VStack { spacing: DEFAULT_SPACING, element: Multi3(value.0, value.1, value.2) }
    }
}

impl<E0: Element + View, E1: Element + View, E2: Element + View> From<(E0, E1, E2)> for HStack<Multi3<E0, E1, E2>> {
    fn from(value: (E0, E1, E2)) -> (stack: HStack<Multi3<E0, E1, E2>>) {
        HStack { spacing: DEFAULT_SPACING, element: Multi3(value.0, value.1, value.2) }
    }
}

impl<E0: Element + View, E1: Element + View, E2: Element + View> FromSpecImpl<(E0, E1, E2)> for HStack<Multi3<E0, E1, E2>> {
    open spec fn obeys_from_spec() -> bool {
        true
    }

    open spec fn from_spec(value: (E0, E1, E2)) -> HStack<Multi3<E0, E1, E2>> {
        HStack { spacing: DEFAULT_SPACING, element: Multi3(value.0, value.1, value.2) }
    }
}

/// Four children, each of a type of its own.
pub struct Multi4<E0: Element + View, E1: Element + View, E2: Element + View, E3: Element + View>(pub E0, pub E1, pub E2, pub E3);

impl<E0: Element + View, E1: Element + View, E2: Element + View, E3: Element + View> ElementIterator for Multi4<E0, E1, E2, E3> {
    open spec fn count(&self) -> nat {
        4
    }

    open spec fn used_at(
        &self,
        fonts: FontManager,
        scale: ScaleFactor,
        available_rect: Rect,
        index: int,
    ) -> Rect {
        if index == 0 {
            self.0.used(fonts, scale, available_rect)
        } else if index == 1 {
            self.1.used(fonts, scale, available_rect)
        } else if index == 2 {
            self.2.used(fonts, scale, available_rect)
        } else if index == 3 {
            self.3.used(fonts, scale, available_rect)
        } else {
            Rect::zero()
        }
    }

    open spec fn writes_at(
        &self,
        fonts: FontManager,
        scale: ScaleFactor,
        path: Seq<u32>,
        available_rect: Rect,
        index: int,
    ) -> Seq<CacheOp> {
        if index == 0 {
            self.0.writes(fonts, scale, path, available_rect)
        } else if index == 1 {
            self.1.writes(fonts, scale, path, available_rect)
        } else if index == 2 {
            self.2.writes(fonts, scale, path, available_rect)
        } else if index == 3 {
            self.3.writes(fonts, scale, path, available_rect)
        } else {
            Seq::empty()
        }
    }

    open spec fn identities_at(&self, path: Seq<u32>, index: int) -> Seq<Seq<u32>> {
        if index == 0 {
            self.0.identities(path)
        } else if index == 1 {
            self.1.identities(path)
        } else if index == 2 {
            self.2.identities(path)
        } else if index == 3 {
            self.3.identities(path)
        } else {
            Seq::empty()
        }
    }

    open spec fn painted_at(
        &self,
        palette: Palette,
        fonts: FontManager,
        scale: ScaleFactor,
        path: Seq<u32>,
        cache: Map<Seq<u32>, Layout>,
        index: int,
    ) -> Seq<DrawCommand> {
        if index == 0 {
            self.0.painted(palette, fonts, scale, path, cache)
        } else if index == 1 {
            self.1.painted(palette, fonts, scale, path, cache)
        } else if index == 2 {
            self.2.painted(palette, fonts, scale, path, cache)
        } else if index == 3 {
            self.3.painted(palette, fonts, scale, path, cache)
        } else {
            Seq::empty()
        }
    }

    open spec fn leaf_at(&self, index: int) -> bool {
        if index == 0 {
            self.0.leaf()
        } else if index == 1 {
            self.1.leaf()
        } else if index == 2 {
            self.2.leaf()
        } else if index == 3 {
            self.3.leaf()
        } else {
            false
        }
    }

    proof fn lemma_count_fits(&self) {
    }

    proof fn lemma_stays_below_at(
        &self,
        fonts: FontManager,
        scale: ScaleFactor,
        path: Seq<u32>,
        available_rect: Rect,
        index: int,
    ) {
        if index == 0 {
            self.0.lemma_stays_below(fonts, scale, path, available_rect);
        } else if index == 1 {
            self.1.lemma_stays_below(fonts, scale, path, available_rect);
        } else if index == 2 {
            self.2.lemma_stays_below(fonts, scale, path, available_rect);
        } else {
            self.3.lemma_stays_below(fonts, scale, path, available_rect);
        }
    }

    proof fn lemma_records_nodes_at(
        &self,
        fonts: FontManager,
        scale: ScaleFactor,
        path: Seq<u32>,
        available_rect: Rect,
        cache: Map<Seq<u32>, Layout>,
        index: int,
    ) {
        if index == 0 {
            self.0.lemma_records_nodes(fonts, scale, path, available_rect, cache);
        } else if index == 1 {
            self.1.lemma_records_nodes(fonts, scale, path, available_rect, cache);
        } else if index == 2 {
            self.2.lemma_records_nodes(fonts, scale, path, available_rect, cache);
        } else {
            self.3.lemma_records_nodes(fonts, scale, path, available_rect, cache);
        }
    }

    fn len(&self) -> (n: usize) {
        4
    }

    fn layout_at(
        &self,
        lctx: &mut LayoutContext,
        cache: &mut IdManager,
        available_rect: Rect,
        index: usize,
    ) -> (used_rect: Rect) {
        if index == 0 {
            self.0.layout(lctx, cache, available_rect)
        } else if index == 1 {
            self.1.layout(lctx, cache, available_rect)
        } else if index == 2 {
            self.2.layout(lctx, cache, available_rect)
        } else {
            self.3.layout(lctx, cache, available_rect)
        }
    }

    fn draw_at(&self, dctx: &mut DrawingContext, cache: &IdManager, index: usize) {
        if index == 0 {
            self.0.draw(dctx, cache);
        } else if index == 1 {
            self.1.draw(dctx, cache);
        } else if index == 2 {
            self.2.draw(dctx, cache);
        } else {
            self.3.draw(dctx, cache);
        }
    }

    fn is_leaf_at(&self, index: usize) -> (leaf: bool) {
        if index == 0 {
            self.0.is_leaf()
        } else if index == 1 {
            self.1.is_leaf()
        } else if index == 2 {
            self.2.is_leaf()
        } else {
            self.3.is_leaf()
        }
    }
}

impl<E0: Element + View, E1: Element + View, E2: Element + View, E3: Element + View> From<(E0, E1, E2, E3)> for Multi4<E0, E1, E2, E3> {
    fn from(value: (E0, E1, E2, E3)) -> (children: Multi4<E0, E1, E2, E3>) {
        Multi4(value.0, value.1, value.2, value.3)
    }
}

impl<E0: Element + View, E1: Element + View, E2: Element + View, E3: Element + View> FromSpecImpl<(E0, E1, E2, E3)> for Multi4<E0, E1, E2, E3> {
    open spec fn obeys_from_spec() -> bool {
        true
    }

    open spec fn from_spec(value: (E0, E1, E2, E3)) -> Multi4<E0, E1, E2, E3> {
        Multi4(value.0, value.1, value.2, value.3)
    }
}

impl<E0: Element + View, E1: Element + View, E2: Element + View, E3: Element + View> From<(E0, E1, E2, E3)> for VStack<Multi4<E0, E1, E2, E3>> {
    fn from(value: (E0, E1, E2, E3)) -> (stack: VStack<Multi4<E0, E1, E2, E3>>) {
        VStack { spacing: DEFAULT_SPACING, element: Multi4(value.0, value.1, value.2, value.3) }
    }
}

impl<E0: Element + View, E1: Element + View, E2: Element + View, E3: Element + View> FromSpecImpl<(E0, E1, E2, E3)> for VStack<Multi4<E0, E1, E2, E3>> {
    open spec fn obeys_from_spec() -> bool {
        true
    }

    open spec fn from_spec(value: (E0, E1, E2, E3)) -> VStack<Multi4<E0, E1, E2, E3>> {
        VStack { spacing: DEFAULT_SPACING, element: Multi4(value.0, value.1, value.2, value.3) }
    }
}

impl<E0: Element + View, E1: Element + View, E2: Element + View, E3: Element + View> From<(E0, E1, E2, E3)> for HStack<Multi4<E0, E1, E2, E3>> {
    fn from(value: (E0, E1, E2, E3)) -> (stack: HStack<Multi4<E0, E1, E2, E3>>) {
        HStack { spacing: DEFAULT_SPACING, element: Multi4(value.0, value.1, value.2, value.3) }
    }
}

impl<E0: Element + View, E1: Element + View, E2: Element + View, E3: Element + View> FromSpecImpl<(E0, E1, E2, E3)> for HStack<Multi4<E0, E1, E2, E3>> {
    open spec fn obeys_from_spec() -> bool {
        true
    }

    open spec fn from_spec(value: (E0, E1, E2, E3)) -> HStack<Multi4<E0, E1, E2, E3>> {
        HStack { spacing: DEFAULT_SPACING, element: Multi4(value.0, value.1, value.2, value.3) }
    }
}

/// Five children, each of a type of its own.
pub struct Multi5<E0: Element + View, E1: Element + View, E2: Element + View, E3: Element + View, E4: Element + View>(pub E0, pub E1, pub E2, pub E3, pub E4);

impl<E0: Element + View, E1: Element + View, E2: Element + View, E3: Element + View, E4: Element + View> ElementIterator for Multi5<E0, E1, E2, E3, E4> {
    open spec fn count(&self) -> nat {
        5
    }

    open spec fn used_at(
        &self,
        fonts: FontManager,
        scale: ScaleFactor,
        available_rect: Rect,
        index: int,
    ) -> Rect {
        if index == 0 {
            self.0.used(fonts, scale, available_rect)
        } else if index == 1 {
            self.1.used(fonts, scale, available_rect)
        } else if index == 2 {
            self.2.used(fonts, scale, available_rect)
        } else if index == 3 {
            self.3.used(fonts, scale, available_rect)
        } else if index == 4 {
            self.4.used(fonts, scale, available_rect)
        } else {
            Rect::zero()
        }
    }

    open spec fn writes_at(
        &self,
        fonts: FontManager,
        scale: ScaleFactor,
        path: Seq<u32>,
        available_rect: Rect,
        index: int,
    ) -> Seq<CacheOp> {
        if index == 0 {
            self.0.writes(fonts, scale, path, available_rect)
        } else if index == 1 {
            self.1.writes(fonts, scale, path, available_rect)
        } else if index == 2 {
            self.2.writes(fonts, scale, path, available_rect)
        } else if index == 3 {
            self.3.writes(fonts, scale, path, available_rect)
        } else if index == 4 {
            self.4.writes(fonts, scale, path, available_rect)
        } else {
            Seq::empty()
        }
    }

    open spec fn identities_at(&self, path: Seq<u32>, index: int) -> Seq<Seq<u32>> {
        if index == 0 {
            self.0.identities(path)
        } else if index == 1 {
            self.1.identities(path)
        } else if index == 2 {
            self.2.identities(path)
        } else if index == 3 {
            self.3.identities(path)
        } else if index == 4 {
            self.4.identities(path)
        } else {
            Seq::empty()
        }
    }

    open spec fn painted_at(
        &self,
        palette: Palette,
        fonts: FontManager,
        scale: ScaleFactor,
        path: Seq<u32>,
        cache: Map<Seq<u32>, Layout>,
        index: int,
    ) -> Seq<DrawCommand> {
        if index == 0 {
            self.0.painted(palette, fonts, scale, path, cache)
        } else if index == 1 {
            self.1.painted(palette, fonts, scale, path, cache)
        } else if index == 2 {
            self.2.painted(palette, fonts, scale, path, cache)
        } else if index == 3 {
            self.3.painted(palette, fonts, scale, path, cache)
        } else if index == 4 {
            self.4.painted(palette, fonts, scale, path, cache)
        } else {
            Seq::empty()
        }
    }

    open spec fn leaf_at(&self, index: int) -> bool {
        if index == 0 {
            self.0.leaf()
        } else if index == 1 {
            self.1.leaf()
        } else if index == 2 {
            self.2.leaf()
        } else if index == 3 {
            self.3.leaf()
        } else if index == 4 {
            self.4.leaf()
        } else {
            false
        }
    }

    proof fn lemma_count_fits(&self) {
    }

    proof fn lemma_stays_below_at(
        &self,
        fonts: FontManager,
        scale: ScaleFactor,
        path: Seq<u32>,
        available_rect: Rect,
        index: int,
    ) {
        if index == 0 {
            self.0.lemma_stays_below(fonts, scale, path, available_rect);
        } else if index == 1 {
            self.1.lemma_stays_below(fonts, scale, path, available_rect);
        } else if index == 2 {
            self.2.lemma_stays_below(fonts, scale, path, available_rect);
        } else if index == 3 {
            self.3.lemma_stays_below(fonts, scale, path, available_rect);
        } else {
            self.4.lemma_stays_below(fonts, scale, path, available_rect);
        }
    }

    proof fn lemma_records_nodes_at(
        &self,
        fonts: FontManager,
        scale: ScaleFactor,
        path: Seq<u32>,
        available_rect: Rect,
        cache: Map<Seq<u32>, Layout>,
        index: int,
    ) {
        if index == 0 {
            self.0.lemma_records_nodes(fonts, scale, path, available_rect, cache);
        } else if index == 1 {
            self.1.lemma_records_nodes(fonts, scale, path, available_rect, cache);
        } else if index == 2 {
            self.2.lemma_records_nodes(fonts, scale, path, available_rect, cache);
        } else if index == 3 {
            self.3.lemma_records_nodes(fonts, scale, path, available_rect, cache);
        } else {
            self.4.lemma_records_nodes(fonts, scale, path, available_rect, cache);
        }
    }

    fn len(&self) -> (n: usize) {
        5
    }

    fn layout_at(
        &self,
        lctx: &mut LayoutContext,
        cache: &mut IdManager,
        available_rect: Rect,
        index: usize,
    ) -> (used_rect: Rect) {
        if index == 0 {
            self.0.layout(lctx, cache, available_rect)
        } else if index == 1 {
            self.1.layout(lctx, cache, available_rect)
        } else if index == 2 {
            self.2.layout(lctx, cache, available_rect)
        } else if index == 3 {
            self.3.layout(lctx, cache, available_rect)
        } else {
            self.4.layout(lctx, cache, available_rect)
        }
    }

    fn draw_at(&self, dctx: &mut DrawingContext, cache: &IdManager, index: usize) {
        if index == 0 {
            self.0.draw(dctx, cache);
        } else if index == 1 {
            self.1.draw(dctx, cache);
        } else if index == 2 {
            self.2.draw(dctx, cache);
        } else if index == 3 {
            self.3.draw(dctx, cache);
        } else {
            self.4.draw(dctx, cache);
        }
    }

    fn is_leaf_at(&self, index: usize) -> (leaf: bool) {
        if index == 0 {
            self.0.is_leaf()
        } else if index == 1 {
            self.1.is_leaf()
        } else if index == 2 {
            self.2.is_leaf()
        } else if index == 3 {
            self.3.is_leaf()
        } else {
            self.4.is_leaf()
        }
    }
}

impl<E0: Element + View, E1: Element + View, E2: Element + View, E3: Element + View, E4: Element + View> From<(E0, E1, E2, E3, E4)> for Multi5<E0, E1, E2, E3, E4> {
    fn from(value: (E0, E1, E2, E3, E4)) -> (children: Multi5<E0, E1, E2, E3, E4>) {
        Multi5(value.0, value.1, value.2, value.3, value.4)
    }
}

impl<E0: Element + View, E1: Element + View, E2: Element + View, E3: Element + View, E4: Element + View> FromSpecImpl<(E0, E1, E2, E3, E4)> for Multi5<E0, E1, E2, E3, E4> {
    open spec fn obeys_from_spec() -> bool {
        true
    }

    open spec fn from_spec(value: (E0, E1, E2, E3, E4)) -> Multi5<E0, E1, E2, E3, E4> {
        Multi5(value.0, value.1, value.2, value.3, value.4)
    }
}

impl<E0: Element + View, E1: Element + View, E2: Element + View, E3: Element + View, E4: Element + View> From<(E0, E1, E2, E3, E4)> for VStack<Multi5<E0, E1, E2, E3, E4>> {
    fn from(value: (E0, E1, E2, E3, E4)) -> (stack: VStack<Multi5<E0, E1, E2, E3, E4>>) {
        VStack { spacing: DEFAULT_SPACING, element: Multi5(value.0, value.1, value.2, value.3, value.4) }
    }
}

impl<E0: Element + View, E1: Element + View, E2: Element + View, E3: Element + View, E4: Element + View> FromSpecImpl<(E0, E1, E2, E3, E4)> for VStack<Multi5<E0, E1, E2, E3, E4>> {
    open spec fn obeys_from_spec() -> bool {
        true
    }

    open spec fn from_spec(value: (E0, E1, E2, E3, E4)) -> VStack<Multi5<E0, E1, E2, E3, E4>> {
        VStack { spacing: DEFAULT_SPACING, element: Multi5(value.0, value.1, value.2, value.3, value.4) }
    }
}

impl<E0: Element + View, E1: Element + View, E2: Element + View, E3: Element + View, E4: Element + View> From<(E0, E1, E2, E3, E4)> for HStack<Multi5<E0, E1, E2, E3, E4>> {
    fn from(value: (E0, E1, E2, E3, E4)) -> (stack: HStack<Multi5<E0, E1, E2, E3, E4>>) {
        HStack { spacing: DEFAULT_SPACING, element: Multi5(value.0, value.1, value.2, value.3, value.4) }
    }
}

impl<E0: Element + View, E1: Element + View, E2: Element + View, E3: Element + View, E4: Element + View> FromSpecImpl<(E0, E1, E2, E3, E4)> for HStack<Multi5<E0, E1, E2, E3, E4>> {
    open spec fn obeys_from_spec() -> bool {
        true
    }

    open spec fn from_spec(value: (E0, E1, E2, E3, E4)) -> HStack<Multi5<E0, E1, E2, E3, E4>> {
        HStack { spacing: DEFAULT_SPACING, element: Multi5(value.0, value.1, value.2, value.3, value.4) }
    }
}

/// Six children, each of a type of its own.
pub struct Multi6<E0: Element + View, E1: Element + View, E2: Element + View, E3: Element + View, E4: Element + View, E5: Element + View>(pub E0, pub E1, pub E2, pub E3, pub E4, pub E5);

impl<E0: Element + View, E1: Element + View, E2: Element + View, E3: Element + View, E4: Element + View, E5: Element + View> ElementIterator for Multi6<E0, E1, E2, E3, E4, E5> {
    open spec fn count(&self) -> nat {
        6
    }

    open spec fn used_at(
        &self,
        fonts: FontManager,
        scale: ScaleFactor,
        available_rect: Rect,
        index: int,
    ) -> Rect {
        if index == 0 {
            self.0.used(fonts, scale, available_rect)
        } else if index == 1 {
            self.1.used(fonts, scale, available_rect)
        } else if index == 2 {
            self.2.used(fonts, scale, available_rect)
        } else if index == 3 {
            self.3.used(fonts, scale, available_rect)
        } else if index == 4 {
            self.4.used(fonts, scale, available_rect)
        } else if index == 5 {
            self.5.used(fonts, scale, available_rect)
        } else {
            Rect::zero()
        }
    }

    open spec fn writes_at(
        &self,
        fonts: FontManager,
        scale: ScaleFactor,
        path: Seq<u32>,
        available_rect: Rect,
        index: int,
    ) -> Seq<CacheOp> {
        if index == 0 {
            self.0.writes(fonts, scale, path, available_rect)
        } else if index == 1 {
            self.1.writes(fonts, scale, path, available_rect)
        } else if index == 2 {
            self.2.writes(fonts, scale, path, available_rect)
        } else if index == 3 {
            self.3.writes(fonts, scale, path, available_rect)
        } else if index == 4 {
            self.4.writes(fonts, scale, path, available_rect)
        } else if index == 5 {
            self.5.writes(fonts, scale, path, available_rect)
        } else {
            Seq::empty()
        }
    }

    open spec fn identities_at(&self, path: Seq<u32>, index: int) -> Seq<Seq<u32>> {
        if index == 0 {
            self.0.identities(path)
        } else if index == 1 {
            self.1.identities(path)
        } else if index == 2 {
            self.2.identities(path)
        } else if index == 3 {
            self.3.identities(path)
        } else if index == 4 {
            self.4.identities(path)
        } else if index == 5 {
            self.5.identities(path)
        } else {
            Seq::empty()
        }
    }

    open spec fn painted_at(
        &self,
        palette: Palette,
        fonts: FontManager,
        scale: ScaleFactor,
        path: Seq<u32>,
        cache: Map<Seq<u32>, Layout>,
        index: int,
    ) -> Seq<DrawCommand> {
        if index == 0 {
            self.0.painted(palette, fonts, scale, path, cache)
        } else if index == 1 {
            self.1.painted(palette, fonts, scale, path, cache)
        } else if index == 2 {
            self.2.painted(palette, fonts, scale, path, cache)
        } else if index == 3 {
            self.3.painted(palette, fonts, scale, path, cache)
        } else if index == 4 {
            self.4.painted(palette, fonts, scale, path, cache)
        } else if index == 5 {
            self.5.painted(palette, fonts, scale, path, cache)
        } else {
            Seq::empty()
        }
    }

    open spec fn leaf_at(&self, index: int) -> bool {
        if index == 0 {
            self.0.leaf()
        } else if index == 1 {
            self.1.leaf()
        } else if index == 2 {
            self.2.leaf()
        } else if index == 3 {
            self.3.leaf()
        } else if index == 4 {
            self.4.leaf()
        } else if index == 5 {
            self.5.leaf()
        } else {
            false
        }
    }

    proof fn lemma_count_fits(&self) {
    }

    proof fn lemma_stays_below_at(
        &self,
        fonts: FontManager,
        scale: ScaleFactor,
        path: Seq<u32>,
        available_rect: Rect,
        index: int,
    ) {
        if index == 0 {
            self.0.lemma_stays_below(fonts, scale, path, available_rect);
        } else if index == 1 {
            self.1.lemma_stays_below(fonts, scale, path, available_rect);
        } else if index == 2 {
            self.2.lemma_stays_below(fonts, scale, path, available_rect);
        } else if index == 3 {
            self.3.lemma_stays_below(fonts, scale, path, available_rect);
        } else if index == 4 {
            self.4.lemma_stays_below(fonts, scale, path, available_rect);
        } else {
            self.5.lemma_stays_below(fonts, scale, path, available_rect);
        }
    }

    proof fn lemma_records_nodes_at(
        &self,
        fonts: FontManager,
        scale: ScaleFactor,
        path: Seq<u32>,
        available_rect: Rect,
        cache: Map<Seq<u32>, Layout>,
        index: int,
    ) {
        if index == 0 {
            self.0.lemma_records_nodes(fonts, scale, path, available_rect, cache);
        } else if index == 1 {
            self.1.lemma_records_nodes(fonts, scale, path, available_rect, cache);
        } else if index == 2 {
            self.2.lemma_records_nodes(fonts, scale, path, available_rect, cache);
        } else if index == 3 {
            self.3.lemma_records_nodes(fonts, scale, path, available_rect, cache);
        } else if index == 4 {
            self.4.lemma_records_nodes(fonts, scale, path, available_rect, cache);
        } else {
            self.5.lemma_records_nodes(fonts, scale, path, available_rect, cache);
        }
    }

    fn len(&self) -> (n: usize) {
        6
    }

    fn layout_at(
        &self,
        lctx: &mut LayoutContext,
        cache: &mut IdManager,
        available_rect: Rect,
        index: usize,
    ) -> (used_rect: Rect) {
        if index == 0 {
            self.0.layout(lctx, cache, available_rect)
        } else if index == 1 {
            self.1.layout(lctx, cache, available_rect)
        } else if index == 2 {
            self.2.layout(lctx, cache, available_rect)
        } else if index == 3 {
            self.3.layout(lctx, cache, available_rect)
        } else if index == 4 {
            self.4.layout(lctx, cache, available_rect)
        } else {
            self.5.layout(lctx, cache, available_rect)
        }
    }

    fn draw_at(&self, dctx: &mut DrawingContext, cache: &IdManager, index: usize) {
        if index == 0 {
            self.0.draw(dctx, cache);
        } else if index == 1 {
            self.1.draw(dctx, cache);
        } else if index == 2 {
            self.2.draw(dctx, cache);
        } else if index == 3 {
            self.3.draw(dctx, cache);
        } else if index == 4 {
            self.4.draw(dctx, cache);
        } else {
            self.5.draw(dctx, cache);
        }
    }

    fn is_leaf_at(&self, index: usize) -> (leaf: bool) {
        if index == 0 {
            self.0.is_leaf()
        } else if index == 1 {
            self.1.is_leaf()
        } else if index == 2 {
            self.2.is_leaf()
        } else if index == 3 {
            self.3.is_leaf()
        } else if index == 4 {
            self.4.is_leaf()
        } else {
            self.5.is_leaf()
        }
    }
}

impl<E0: Element + View, E1: Element + View, E2: Element + View, E3: Element + View, E4: Element + View, E5: Element + View> From<(E0, E1, E2, E3, E4, E5)> for Multi6<E0, E1, E2, E3, E4, E5> {
    fn from(value: (E0, E1, E2, E3, E4, E5)) -> (children: Multi6<E0, E1, E2, E3, E4, E5>) {
        Multi6(value.0, value.1, value.2, value.3, value.4, value.5)
    }
}

impl<E0: Element + View, E1: Element + View, E2: Element + View, E3: Element + View, E4: Element + View, E5: Element + View> FromSpecImpl<(E0, E1, E2, E3, E4, E5)> for Multi6<E0, E1, E2, E3, E4, E5> {
    open spec fn obeys_from_spec() -> bool {
        true
    }

    open spec fn from_spec(value: (E0, E1, E2, E3, E4, E5)) -> Multi6<E0, E1, E2, E3, E4, E5> {
        Multi6(value.0, value.1, value.2, value.3, value.4, value.5)
    }
}

impl<E0: Element + View, E1: Element + View, E2: Element + View, E3: Element + View, E4: Element + View, E5: Element + View> From<(E0, E1, E2, E3, E4, E5)> for VStack<Multi6<E0, E1, E2, E3, E4, E5>> {
    fn from(value: (E0, E1, E2, E3, E4, E5)) -> (stack: VStack<Multi6<E0, E1, E2, E3, E4, E5>>) {
        VStack { spacing: DEFAULT_SPACING, element: Multi6(value.0, value.1, value.2, value.3, value.4, value.5) }
    }
}

impl<E0: Element + View, E1: Element + View, E2: Element + View, E3: Element + View, E4: Element + View, E5: Element + View> FromSpecImpl<(E0, E1, E2, E3, E4, E5)> for VStack<Multi6<E0, E1, E2, E3, E4, E5>> {
    open spec fn obeys_from_spec() -> bool {
        true
    }

    open spec fn from_spec(value: (E0, E1, E2, E3, E4, E5)) -> VStack<Multi6<E0, E1, E2, E3, E4, E5>> {
        VStack { spacing: DEFAULT_SPACING, element: Multi6(value.0, value.1, value.2, value.3, value.4, value.5) }
    }
}

impl<E0: Element + View, E1: Element + View, E2: Element + View, E3: Element + View, E4: Element + View, E5: Element + View> From<(E0, E1, E2, E3, E4, E5)> for HStack<Multi6<E0, E1, E2, E3, E4, E5>> {
    fn from(value: (E0, E1, E2, E3, E4, E5)) -> (stack: HStack<Multi6<E0, E1, E2, E3, E4, E5>>) {
        HStack { spacing: DEFAULT_SPACING, element: Multi6(value.0, value.1, value.2, value.3, value.4, value.5) }
    }
}

impl<E0: Element + View, E1: Element + View, E2: Element + View, E3: Element + View, E4: Element + View, E5: Element + View> FromSpecImpl<(E0, E1, E2, E3, E4, E5)> for HStack<Multi6<E0, E1, E2, E3, E4, E5>> {
    open spec fn obeys_from_spec() -> bool {
        true
    }

    open spec fn from_spec(value: (E0, E1, E2, E3, E4, E5)) -> HStack<Multi6<E0, E1, E2, E3, E4, E5>> {
        HStack { spacing: DEFAULT_SPACING, element: Multi6(value.0, value.1, value.2, value.3, value.4, value.5) }
    }
}

/// Seven children, each of a type of its own.
pub struct Multi7<E0: Element + View, E1: Element + View, E2: Element + View, E3: Element + View, E4: Element + View, E5: Element + View, E6: Element + View>(pub E0, pub E1, pub E2, pub E3, pub E4, pub E5, pub E6);

impl<E0: Element + View, E1: Element + View, E2: Element + View, E3: Element + View, E4: Element + View, E5: Element + View, E6: Element + View> ElementIterator for Multi7<E0, E1, E2, E3, E4, E5, E6> {
    open spec fn count(&self) -> nat {
        7
    }

    open spec fn used_at(
        &self,
        fonts: FontManager,
        scale: ScaleFactor,
        available_rect: Rect,
        index: int,
    ) -> Rect {
        if index == 0 {
            self.0.used(fonts, scale, available_rect)
        } else if index == 1 {
            self.1.used(fonts, scale, available_rect)
        } else if index == 2 {
            self.2.used(fonts, scale, available_rect)
        } else if index == 3 {
            self.3.used(fonts, scale, available_rect)
        } else if index == 4 {
            self.4.used(fonts, scale, available_rect)
        } else if index == 5 {
            self.5.used(fonts, scale, available_rect)
        } else if index == 6 {
            self.6.used(fonts, scale, available_rect)
        } else {
            Rect::zero()
        }
    }

    open spec fn writes_at(
        &self,
        fonts: FontManager,
        scale: ScaleFactor,
        path: Seq<u32>,
        available_rect: Rect,
        index: int,
    ) -> Seq<CacheOp> {
        if index == 0 {
            self.0.writes(fonts, scale, path, available_rect)
        } else if index == 1 {
            self.1.writes(fonts, scale, path, available_rect)
        } else if index == 2 {
            self.2.writes(fonts, scale, path, available_rect)
        } else if index == 3 {
            self.3.writes(fonts, scale, path, available_rect)
        } else if index == 4 {
            self.4.writes(fonts, scale, path, available_rect)
        } else if index == 5 {
            self.5.writes(fonts, scale, path, available_rect)
        } else if index == 6 {
            self.6.writes(fonts, scale, path, available_rect)
        } else {
            Seq::empty()
        }
    }

    open spec fn identities_at(&self, path: Seq<u32>, index: int) -> Seq<Seq<u32>> {
        if index == 0 {
            self.0.identities(path)
        } else if index == 1 {
            self.1.identities(path)
        } else if index == 2 {
            self.2.identities(path)
        } else if index == 3 {
            self.3.identities(path)
        } else if index == 4 {
            self.4.identities(path)
        } else if index == 5 {
            self.5.identities(path)
        } else if index == 6 {
            self.6.identities(path)
        } else {
            Seq::empty()
        }
    }

    open spec fn painted_at(
        &self,
        palette: Palette,
        fonts: FontManager,
        scale: ScaleFactor,
        path: Seq<u32>,
        cache: Map<Seq<u32>, Layout>,
        index: int,
    ) -> Seq<DrawCommand> {
        if index == 0 {
            self.0.painted(palette, fonts, scale, path, cache)
        } else if index == 1 {
            self.1.painted(palette, fonts, scale, path, cache)
        } else if index == 2 {
            self.2.painted(palette, fonts, scale, path, cache)
        } else if index == 3 {
            self.3.painted(palette, fonts, scale, path, cache)
        } else if index == 4 {
            self.4.painted(palette, fonts, scale, path, cache)
        } else if index == 5 {
            self.5.painted(palette, fonts, scale, path, cache)
        } else if index == 6 {
            self.6.painted(palette, fonts, scale, path, cache)
        } else {
            Seq::empty()
        }
    }

    open spec fn leaf_at(&self, index: int) -> bool {
        if index == 0 {
            self.0.leaf()
        } else if index == 1 {
            self.1.leaf()
        } else if index == 2 {
            self.2.leaf()
        } else if index == 3 {
            self.3.leaf()
        } else if index == 4 {
            self.4.leaf()
        } else if index == 5 {
            self.5.leaf()
        } else if index == 6 {
            self.6.leaf()
        } else {
            false
        }
    }

    proof fn lemma_count_fits(&self) {
    }

    proof fn lemma_stays_below_at(
        &self,
        fonts: FontManager,
        scale: ScaleFactor,
        path: Seq<u32>,
        available_rect: Rect,
        index: int,
    ) {
        if index == 0 {
            self.0.lemma_stays_below(fonts, scale, path, available_rect);
        } else if index == 1 {
            self.1.lemma_stays_below(fonts, scale, path, available_rect);
        } else if index == 2 {
            self.2.lemma_stays_below(fonts, scale, path, available_rect);
        } else if index == 3 {
            self.3.lemma_stays_below(fonts, scale, path, available_rect);
        } else if index == 4 {
            self.4.lemma_stays_below(fonts, scale, path, available_rect);
        } else if index == 5 {
            self.5.lemma_stays_below(fonts, scale, path, available_rect);
        } else {
            self.6.lemma_stays_below(fonts, scale, path, available_rect);
        }
    }

    proof fn lemma_records_nodes_at(
        &self,
        fonts: FontManager,
        scale: ScaleFactor,
        path: Seq<u32>,
        available_rect: Rect,
        cache: Map<Seq<u32>, Layout>,
        index: int,
    ) {
        if index == 0 {
            self.0.lemma_records_nodes(fonts, scale, path, available_rect, cache);
        } else if index == 1 {
            self.1.lemma_records_nodes(fonts, scale, path, available_rect, cache);
        } else if index == 2 {
            self.2.lemma_records_nodes(fonts, scale, path, available_rect, cache);
        } else if index == 3 {
            self.3.lemma_records_nodes(fonts, scale, path, available_rect, cache);
        } else if index == 4 {
            self.4.lemma_records_nodes(fonts, scale, path, available_rect, cache);
        } else if index == 5 {
            self.5.lemma_records_nodes(fonts, scale, path, available_rect, cache);
        } else {
            self.6.lemma_records_nodes(fonts, scale, path, available_rect, cache);
        }
    }

    fn len(&self) -> (n: usize) {
        7
    }

    fn layout_at(
        &self,
        lctx: &mut LayoutContext,
        cache: &mut IdManager,
        available_rect: Rect,
        index: usize,
    ) -> (used_rect: Rect) {
        if index == 0 {
            self.0.layout(lctx, cache, available_rect)
        } else if index == 1 {
            self.1.layout(lctx, cache, available_rect)
        } else if index == 2 {
            self.2.layout(lctx, cache, available_rect)
        } else if index == 3 {
            self.3.layout(lctx, cache, available_rect)
        } else if index == 4 {
            self.4.layout(lctx, cache, available_rect)
        } else if index == 5 {
            self.5.layout(lctx, cache, available_rect)
        } else {
            self.6.layout(lctx, cache, available_rect)
        }
    }

    fn draw_at(&self, dctx: &mut DrawingContext, cache: &IdManager, index: usize) {
        if index == 0 {
            self.0.draw(dctx, cache);
        } else if index == 1 {
            self.1.draw(dctx, cache);
        } else if index == 2 {
            self.2.draw(dctx, cache);
        } else if index == 3 {
            self.3.draw(dctx, cache);
        } else if index == 4 {
            self.4.draw(dctx, cache);
        } else if index == 5 {
            self.5.draw(dctx, cache);
        } else {
            self.6.draw(dctx, cache);
        }
    }

    fn is_leaf_at(&self, index: usize) -> (leaf: bool) {
        if index == 0 {
            self.0.is_leaf()
        } else if index == 1 {
            self.1.is_leaf()
        } else if index == 2 {
            self.2.is_leaf()
        } else if index == 3 {
            self.3.is_leaf()
        } else if index == 4 {
            self.4.is_leaf()
        } else if index == 5 {
            self.5.is_leaf()
        } else {
            self.6.is_leaf()
        }
    }
}

impl<E0: Element + View, E1: Element + View, E2: Element + View, E3: Element + View, E4: Element + View, E5: Element + View, E6: Element + View> From<(E0, E1, E2, E3, E4, E5, E6)> for Multi7<E0, E1, E2, E3, E4, E5, E6> {
    fn from(value: (E0, E1, E2, E3, E4, E5, E6)) -> (children: Multi7<E0, E1, E2, E3, E4, E5, E6>) {
        Multi7(value.0, value.1, value.2, value.3, value.4, value.5, value.6)
    }
}

impl<E0: Element + View, E1: Element + View, E2: Element + View, E3: Element + View, E4: Element + View, E5: Element + View, E6: Element + View> FromSpecImpl<(E0, E1, E2, E3, E4, E5, E6)> for Multi7<E0, E1, E2, E3, E4, E5, E6> {
    open spec fn obeys_from_spec() -> bool {
        true
    }

    open spec fn from_spec(value: (E0, E1, E2, E3, E4, E5, E6)) -> Multi7<E0, E1, E2, E3, E4, E5, E6> {
        Multi7(value.0, value.1, value.2, value.3, value.4, value.5, value.6)
    }
}

impl<E0: Element + View, E1: Element + View, E2: Element + View, E3: Element + View, E4: Element + View, E5: Element + View, E6: Element + View> From<(E0, E1, E2, E3, E4, E5, E6)> for VStack<Multi7<E0, E1, E2, E3, E4, E5, E6>> {
    fn from(value: (E0, E1, E2, E3, E4, E5, E6)) -> (stack: VStack<Multi7<E0, E1, E2, E3, E4, E5, E6>>) {
        VStack { spacing: DEFAULT_SPACING, element: Multi7(value.0, value.1, value.2, value.3, value.4, value.5, value.6) }
    }
}

impl<E0: Element + View, E1: Element + View, E2: Element + View, E3: Element + View, E4: Element + View, E5: Element + View, E6: Element + View> FromSpecImpl<(E0, E1, E2, E3, E4, E5, E6)> for VStack<Multi7<E0, E1, E2, E3, E4, E5, E6>> {
    open spec fn obeys_from_spec() -> bool {
        true
    }

    open spec fn from_spec(value: (E0, E1, E2, E3, E4, E5, E6)) -> VStack<Multi7<E0, E1, E2, E3, E4, E5, E6>> {
        VStack { spacing: DEFAULT_SPACING, element: Multi7(value.0, value.1, value.2, value.3, value.4, value.5, value.6) }
    }
}

impl<E0: Element + View, E1: Element + View, E2: Element + View, E3: Element + View, E4: Element + View, E5: Element + View, E6: Element + View> From<(E0, E1, E2, E3, E4, E5, E6)> for HStack<Multi7<E0, E1, E2, E3, E4, E5, E6>> {
    fn from(value: (E0, E1, E2, E3, E4, E5, E6)) -> (stack: HStack<Multi7<E0, E1, E2, E3, E4, E5, E6>>) {
        HStack { spacing: DEFAULT_SPACING, element: Multi7(value.0, value.1, value.2, value.3, value.4, value.5, value.6) }
    }
}

impl<E0: Element + View, E1: Element + View, E2: Element + View, E3: Element + View, E4: Element + View, E5: Element + View, E6: Element + View> FromSpecImpl<(E0, E1, E2, E3, E4, E5, E6)> for HStack<Multi7<E0, E1, E2, E3, E4, E5, E6>> {
    open spec fn obeys_from_spec() -> bool {
        true
    }

    open spec fn from_spec(value: (E0, E1, E2, E3, E4, E5, E6)) -> HStack<Multi7<E0, E1, E2, E3, E4, E5, E6>> {
        HStack { spacing: DEFAULT_SPACING, element: Multi7(value.0, value.1, value.2, value.3, value.4, value.5, value.6) }
    }
}

/// Eight children, each of a type of its own.
pub struct Multi8<E0: Element + View, E1: Element + View, E2: Element + View, E3: Element + View, E4: Element + View, E5: Element + View, E6: Element + View, E7: Element + View>(pub E0, pub E1, pub E2, pub E3, pub E4, pub E5, pub E6, pub E7);

impl<E0: Element + View, E1: Element + View, E2: Element + View, E3: Element + View, E4: Element + View, E5: Element + View, E6: Element + View, E7: Element + View> ElementIterator for Multi8<E0, E1, E2, E3, E4, E5, E6, E7> {
    open spec fn count(&self) -> nat {
        8
    }

    open spec fn used_at(
        &self,
        fonts: FontManager,
        scale: ScaleFactor,
        available_rect: Rect,
        index: int,
    ) -> Rect {
        if index == 0 {
            self.0.used(fonts, scale, available_rect)
        } else if index == 1 {
            self.1.used(fonts, scale, available_rect)
        } else if index == 2 {
            self.2.used(fonts, scale, available_rect)
        } else if index == 3 {
            self.3.used(fonts, scale, available_rect)
        } else if index == 4 {
            self.4.used(fonts, scale, available_rect)
        } else if index == 5 {
            self.5.used(fonts, scale, available_rect)
        } else if index == 6 {
            self.6.used(fonts, scale, available_rect)
        } else if index == 7 {
            self.7.used(fonts, scale, available_rect)
        } else {
            Rect::zero()
        }
    }

    open spec fn writes_at(
        &self,
        fonts: FontManager,
        scale: ScaleFactor,
        path: Seq<u32>,
        available_rect: Rect,
        index: int,
    ) -> Seq<CacheOp> {
        if index == 0 {
            self.0.writes(fonts, scale, path, available_rect)
        } else if index == 1 {
            self.1.writes(fonts, scale, path, available_rect)
        } else if index == 2 {
            self.2.writes(fonts, scale, path, available_rect)
        } else if index == 3 {
            self.3.writes(fonts, scale, path, available_rect)
        } else if index == 4 {
            self.4.writes(fonts, scale, path, available_rect)
        } else if index == 5 {
            self.5.writes(fonts, scale, path, available_rect)
        } else if index == 6 {
            self.6.writes(fonts, scale, path, available_rect)
        } else if index == 7 {
            self.7.writes(fonts, scale, path, available_rect)
        } else {
            Seq::empty()
        }
    }

    open spec fn identities_at(&self, path: Seq<u32>, index: int) -> Seq<Seq<u32>> {
        if index == 0 {
            self.0.identities(path)
        } else if index == 1 {
            self.1.identities(path)
        } else if index == 2 {
            self.2.identities(path)
        } else if index == 3 {
            self.3.identities(path)
        } else if index == 4 {
            self.4.identities(path)
        } else if index == 5 {
            self.5.identities(path)
        } else if index == 6 {
            self.6.identities(path)
        } else if index == 7 {
            self.7.identities(path)
        } else {
            Seq::empty()
        }
    }

    open spec fn painted_at(
        &self,
        palette: Palette,
        fonts: FontManager,
        scale: ScaleFactor,
        path: Seq<u32>,
        cache: Map<Seq<u32>, Layout>,
        index: int,
    ) -> Seq<DrawCommand> {
        if index == 0 {
            self.0.painted(palette, fonts, scale, path, cache)
        } else if index == 1 {
            self.1.painted(palette, fonts, scale, path, cache)
        } else if index == 2 {
            self.2.painted(palette, fonts, scale, path, cache)
        } else if index == 3 {
            self.3.painted(palette, fonts, scale, path, cache)
        } else if index == 4 {
            self.4.painted(palette, fonts, scale, path, cache)
        } else if index == 5 {
            self.5.painted(palette, fonts, scale, path, cache)
        } else if index == 6 {
            self.6.painted(palette, fonts, scale, path, cache)
        } else if index == 7 {
            self.7.painted(palette, fonts, scale, path, cache)
        } else {
            Seq::empty()
        }
    }

    open spec fn leaf_at(&self, index: int) -> bool {
        if index == 0 {
            self.0.leaf()
        } else if index == 1 {
            self.1.leaf()
        } else if index == 2 {
            self.2.leaf()
        } else if index == 3 {
            self.3.leaf()
        } else if index == 4 {
            self.4.leaf()
        } else if index == 5 {
            self.5.leaf()
        } else if index == 6 {
            self.6.leaf()
        } else if index == 7 {
            self.7.leaf()
        } else {
            false
        }
    }

    proof fn lemma_count_fits(&self) {
    }

    proof fn lemma_stays_below_at(
        &self,
        fonts: FontManager,
        scale: ScaleFactor,
        path: Seq<u32>,
        available_rect: Rect,
        index: int,
    ) {
        if index == 0 {
            self.0.lemma_stays_below(fonts, scale, path, available_rect);
        } else if index == 1 {
            self.1.lemma_stays_below(fonts, scale, path, available_rect);
        } else if index == 2 {
            self.2.lemma_stays_below(fonts, scale, path, available_rect);
        } else if index == 3 {
            self.3.lemma_stays_below(fonts, scale, path, available_rect);
        } else if index == 4 {
            self.4.lemma_stays_below(fonts, scale, path, available_rect);
        } else if index == 5 {
            self.5.lemma_stays_below(fonts, scale, path, available_rect);
        } else if index == 6 {
            self.6.lemma_stays_below(fonts, scale, path, available_rect);
        } else {
            self.7.lemma_stays_below(fonts, scale, path, available_rect);
        }
    }

    proof fn lemma_records_nodes_at(
        &self,
        fonts: FontManager,
        scale: ScaleFactor,
        path: Seq<u32>,
        available_rect: Rect,
        cache: Map<Seq<u32>, Layout>,
        index: int,
    ) {
        if index == 0 {
            self.0.lemma_records_nodes(fonts, scale, path, available_rect, cache);
        } else if index == 1 {
            self.1.lemma_records_nodes(fonts, scale, path, available_rect, cache);
        } else if index == 2 {
            self.2.lemma_records_nodes(fonts, scale, path, available_rect, cache);
        } else if index == 3 {
            self.3.lemma_records_nodes(fonts, scale, path, available_rect, cache);
        } else if index == 4 {
            self.4.lemma_records_nodes(fonts, scale, path, available_rect, cache);
        } else if index == 5 {
            self.5.lemma_records_nodes(fonts, scale, path, available_rect, cache);
        } else if index == 6 {
            self.6.lemma_records_nodes(fonts, scale, path, available_rect, cache);
        } else {
            self.7.lemma_records_nodes(fonts, scale, path, available_rect, cache);
        }
    }

    fn len(&self) -> (n: usize) {
        8
    }

    fn layout_at(
        &self,
        lctx: &mut LayoutContext,
        cache: &mut IdManager,
        available_rect: Rect,
        index: usize,
    ) -> (used_rect: Rect) {
        if index == 0 {
            self.0.layout(lctx, cache, available_rect)
        } else if index == 1 {
            self.1.layout(lctx, cache, available_rect)
        } else if index == 2 {
            self.2.layout(lctx, cache, available_rect)
        } else if index == 3 {
            self.3.layout(lctx, cache, available_rect)
        } else if index == 4 {
            self.4.layout(lctx, cache, available_rect)
        } else if index == 5 {
            self.5.layout(lctx, cache, available_rect)
        } else if index == 6 {
            self.6.layout(lctx, cache, available_rect)
        } else {
            self.7.layout(lctx, cache, available_rect)
        }
    }

    fn draw_at(&self, dctx: &mut DrawingContext, cache: &IdManager, index: usize) {
        if index == 0 {
            self.0.draw(dctx, cache);
        } else if index == 1 {
            self.1.draw(dctx, cache);
        } else if index == 2 {
            self.2.draw(dctx, cache);
        } else if index == 3 {
            self.3.draw(dctx, cache);
        } else if index == 4 {
            self.4.draw(dctx, cache);
        } else if index == 5 {
            self.5.draw(dctx, cache);
        } else if index == 6 {
            self.6.draw(dctx, cache);
        } else {
            self.7.draw(dctx, cache);
        }
    }

    fn is_leaf_at(&self, index: usize) -> (leaf: bool) {
        if index == 0 {
            self.0.is_leaf()
        } else if index == 1 {
            self.1.is_leaf()
        } else if index == 2 {
            self.2.is_leaf()
        } else if index == 3 {
            self.3.is_leaf()
        } else if index == 4 {
            self.4.is_leaf()
        } else if index == 5 {
            self.5.is_leaf()
        } else if index == 6 {
            self.6.is_leaf()
        } else {
            self.7.is_leaf()
        }
    }
}

impl<E0: Element + View, E1: Element + View, E2: Element + View, E3: Element + View, E4: Element + View, E5: Element + View, E6: Element + View, E7: Element + View> From<(E0, E1, E2, E3, E4, E5, E6, E7)> for Multi8<E0, E1, E2, E3, E4, E5, E6, E7> {
    fn from(value: (E0, E1, E2, E3, E4, E5, E6, E7)) -> (children: Multi8<E0, E1, E2, E3, E4, E5, E6, E7>) {
        Multi8(value.0, value.1, value.2, value.3, value.4, value.5, value.6, value.7)
    }
}

impl<E0: Element + View, E1: Element + View, E2: Element + View, E3: Element + View, E4: Element + View, E5: Element + View, E6: Element + View, E7: Element + View> FromSpecImpl<(E0, E1, E2, E3, E4, E5, E6, E7)> for Multi8<E0, E1, E2, E3, E4, E5, E6, E7> {
    open spec fn obeys_from_spec() -> bool {
        true
    }

    open spec fn from_spec(value: (E0, E1, E2, E3, E4, E5, E6, E7)) -> Multi8<E0, E1, E2, E3, E4, E5, E6, E7> {
        Multi8(value.0, value.1, value.2, value.3, value.4, value.5, value.6, value.7)
    }
}

impl<E0: Element + View, E1: Element + View, E2: Element + View, E3: Element + View, E4: Element + View, E5: Element + View, E6: Element + View, E7: Element + View> From<(E0, E1, E2, E3, E4, E5, E6, E7)> for VStack<Multi8<E0, E1, E2, E3, E4, E5, E6, E7>> {
    fn from(value: (E0, E1, E2, E3, E4, E5, E6, E7)) -> (stack: VStack<Multi8<E0, E1, E2, E3, E4, E5, E6, E7>>) {
        VStack { spacing: DEFAULT_SPACING, element: Multi8(value.0, value.1, value.2, value.3, value.4, value.5, value.6, value.7) }
    }
}

impl<E0: Element + View, E1: Element + View, E2: Element + View, E3: Element + View, E4: Element + View, E5: Element + View, E6: Element + View, E7: Element + View> FromSpecImpl<(E0, E1, E2, E3, E4, E5, E6, E7)> for VStack<Multi8<E0, E1, E2, E3, E4, E5, E6, E7>> {
    open spec fn obeys_from_spec() -> bool {
        true
    }

    open spec fn from_spec(value: (E0, E1, E2, E3, E4, E5, E6, E7)) -> VStack<Multi8<E0, E1, E2, E3, E4, E5, E6, E7>> {
        VStack { spacing: DEFAULT_SPACING, element: Multi8(value.0, value.1, value.2, value.3, value.4, value.5, value.6, value.7) }
    }
}

impl<E0: Element + View, E1: Element + View, E2: Element + View, E3: Element + View, E4: Element + View, E5: Element + View, E6: Element + View, E7: Element + View> From<(E0, E1, E2, E3, E4, E5, E6, E7)> for HStack<Multi8<E0, E1, E2, E3, E4, E5, E6, E7>> {
    fn from(value: (E0, E1, E2, E3, E4, E5, E6, E7)) -> (stack: HStack<Multi8<E0, E1, E2, E3, E4, E5, E6, E7>>) {
        HStack { spacing: DEFAULT_SPACING, element: Multi8(value.0, value.1, value.2, value.3, value.4, value.5, value.6, value.7) }
    }
}

impl<E0: Element + View, E1: Element + View, E2: Element + View, E3: Element + View, E4: Element + View, E5: Element + View, E6: Element + View, E7: Element + View> FromSpecImpl<(E0, E1, E2, E3, E4, E5, E6, E7)> for HStack<Multi8<E0, E1, E2, E3, E4, E5, E6, E7>> {
    open spec fn obeys_from_spec() -> bool {
        true
    }

    open spec fn from_spec(value: (E0, E1, E2, E3, E4, E5, E6, E7)) -> HStack<Multi8<E0, E1, E2, E3, E4, E5, E6, E7>> {
        HStack { spacing: DEFAULT_SPACING, element: Multi8(value.0, value.1, value.2, value.3, value.4, value.5, value.6, value.7) }
    }
}

/// Nine children, each of a type of its own.
pub struct Multi9<E0: Element + View, E1: Element + View, E2: Element + View, E3: Element + View, E4: Element + View, E5: Element + View, E6: Element + View, E7: Element + View, E8: Element + View>(pub E0, pub E1, pub E2, pub E3, pub E4, pub E5, pub E6, pub E7, pub E8);

impl<E0: Element + View, E1: Element + View, E2: Element + View, E3: Element + View, E4: Element + View, E5: Element + View, E6: Element + View, E7: Element + View, E8: Element + View> ElementIterator for Multi9<E0, E1, E2, E3, E4, E5, E6, E7, E8> {
    open spec fn count(&self) -> nat {
        9
    }

    open spec fn used_at(
        &self,
        fonts: FontManager,
        scale: ScaleFactor,
        available_rect: Rect,
        index: int,
    ) -> Rect {
        if index == 0 {
            self.0.used(fonts, scale, available_rect)
        } else if index == 1 {
            self.1.used(fonts, scale, available_rect)
        } else if index == 2 {
            self.2.used(fonts, scale, available_rect)
        } else if index == 3 {
            self.3.used(fonts, scale, available_rect)
        } else if index == 4 {
            self.4.used(fonts, scale, available_rect)
        } else if index == 5 {
            self.5.used(fonts, scale, available_rect)
        } else if index == 6 {
            self.6.used(fonts, scale, available_rect)
        } else if index == 7 {
            self.7.used(fonts, scale, available_rect)
        } else if index == 8 {
            self.8.used(fonts, scale, available_rect)
        } else {
            Rect::zero()
        }
    }

    open spec fn writes_at(
        &self,
        fonts: FontManager,
        scale: ScaleFactor,
        path: Seq<u32>,
        available_rect: Rect,
        index: int,
    ) -> Seq<CacheOp> {
        if index == 0 {
            self.0.writes(fonts, scale, path, available_rect)
        } else if index == 1 {
            self.1.writes(fonts, scale, path, available_rect)
        } else if index == 2 {
            self.2.writes(fonts, scale, path, available_rect)
        } else if index == 3 {
            self.3.writes(fonts, scale, path, available_rect)
        } else if index == 4 {
            self.4.writes(fonts, scale, path, available_rect)
        } else if index == 5 {
            self.5.writes(fonts, scale, path, available_rect)
        } else if index == 6 {
            self.6.writes(fonts, scale, path, available_rect)
        } else if index == 7 {
            self.7.writes(fonts, scale, path, available_rect)
        } else if index == 8 {
            self.8.writes(fonts, scale, path, available_rect)
        } else {
            Seq::empty()
        }
    }

    open spec fn identities_at(&self, path: Seq<u32>, index: int) -> Seq<Seq<u32>> {
        if index == 0 {
            self.0.identities(path)
        } else if index == 1 {
            self.1.identities(path)
        } else if index == 2 {
            self.2.identities(path)
        } else if index == 3 {
            self.3.identities(path)
        } else if index == 4 {
            self.4.identities(path)
        } else if index == 5 {
            self.5.identities(path)
        } else if index == 6 {
            self.6.identities(path)
        } else if index == 7 {
            self.7.identities(path)
        } else if index == 8 {
            self.8.identities(path)
        } else {
            Seq::empty()
        }
    }

    open spec fn painted_at(
        &self,
        palette: Palette,
        fonts: FontManager,
        scale: ScaleFactor,
        path: Seq<u32>,
        cache: Map<Seq<u32>, Layout>,
        index: int,
    ) -> Seq<DrawCommand> {
        if index == 0 {
            self.0.painted(palette, fonts, scale, path, cache)
        } else if index == 1 {
            self.1.painted(palette, fonts, scale, path, cache)
        } else if index == 2 {
            self.2.painted(palette, fonts, scale, path, cache)
        } else if index == 3 {
            self.3.painted(palette, fonts, scale, path, cache)
        } else if index == 4 {
            self.4.painted(palette, fonts, scale, path, cache)
        } else if index == 5 {
            self.5.painted(palette, fonts, scale, path, cache)
        } else if index == 6 {
            self.6.painted(palette, fonts, scale, path, cache)
        } else if index == 7 {
            self.7.painted(palette, fonts, scale, path, cache)
        } else if index == 8 {
            self.8.painted(palette, fonts, scale, path, cache)
        } else {
            Seq::empty()
        }
    }

    open spec fn leaf_at(&self, index: int) -> bool {
        if index == 0 {
            self.0.leaf()
        } else if index == 1 {
            self.1.leaf()
        } else if index == 2 {
            self.2.leaf()
        } else if index == 3 {
            self.3.leaf()
        } else if index == 4 {
            self.4.leaf()
        } else if index == 5 {
            self.5.leaf()
        } else if index == 6 {
            self.6.leaf()
        } else if index == 7 {
            self.7.leaf()
        } else if index == 8 {
            self.8.leaf()
        } else {
            false
        }
    }

    proof fn lemma_count_fits(&self) {
    }

    proof fn lemma_stays_below_at(
        &self,
        fonts: FontManager,
        scale: ScaleFactor,
        path: Seq<u32>,
        available_rect: Rect,
        index: int,
    ) {
        if index == 0 {
            self.0.lemma_stays_below(fonts, scale, path, available_rect);
        } else if index == 1 {
            self.1.lemma_stays_below(fonts, scale, path, available_rect);
        } else if index == 2 {
            self.2.lemma_stays_below(fonts, scale, path, available_rect);
        } else if index == 3 {
            self.3.lemma_stays_below(fonts, scale, path, available_rect);
        } else if index == 4 {
            self.4.lemma_stays_below(fonts, scale, path, available_rect);
        } else if index == 5 {
            self.5.lemma_stays_below(fonts, scale, path, available_rect);
        } else if index == 6 {
            self.6.lemma_stays_below(fonts, scale, path, available_rect);
        } else if index == 7 {
            self.7.lemma_stays_below(fonts, scale, path, available_rect);
        } else {
            self.8.lemma_stays_below(fonts, scale, path, available_rect);
        }
    }

    proof fn lemma_records_nodes_at(
        &self,
        fonts: FontManager,
        scale: ScaleFactor,
        path: Seq<u32>,
        available_rect: Rect,
        cache: Map<Seq<u32>, Layout>,
        index: int,
    ) {
        if index == 0 {
            self.0.lemma_records_nodes(fonts, scale, path, available_rect, cache);
        } else if index == 1 {
            self.1.lemma_records_nodes(fonts, scale, path, available_rect, cache);
        } else if index == 2 {
            self.2.lemma_records_nodes(fonts, scale, path, available_rect, cache);
        } else if index == 3 {
            self.3.lemma_records_nodes(fonts, scale, path, available_rect, cache);
        } else if index == 4 {
            self.4.lemma_records_nodes(fonts, scale, path, available_rect, cache);
        } else if index == 5 {
            self.5.lemma_records_nodes(fonts, scale, path, available_rect, cache);
        } else if index == 6 {
            self.6.lemma_records_nodes(fonts, scale, path, available_rect, cache);
        } else if index == 7 {
            self.7.lemma_records_nodes(fonts, scale, path, available_rect, cache);
        } else {
            self.8.lemma_records_nodes(fonts, scale, path, available_rect, cache);
        }
    }

    fn len(&self) -> (n: usize) {
        9
    }

    fn layout_at(
        &self,
        lctx: &mut LayoutContext,
        cache: &mut IdManager,
        available_rect: Rect,
        index: usize,
    ) -> (used_rect: Rect) {
        if index == 0 {
            self.0.layout(lctx, cache, available_rect)
        } else if index == 1 {
            self.1.layout(lctx, cache, available_rect)
        } else if index == 2 {
            self.2.layout(lctx, cache, available_rect)
        } else if index == 3 {
            self.3.layout(lctx, cache, available_rect)
        } else if index == 4 {
            self.4.layout(lctx, cache, available_rect)
        } else if index == 5 {
            self.5.layout(lctx, cache, available_rect)
        } else if index == 6 {
            self.6.layout(lctx, cache, available_rect)
        } else if index == 7 {
            self.7.layout(lctx, cache, available_rect)
        } else {
            self.8.layout(lctx, cache, available_rect)
        }
    }

    fn draw_at(&self, dctx: &mut DrawingContext, cache: &IdManager, index: usize) {
        if index == 0 {
            self.0.draw(dctx, cache);
        } else if index == 1 {
            self.1.draw(dctx, cache);
        } else if index == 2 {
            self.2.draw(dctx, cache);
        } else if index == 3 {
            self.3.draw(dctx, cache);
        } else if index == 4 {
            self.4.draw(dctx, cache);
        } else if index == 5 {
            self.5.draw(dctx, cache);
        } else if index == 6 {
            self.6.draw(dctx, cache);
        } else if index == 7 {
            self.7.draw(dctx, cache);
        } else {
            self.8.draw(dctx, cache);
        }
    }

    fn is_leaf_at(&self, index: usize) -> (leaf: bool) {
        if index == 0 {
            self.0.is_leaf()
        } else if index == 1 {
            self.1.is_leaf()
        } else if index == 2 {
            self.2.is_leaf()
        } else if index == 3 {
            self.3.is_leaf()
        } else if index == 4 {
            self.4.is_leaf()
        } else if index == 5 {
            self.5.is_leaf()
        } else if index == 6 {
            self.6.is_leaf()
        } else if index == 7 {
            self.7.is_leaf()
        } else {
            self.8.is_leaf()
        }
    }
}

impl<E0: Element + View, E1: Element + View, E2: Element + View, E3: Element + View, E4: Element + View, E5: Element + View, E6: Element + View, E7: Element + View, E8: Element + View> From<(E0, E1, E2, E3, E4, E5, E6, E7, E8)> for Multi9<E0, E1, E2, E3, E4, E5, E6, E7, E8> {
    fn from(value: (E0, E1, E2, E3, E4, E5, E6, E7, E8)) -> (children: Multi9<E0, E1, E2, E3, E4, E5, E6, E7, E8>) {
        Multi9(value.0, value.1, value.2, value.3, value.4, value.5, value.6, value.7, value.8)
    }
}

impl<E0: Element + View, E1: Element + View, E2: Element + View, E3: Element + View, E4: Element + View, E5: Element + View, E6: Element + View, E7: Element + View, E8: Element + View> FromSpecImpl<(E0, E1, E2, E3, E4, E5, E6, E7, E8)> for Multi9<E0, E1, E2, E3, E4, E5, E6, E7, E8> {
    open spec fn obeys_from_spec() -> bool {
        true
    }

    open spec fn from_spec(value: (E0, E1, E2, E3, E4, E5, E6, E7, E8)) -> Multi9<E0, E1, E2, E3, E4, E5, E6, E7, E8> {
        Multi9(value.0, value.1, value.2, value.3, value.4, value.5, value.6, value.7, value.8)
    }
}

impl<E0: Element + View, E1: Element + View, E2: Element + View, E3: Element + View, E4: Element + View, E5: Element + View, E6: Element + View, E7: Element + View, E8: Element + View> From<(E0, E1, E2, E3, E4, E5, E6, E7, E8)> for VStack<Multi9<E0, E1, E2, E3, E4, E5, E6, E7, E8>> {
    fn from(value: (E0, E1, E2, E3, E4, E5, E6, E7, E8)) -> (stack: VStack<Multi9<E0, E1, E2, E3, E4, E5, E6, E7, E8>>) {
        VStack { spacing: DEFAULT_SPACING, element: Multi9(value.0, value.1, value.2, value.3, value.4, value.5, value.6, value.7, value.8) }
    }
}

impl<E0: Element + View, E1: Element + View, E2: Element + View, E3: Element + View, E4: Element + View, E5: Element + View, E6: Element + View, E7: Element + View, E8: Element + View> FromSpecImpl<(E0, E1, E2, E3, E4, E5, E6, E7, E8)> for VStack<Multi9<E0, E1, E2, E3, E4, E5, E6, E7, E8>> {
    open spec fn obeys_from_spec() -> bool {
        true
    }

    open spec fn from_spec(value: (E0, E1, E2, E3, E4, E5, E6, E7, E8)) -> VStack<Multi9<E0, E1, E2, E3, E4, E5, E6, E7, E8>> {
        VStack { spacing: DEFAULT_SPACING, element: Multi9(value.0, value.1, value.2, value.3, value.4, value.5, value.6, value.7, value.8) }
    }
}

impl<E0: Element + View, E1: Element + View, E2: Element + View, E3: Element + View, E4: Element + View, E5: Element + View, E6: Element + View, E7: Element + View, E8: Element + View> From<(E0, E1, E2, E3, E4, E5, E6, E7, E8)> for HStack<Multi9<E0, E1, E2, E3, E4, E5, E6, E7, E8>> {
    fn from(value: (E0, E1, E2, E3, E4, E5, E6, E7, E8)) -> (stack: HStack<Multi9<E0, E1, E2, E3, E4, E5, E6, E7, E8>>) {
        HStack { spacing: DEFAULT_SPACING, element: Multi9(value.0, value.1, value.2, value.3, value.4, value.5, value.6, value.7, value.8) }
    }
}

impl<E0: Element + View, E1: Element + View, E2: Element + View, E3: Element + View, E4: Element + View, E5: Element + View, E6: Element + View, E7: Element + View, E8: Element + View> FromSpecImpl<(E0, E1, E2, E3, E4, E5, E6, E7, E8)> for HStack<Multi9<E0, E1, E2, E3, E4, E5, E6, E7, E8>> {
    open spec fn obeys_from_spec() -> bool {
        true
    }

    open spec fn from_spec(value: (E0, E1, E2, E3, E4, E5, E6, E7, E8)) -> HStack<Multi9<E0, E1, E2, E3, E4, E5, E6, E7, E8>> {
        HStack { spacing: DEFAULT_SPACING, element: Multi9(value.0, value.1, value.2, value.3, value.4, value.5, value.6, value.7, value.8) }
    }
}

/// Ten children, each of a type of its own.
pub struct Multi10<E0: Element + View, E1: Element + View, E2: Element + View, E3: Element + View, E4: Element + View, E5: Element + View, E6: Element + View, E7: Element + View, E8: Element + View, E9: Element + View>(pub E0, pub E1, pub E2, pub E3, pub E4, pub E5, pub E6, pub E7, pub E8, pub E9);

impl<E0: Element + View, E1: Element + View, E2: Element + View, E3: Element + View, E4: Element + View, E5: Element + View, E6: Element + View, E7: Element + View, E8: Element + View, E9: Element + View> ElementIterator for Multi10<E0, E1, E2, E3, E4, E5, E6, E7, E8, E9> {
    open spec fn count(&self) -> nat {
        10
    }

    open spec fn used_at(
        &self,
        fonts: FontManager,
        scale: ScaleFactor,
        available_rect: Rect,
        index: int,
    ) -> Rect {
        if index == 0 {
            self.0.used(fonts, scale, available_rect)
        } else if index == 1 {
            self.1.used(fonts, scale, available_rect)
        } else if index == 2 {
            self.2.used(fonts, scale, available_rect)
        } else if index == 3 {
            self.3.used(fonts, scale, available_rect)
        } else if index == 4 {
            self.4.used(fonts, scale, available_rect)
        } else if index == 5 {
            self.5.used(fonts, scale, available_rect)
        } else if index == 6 {
            self.6.used(fonts, scale, available_rect)
        } else if index == 7 {
            self.7.used(fonts, scale, available_rect)
        } else if index == 8 {
            self.8.used(fonts, scale, available_rect)
        } else if index == 9 {
            self.9.used(fonts, scale, available_rect)
        } else {
            Rect::zero()
        }
    }

    open spec fn writes_at(
        &self,
        fonts: FontManager,
        scale: ScaleFactor,
        path: Seq<u32>,
        available_rect: Rect,
        index: int,
    ) -> Seq<CacheOp> {
        if index == 0 {
            self.0.writes(fonts, scale, path, available_rect)
        } else if index == 1 {
            self.1.writes(fonts, scale, path, available_rect)
        } else if index == 2 {
            self.2.writes(fonts, scale, path, available_rect)
        } else if index == 3 {
            self.3.writes(fonts, scale, path, available_rect)
        } else if index == 4 {
            self.4.writes(fonts, scale, path, available_rect)
        } else if index == 5 {
            self.5.writes(fonts, scale, path, available_rect)
        } else if index == 6 {
            self.6.writes(fonts, scale, path, available_rect)
        } else if index == 7 {
            self.7.writes(fonts, scale, path, available_rect)
        } else if index == 8 {
            self.8.writes(fonts, scale, path, available_rect)
        } else if index == 9 {
            self.9.writes(fonts, scale, path, available_rect)
        } else {
            Seq::empty()
        }
    }

    open spec fn identities_at(&self, path: Seq<u32>, index: int) -> Seq<Seq<u32>> {
        if index == 0 {
            self.0.identities(path)
        } else if index == 1 {
            self.1.identities(path)
        } else if index == 2 {
            self.2.identities(path)
        } else if index == 3 {
            self.3.identities(path)
        } else if index == 4 {
            self.4.identities(path)
        } else if index == 5 {
            self.5.identities(path)
        } else if index == 6 {
            self.6.identities(path)
        } else if index == 7 {
            self.7.identities(path)
        } else if index == 8 {
            self.8.identities(path)
        } else if index == 9 {
            self.9.identities(path)
        } else {
            Seq::empty()
        }
    }

    open spec fn painted_at(
        &self,
        palette: Palette,
        fonts: FontManager,
        scale: ScaleFactor,
        path: Seq<u32>,
        cache: Map<Seq<u32>, Layout>,
        index: int,
    ) -> Seq<DrawCommand> {
        if index == 0 {
            self.0.painted(palette, fonts, scale, path, cache)
        } else if index == 1 {
            self.1.painted(palette, fonts, scale, path, cache)
        } else if index == 2 {
            self.2.painted(palette, fonts, scale, path, cache)
        } else if index == 3 {
            self.3.painted(palette, fonts, scale, path, cache)
        } else if index == 4 {
            self.4.painted(palette, fonts, scale, path, cache)
        } else if index == 5 {
            self.5.painted(palette, fonts, scale, path, cache)
        } else if index == 6 {
            self.6.painted(palette, fonts, scale, path, cache)
        } else if index == 7 {
            self.7.painted(palette, fonts, scale, path, cache)
        } else if index == 8 {
            self.8.painted(palette, fonts, scale, path, cache)
        } else if index == 9 {
            self.9.painted(palette, fonts, scale, path, cache)
        } else {
            Seq::empty()
        }
    }

    open spec fn leaf_at(&self, index: int) -> bool {
        if index == 0 {
            self.0.leaf()
        } else if index == 1 {
            self.1.leaf()
        } else if index == 2 {
            self.2.leaf()
        } else if index == 3 {
            self.3.leaf()
        } else if index == 4 {
            self.4.leaf()
        } else if index == 5 {
            self.5.leaf()
        } else if index == 6 {
            self.6.leaf()
        } else if index == 7 {
            self.7.leaf()
        } else if index == 8 {
            self.8.leaf()
        } else if index == 9 {
            self.9.leaf()
        } else {
            false
        }
    }

    proof fn lemma_count_fits(&self) {
    }

    proof fn lemma_stays_below_at(
        &self,
        fonts: FontManager,
        scale: ScaleFactor,
        path: Seq<u32>,
        available_rect: Rect,
        index: int,
    ) {
        if index == 0 {
            self.0.lemma_stays_below(fonts, scale, path, available_rect);
        } else if index == 1 {
            self.1.lemma_stays_below(fonts, scale, path, available_rect);
        } else if index == 2 {
            self.2.lemma_stays_below(fonts, scale, path, available_rect);
        } else if index == 3 {
            self.3.lemma_stays_below(fonts, scale, path, available_rect);
        } else if index == 4 {
            self.4.lemma_stays_below(fonts, scale, path, available_rect);
        } else if index == 5 {
            self.5.lemma_stays_below(fonts, scale, path, available_rect);
        } else if index == 6 {
            self.6.lemma_stays_below(fonts, scale, path, available_rect);
        } else if index == 7 {
            self.7.lemma_stays_below(fonts, scale, path, available_rect);
        } else if index == 8 {
            self.8.lemma_stays_below(fonts, scale, path, available_rect);
        } else {
            self.9.lemma_stays_below(fonts, scale, path, available_rect);
        }
    }

    proof fn lemma_records_nodes_at(
        &self,
        fonts: FontManager,
        scale: ScaleFactor,
        path: Seq<u32>,
        available_rect: Rect,
        cache: Map<Seq<u32>, Layout>,
        index: int,
    ) {
        if index == 0 {
            self.0.lemma_records_nodes(fonts, scale, path, available_rect, cache);
        } else if index == 1 {
            self.1.lemma_records_nodes(fonts, scale, path, available_rect, cache);
        } else if index == 2 {
            self.2.lemma_records_nodes(fonts, scale, path, available_rect, cache);
        } else if index == 3 {
            self.3.lemma_records_nodes(fonts, scale, path, available_rect, cache);
        } else if index == 4 {
            self.4.lemma_records_nodes(fonts, scale, path, available_rect, cache);
        } else if index == 5 {
            self.5.lemma_records_nodes(fonts, scale, path, available_rect, cache);
        } else if index == 6 {
            self.6.lemma_records_nodes(fonts, scale, path, available_rect, cache);
        } else if index == 7 {
            self.7.lemma_records_nodes(fonts, scale, path, available_rect, cache);
        } else if index == 8 {
            self.8.lemma_records_nodes(fonts, scale, path, available_rect, cache);
        } else {
            self.9.lemma_records_nodes(fonts, scale, path, available_rect, cache);
        }
    }

    fn len(&self) -> (n: usize) {
        10
    }

    fn layout_at(
        &self,
        lctx: &mut LayoutContext,
        cache: &mut IdManager,
        available_rect: Rect,
        index: usize,
    ) -> (used_rect: Rect) {
        if index == 0 {
            self.0.layout(lctx, cache, available_rect)
        } else if index == 1 {
            self.1.layout(lctx, cache, available_rect)
        } else if index == 2 {
            self.2.layout(lctx, cache, available_rect)
        } else if index == 3 {
            self.3.layout(lctx, cache, available_rect)
        } else if index == 4 {
            self.4.layout(lctx, cache, available_rect)
        } else if index == 5 {
            self.5.layout(lctx, cache, available_rect)
        } else if index == 6 {
            self.6.layout(lctx, cache, available_rect)
        } else if index == 7 {
            self.7.layout(lctx, cache, available_rect)
        } else if index == 8 {
            self.8.layout(lctx, cache, available_rect)
        } else {
            self.9.layout(lctx, cache, available_rect)
        }
    }

    fn draw_at(&self, dctx: &mut DrawingContext, cache: &IdManager, index: usize) {
        if index == 0 {
            self.0.draw(dctx, cache);
        } else if index == 1 {
            self.1.draw(dctx, cache);
        } else if index == 2 {
            self.2.draw(dctx, cache);
        } else if index == 3 {
            self.3.draw(dctx, cache);
        } else if index == 4 {
            self.4.draw(dctx, cache);
        } else if index == 5 {
            self.5.draw(dctx, cache);
        } else if index == 6 {
            self.6.draw(dctx, cache);
        } else if index == 7 {
            self.7.draw(dctx, cache);
        } else if index == 8 {
            self.8.draw(dctx, cache);
        } else {
            self.9.draw(dctx, cache);
        }
    }

    fn is_leaf_at(&self, index: usize) -> (leaf: bool) {
        if index == 0 {
            self.0.is_leaf()
        } else if index == 1 {
            self.1.is_leaf()
        } else if index == 2 {
            self.2.is_leaf()
        } else if index == 3 {
            self.3.is_leaf()
        } else if index == 4 {
            self.4.is_leaf()
        } else if index == 5 {
            self.5.is_leaf()
        } else if index == 6 {
            self.6.is_leaf()
        } else if index == 7 {
            self.7.is_leaf()
        } else if index == 8 {
            self.8.is_leaf()
        } else {
            self.9.is_leaf()
        }
    }
}

impl<E0: Element + View, E1: Element + View, E2: Element + View, E3: Element + View, E4: Element + View, E5: Element + View, E6: Element + View, E7: Element + View, E8: Element + View, E9: Element + View> From<(E0, E1, E2, E3, E4, E5, E6, E7, E8, E9)> for Multi10<E0, E1, E2, E3, E4, E5, E6, E7, E8, E9> {
    fn from(value: (E0, E1, E2, E3, E4, E5, E6, E7, E8, E9)) -> (children: Multi10<E0, E1, E2, E3, E4, E5, E6, E7, E8, E9>) {
        Multi10(value.0, value.1, value.2, value.3, value.4, value.5, value.6, value.7, value.8, value.9)
    }
}

impl<E0: Element + View, E1: Element + View, E2: Element + View, E3: Element + View, E4: Element + View, E5: Element + View, E6: Element + View, E7: Element + View, E8: Element + View, E9: Element + View> FromSpecImpl<(E0, E1, E2, E3, E4, E5, E6, E7, E8, E9)> for Multi10<E0, E1, E2, E3, E4, E5, E6, E7, E8, E9> {
    open spec fn obeys_from_spec() -> bool {
        true
    }

    open spec fn from_spec(value: (E0, E1, E2, E3, E4, E5, E6, E7, E8, E9)) -> Multi10<E0, E1, E2, E3, E4, E5, E6, E7, E8, E9> {
        Multi10(value.0, value.1, value.2, value.3, value.4, value.5, value.6, value.7, value.8, value.9)
    }
}

impl<E0: Element + View, E1: Element + View, E2: Element + View, E3: Element + View, E4: Element + View, E5: Element + View, E6: Element + View, E7: Element + View, E8: Element + View, E9: Element + View> From<(E0, E1, E2, E3, E4, E5, E6, E7, E8, E9)> for VStack<Multi10<E0, E1, E2, E3, E4, E5, E6, E7, E8, E9>> {
    fn from(value: (E0, E1, E2, E3, E4, E5, E6, E7, E8, E9)) -> (stack: VStack<Multi10<E0, E1, E2, E3, E4, E5, E6, E7, E8, E9>>) {
        VStack { spacing: DEFAULT_SPACING, element: Multi10(value.0, value.1, value.2, value.3, value.4, value.5, value.6, value.7, value.8, value.9) }
    }
}

impl<E0: Element + View, E1: Element + View, E2: Element + View, E3: Element + View, E4: Element + View, E5: Element + View, E6: Element + View, E7: Element + View, E8: Element + View, E9: Element + View> FromSpecImpl<(E0, E1, E2, E3, E4, E5, E6, E7, E8, E9)> for VStack<Multi10<E0, E1, E2, E3, E4, E5, E6, E7, E8, E9>> {
    open spec fn obeys_from_spec() -> bool {
        true
    }

    open spec fn from_spec(value: (E0, E1, E2, E3, E4, E5, E6, E7, E8, E9)) -> VStack<Multi10<E0, E1, E2, E3, E4, E5, E6, E7, E8, E9>> {
        VStack { spacing: DEFAULT_SPACING, element: Multi10(value.0, value.1, value.2, value.3, value.4, value.5, value.6, value.7, value.8, value.9) }
    }
}

impl<E0: Element + View, E1: Element + View, E2: Element + View, E3: Element + View, E4: Element + View, E5: Element + View, E6: Element + View, E7: Element + View, E8: Element + View, E9: Element + View> From<(E0, E1, E2, E3, E4, E5, E6, E7, E8, E9)> for HStack<Multi10<E0, E1, E2, E3, E4, E5, E6, E7, E8, E9>> {
    fn from(value: (E0, E1, E2, E3, E4, E5, E6, E7, E8, E9)) -> (stack: HStack<Multi10<E0, E1, E2, E3, E4, E5, E6, E7, E8, E9>>) {
        HStack { spacing: DEFAULT_SPACING, element: Multi10(value.0, value.1, value.2, value.3, value.4, value.5, value.6, value.7, value.8, value.9) }
    }
}

impl<E0: Element + View, E1: Element + View, E2: Element + View, E3: Element + View, E4: Element + View, E5: Element + View, E6: Element + View, E7: Element + View, E8: Element + View, E9: Element + View> FromSpecImpl<(E0, E1, E2, E3, E4, E5, E6, E7, E8, E9)> for HStack<Multi10<E0, E1, E2, E3, E4, E5, E6, E7, E8, E9>> {
    open spec fn obeys_from_spec() -> bool {
        true
    }

    open spec fn from_spec(value: (E0, E1, E2, E3, E4, E5, E6, E7, E8, E9)) -> HStack<Multi10<E0, E1, E2, E3, E4, E5, E6, E7, E8, E9>> {
        HStack { spacing: DEFAULT_SPACING, element: Multi10(value.0, value.1, value.2, value.3, value.4, value.5, value.6, value.7, value.8, value.9) }
    }
}

/// Eleven children, each of a type of its own.
pub struct Multi11<E0: Element + View, E1: Element + View, E2: Element + View, E3: Element + View, E4: Element + View, E5: Element + View, E6: Element + View, E7: Element + View, E8: Element + View, E9: Element + View, E10: Element + View>(pub E0, pub E1, pub E2, pub E3, pub E4, pub E5, pub E6, pub E7, pub E8, pub E9, pub E10);

impl<E0: Element + View, E1: Element + View, E2: Element + View, E3: Element + View, E4: Element + View, E5: Element + View, E6: Element + View, E7: Element + View, E8: Element + View, E9: Element + View, E10: Element + View> ElementIterator for Multi11<E0, E1, E2, E3, E4, E5, E6, E7, E8, E9, E10> {
    open spec fn count(&self) -> nat {
        11
    }

    open spec fn used_at(
        &self,
        fonts: FontManager,
        scale: ScaleFactor,
        available_rect: Rect,
        index: int,
    ) -> Rect {
        if index == 0 {
            self.0.used(fonts, scale, available_rect)
        } else if index == 1 {
            self.1.used(fonts, scale, available_rect)
        } else if index == 2 {
            self.2.used(fonts, scale, available_rect)
        } else if index == 3 {
            self.3.used(fonts, scale, available_rect)
        } else if index == 4 {
            self.4.used(fonts, scale, available_rect)
        } else if index == 5 {
            self.5.used(fonts, scale, available_rect)
        } else if index == 6 {
            self.6.used(fonts, scale, available_rect)
        } else if index == 7 {
            self.7.used(fonts, scale, available_rect)
        } else if index == 8 {
            self.8.used(fonts, scale, available_rect)
        } else if index == 9 {
            self.9.used(fonts, scale, available_rect)
        } else if index == 10 {
            self.10.used(fonts, scale, available_rect)
        } else {
            Rect::zero()
        }
    }

    open spec fn writes_at(
        &self,
        fonts: FontManager,
        scale: ScaleFactor,
        path: Seq<u32>,
        available_rect: Rect,
        index: int,
    ) -> Seq<CacheOp> {
        if index == 0 {
            self.0.writes(fonts, scale, path, available_rect)
        } else if index == 1 {
            self.1.writes(fonts, scale, path, available_rect)
        } else if index == 2 {
            self.2.writes(fonts, scale, path, available_rect)
        } else if index == 3 {
            self.3.writes(fonts, scale, path, available_rect)
        } else if index == 4 {
            self.4.writes(fonts, scale, path, available_rect)
        } else if index == 5 {
            self.5.writes(fonts, scale, path, available_rect)
        } else if index == 6 {
            self.6.writes(fonts, scale, path, available_rect)
        } else if index == 7 {
            self.7.writes(fonts, scale, path, available_rect)
        } else if index == 8 {
            self.8.writes(fonts, scale, path, available_rect)
        } else if index == 9 {
            self.9.writes(fonts, scale, path, available_rect)
        } else if index == 10 {
            self.10.writes(fonts, scale, path, available_rect)
        } else {
            Seq::empty()
        }
    }

    open spec fn identities_at(&self, path: Seq<u32>, index: int) -> Seq<Seq<u32>> {
        if index == 0 {
            self.0.identities(path)
        } else if index == 1 {
            self.1.identities(path)
        } else if index == 2 {
            self.2.identities(path)
        } else if index == 3 {
            self.3.identities(path)
        } else if index == 4 {
            self.4.identities(path)
        } else if index == 5 {
            self.5.identities(path)
        } else if index == 6 {
            self.6.identities(path)
        } else if index == 7 {
            self.7.identities(path)
        } else if index == 8 {
            self.8.identities(path)
        } else if index == 9 {
            self.9.identities(path)
        } else if index == 10 {
            self.10.identities(path)
        } else {
            Seq::empty()
        }
    }

    open spec fn painted_at(
        &self,
        palette: Palette,
        fonts: FontManager,
        scale: ScaleFactor,
        path: Seq<u32>,
        cache: Map<Seq<u32>, Layout>,
        index: int,
    ) -> Seq<DrawCommand> {
        if index == 0 {
            self.0.painted(palette, fonts, scale, path, cache)
        } else if index == 1 {
            self.1.painted(palette, fonts, scale, path, cache)
        } else if index == 2 {
            self.2.painted(palette, fonts, scale, path, cache)
        } else if index == 3 {
            self.3.painted(palette, fonts, scale, path, cache)
        } else if index == 4 {
            self.4.painted(palette, fonts, scale, path, cache)
        } else if index == 5 {
            self.5.painted(palette, fonts, scale, path, cache)
        } else if index == 6 {
            self.6.painted(palette, fonts, scale, path, cache)
        } else if index == 7 {
            self.7.painted(palette, fonts, scale, path, cache)
        } else if index == 8 {
            self.8.painted(palette, fonts, scale, path, cache)
        } else if index == 9 {
            self.9.painted(palette, fonts, scale, path, cache)
        } else if index == 10 {
            self.10.painted(palette, fonts, scale, path, cache)
        } else {
            Seq::empty()
        }
    }

    open spec fn leaf_at(&self, index: int) -> bool {
        if index == 0 {
            self.0.leaf()
        } else if index == 1 {
            self.1.leaf()
        } else if index == 2 {
            self.2.leaf()
        } else if index == 3 {
            self.3.leaf()
        } else if index == 4 {
            self.4.leaf()
        } else if index == 5 {
            self.5.leaf()
        } else if index == 6 {
            self.6.leaf()
        } else if index == 7 {
            self.7.leaf()
        } else if index == 8 {
            self.8.leaf()
        } else if index == 9 {
            self.9.leaf()
        } else if index == 10 {
            self.10.leaf()
        } else {
            false
        }
    }

    proof fn lemma_count_fits(&self) {
    }

    proof fn lemma_stays_below_at(
        &self,
        fonts: FontManager,
        scale: ScaleFactor,
        path: Seq<u32>,
        available_rect: Rect,
        index: int,
    ) {
        if index == 0 {
            self.0.lemma_stays_below(fonts, scale, path, available_rect);
        } else if index == 1 {
            self.1.lemma_stays_below(fonts, scale, path, available_rect);
        } else if index == 2 {
            self.2.lemma_stays_below(fonts, scale, path, available_rect);
        } else if index == 3 {
            self.3.lemma_stays_below(fonts, scale, path, available_rect);
        } else if index == 4 {
            self.4.lemma_stays_below(fonts, scale, path, available_rect);
        } else if index == 5 {
            self.5.lemma_stays_below(fonts, scale, path, available_rect);
        } else if index == 6 {
            self.6.lemma_stays_below(fonts, scale, path, available_rect);
        } else if index == 7 {
            self.7.lemma_stays_below(fonts, scale, path, available_rect);
        } else if index == 8 {
            self.8.lemma_stays_below(fonts, scale, path, available_rect);
        } else if index == 9 {
            self.9.lemma_stays_below(fonts, scale, path, available_rect);
        } else {
            self.10.lemma_stays_below(fonts, scale, path, available_rect);
        }
    }

    proof fn lemma_records_nodes_at(
        &self,
        fonts: FontManager,
        scale: ScaleFactor,
        path: Seq<u32>,
        available_rect: Rect,
        cache: Map<Seq<u32>, Layout>,
        index: int,
    ) {
        if index == 0 {
            self.0.lemma_records_nodes(fonts, scale, path, available_rect, cache);
        } else if index == 1 {
            self.1.lemma_records_nodes(fonts, scale, path, available_rect, cache);
        } else if index == 2 {
            self.2.lemma_records_nodes(fonts, scale, path, available_rect, cache);
        } else if index == 3 {
            self.3.lemma_records_nodes(fonts, scale, path, available_rect, cache);
        } else if index == 4 {
            self.4.lemma_records_nodes(fonts, scale, path, available_rect, cache);
        } else if index == 5 {
            self.5.lemma_records_nodes(fonts, scale, path, available_rect, cache);
        } else if index == 6 {
            self.6.lemma_records_nodes(fonts, scale, path, available_rect, cache);
        } else if index == 7 {
            self.7.lemma_records_nodes(fonts, scale, path, available_rect, cache);
        } else if index == 8 {
            self.8.lemma_records_nodes(fonts, scale, path, available_rect, cache);
        } else if index == 9 {
            self.9.lemma_records_nodes(fonts, scale, path, available_rect, cache);
        } else {
            self.10.lemma_records_nodes(fonts, scale, path, available_rect, cache);
        }
    }

    fn len(&self) -> (n: usize) {
        11
    }

    fn layout_at(
        &self,
        lctx: &mut LayoutContext,
        cache: &mut IdManager,
        available_rect: Rect,
        index: usize,
    ) -> (used_rect: Rect) {
        if index == 0 {
            self.0.layout(lctx, cache, available_rect)
        } else if index == 1 {
            self.1.layout(lctx, cache, available_rect)
        } else if index == 2 {
            self.2.layout(lctx, cache, available_rect)
        } else if index == 3 {
            self.3.layout(lctx, cache, available_rect)
        } else if index == 4 {
            self.4.layout(lctx, cache, available_rect)
        } else if index == 5 {
            self.5.layout(lctx, cache, available_rect)
        } else if index == 6 {
            self.6.layout(lctx, cache, available_rect)
        } else if index == 7 {
            self.7.layout(lctx, cache, available_rect)
        } else if index == 8 {
            self.8.layout(lctx, cache, available_rect)
        } else if index == 9 {
            self.9.layout(lctx, cache, available_rect)
        } else {
            self.10.layout(lctx, cache, available_rect)
        }
    }

    fn draw_at(&self, dctx: &mut DrawingContext, cache: &IdManager, index: usize) {
        if index == 0 {
            self.0.draw(dctx, cache);
        } else if index == 1 {
            self.1.draw(dctx, cache);
        } else if index == 2 {
            self.2.draw(dctx, cache);
        } else if index == 3 {
            self.3.draw(dctx, cache);
        } else if index == 4 {
            self.4.draw(dctx, cache);
        } else if index == 5 {
            self.5.draw(dctx, cache);
        } else if index == 6 {
            self.6.draw(dctx, cache);
        } else if index == 7 {
            self.7.draw(dctx, cache);
        } else if index == 8 {
            self.8.draw(dctx, cache);
        } else if index == 9 {
            self.9.draw(dctx, cache);
        } else {
            self.10.draw(dctx, cache);
        }
    }

    fn is_leaf_at(&self, index: usize) -> (leaf: bool) {
        if index == 0 {
            self.0.is_leaf()
        } else if index == 1 {
            self.1.is_leaf()
        } else if index == 2 {
            self.2.is_leaf()
        } else if index == 3 {
            self.3.is_leaf()
        } else if index == 4 {
            self.4.is_leaf()
        } else if index == 5 {
            self.5.is_leaf()
        } else if index == 6 {
            self.6.is_leaf()
        } else if index == 7 {
            self.7.is_leaf()
        } else if index == 8 {
            self.8.is_leaf()
        } else if index == 9 {
            self.9.is_leaf()
        } else {
            self.10.is_leaf()
        }
    }
}

impl<E0: Element + View, E1: Element + View, E2: Element + View, E3: Element + View, E4: Element + View, E5: Element + View, E6: Element + View, E7: Element + View, E8: Element + View, E9: Element + View, E10: Element + View> From<(E0, E1, E2, E3, E4, E5, E6, E7, E8, E9, E10)> for Multi11<E0, E1, E2, E3, E4, E5, E6, E7, E8, E9, E10> {
    fn from(value: (E0, E1, E2, E3, E4, E5, E6, E7, E8, E9, E10)) -> (children: Multi11<E0, E1, E2, E3, E4, E5, E6, E7, E8, E9, E10>) {
        Multi11(value.0, value.1, value.2, value.3, value.4, value.5, value.6, value.7, value.8, value.9, value.10)
    }
}

impl<E0: Element + View, E1: Element + View, E2: Element + View, E3: Element + View, E4: Element + View, E5: Element + View, E6: Element + View, E7: Element + View, E8: Element + View, E9: Element + View, E10: Element + View> FromSpecImpl<(E0, E1, E2, E3, E4, E5, E6, E7, E8, E9, E10)> for Multi11<E0, E1, E2, E3, E4, E5, E6, E7, E8, E9, E10> {
    open spec fn obeys_from_spec() -> bool {
        true
    }

    open spec fn from_spec(value: (E0, E1, E2, E3, E4, E5, E6, E7, E8, E9, E10)) -> Multi11<E0, E1, E2, E3, E4, E5, E6, E7, E8, E9, E10> {
        Multi11(value.0, value.1, value.2, value.3, value.4, value.5, value.6, value.7, value.8, value.9, value.10)
    }
}

impl<E0: Element + View, E1: Element + View, E2: Element + View, E3: Element + View, E4: Element + View, E5: Element + View, E6: Element + View, E7: Element + View, E8: Element + View, E9: Element + View, E10: Element + View> From<(E0, E1, E2, E3, E4, E5, E6, E7, E8, E9, E10)> for VStack<Multi11<E0, E1, E2, E3, E4, E5, E6, E7, E8, E9, E10>> {
    fn from(value: (E0, E1, E2, E3, E4, E5, E6, E7, E8, E9, E10)) -> (stack: VStack<Multi11<E0, E1, E2, E3, E4, E5, E6, E7, E8, E9, E10>>) {
        VStack { spacing: DEFAULT_SPACING, element: Multi11(value.0, value.1, value.2, value.3, value.4, value.5, value.6, value.7, value.8, value.9, value.10) }
    }
}

impl<E0: Element + View, E1: Element + View, E2: Element + View, E3: Element + View, E4: Element + View, E5: Element + View, E6: Element + View, E7: Element + View, E8: Element + View, E9: Element + View, E10: Element + View> FromSpecImpl<(E0, E1, E2, E3, E4, E5, E6, E7, E8, E9, E10)> for VStack<Multi11<E0, E1, E2, E3, E4, E5, E6, E7, E8, E9, E10>> {
    open spec fn obeys_from_spec() -> bool {
        true
    }

    open spec fn from_spec(value: (E0, E1, E2, E3, E4, E5, E6, E7, E8, E9, E10)) -> VStack<Multi11<E0, E1, E2, E3, E4, E5, E6, E7, E8, E9, E10>> {
        VStack { spacing: DEFAULT_SPACING, element: Multi11(value.0, value.1, value.2, value.3, value.4, value.5, value.6, value.7, value.8, value.9, value.10) }
    }
}

impl<E0: Element + View, E1: Element + View, E2: Element + View, E3: Element + View, E4: Element + View, E5: Element + View, E6: Element + View, E7: Element + View, E8: Element + View, E9: Element + View, E10: Element + View> From<(E0, E1, E2, E3, E4, E5, E6, E7, E8, E9, E10)> for HStack<Multi11<E0, E1, E2, E3, E4, E5, E6, E7, E8, E9, E10>> {
    fn from(value: (E0, E1, E2, E3, E4, E5, E6, E7, E8, E9, E10)) -> (stack: HStack<Multi11<E0, E1, E2, E3, E4, E5, E6, E7, E8, E9, E10>>) {
        HStack { spacing: DEFAULT_SPACING, element: Multi11(value.0, value.1, value.2, value.3, value.4, value.5, value.6, value.7, value.8, value.9, value.10) }
    }
}

impl<E0: Element + View, E1: Element + View, E2: Element + View, E3: Element + View, E4: Element + View, E5: Element + View, E6: Element + View, E7: Element + View, E8: Element + View, E9: Element + View, E10: Element + View> FromSpecImpl<(E0, E1, E2, E3, E4, E5, E6, E7, E8, E9, E10)> for HStack<Multi11<E0, E1, E2, E3, E4, E5, E6, E7, E8, E9, E10>> {
    open spec fn obeys_from_spec() -> bool {
        true
    }

    open spec fn from_spec(value: (E0, E1, E2, E3, E4, E5, E6, E7, E8, E9, E10)) -> HStack<Multi11<E0, E1, E2, E3, E4, E5, E6, E7, E8, E9, E10>> {
        HStack { spacing: DEFAULT_SPACING, element: Multi11(value.0, value.1, value.2, value.3, value.4, value.5, value.6, value.7, value.8, value.9, value.10) }
    }
}

/// Twelve children, each of a type of its own.
pub struct Multi12<E0: Element + View, E1: Element + View, E2: Element + View, E3: Element + View, E4: Element + View, E5: Element + View, E6: Element + View, E7: Element + View, E8: Element + View, E9: Element + View, E10: Element + View, E11: Element + View>(pub E0, pub E1, pub E2, pub E3, pub E4, pub E5, pub E6, pub E7, pub E8, pub E9, pub E10, pub E11);

impl<E0: Element + View, E1: Element + View, E2: Element + View, E3: Element + View, E4: Element + View, E5: Element + View, E6: Element + View, E7: Element + View, E8: Element + View, E9: Element + View, E10: Element + View, E11: Element + View> ElementIterator for Multi12<E0, E1, E2, E3, E4, E5, E6, E7, E8, E9, E10, E11> {
    open spec fn count(&self) -> nat {
        12
    }

    open spec fn used_at(
        &self,
        fonts: FontManager,
        scale: ScaleFactor,
        available_rect: Rect,
        index: int,
    ) -> Rect {
        if index == 0 {
            self.0.used(fonts, scale, available_rect)
        } else if index == 1 {
            self.1.used(fonts, scale, available_rect)
        } else if index == 2 {
            self.2.used(fonts, scale, available_rect)
        } else if index == 3 {
            self.3.used(fonts, scale, available_rect)
        } else if index == 4 {
            self.4.used(fonts, scale, available_rect)
        } else if index == 5 {
            self.5.used(fonts, scale, available_rect)
        } else if index == 6 {
            self.6.used(fonts, scale, available_rect)
        } else if index == 7 {
            self.7.used(fonts, scale, available_rect)
        } else if index == 8 {
            self.8.used(fonts, scale, available_rect)
        } else if index == 9 {
            self.9.used(fonts, scale, available_rect)
        } else if index == 10 {
            self.10.used(fonts, scale, available_rect)
        } else if index == 11 {
            self.11.used(fonts, scale, available_rect)
        } else {
            Rect::zero()
        }
    }

    open spec fn writes_at(
        &self,
        fonts: FontManager,
        scale: ScaleFactor,
        path: Seq<u32>,
        available_rect: Rect,
        index: int,
    ) -> Seq<CacheOp> {
        if index == 0 {
            self.0.writes(fonts, scale, path, available_rect)
        } else if index == 1 {
            self.1.writes(fonts, scale, path, available_rect)
        } else if index == 2 {
            self.2.writes(fonts, scale, path, available_rect)
        } else if index == 3 {
            self.3.writes(fonts, scale, path, available_rect)
        } else if index == 4 {
            self.4.writes(fonts, scale, path, available_rect)
        } else if index == 5 {
            self.5.writes(fonts, scale, path, available_rect)
        } else if index == 6 {
            self.6.writes(fonts, scale, path, available_rect)
        } else if index == 7 {
            self.7.writes(fonts, scale, path, available_rect)
        } else if index == 8 {
            self.8.writes(fonts, scale, path, available_rect)
        } else if index == 9 {
            self.9.writes(fonts, scale, path, available_rect)
        } else if index == 10 {
            self.10.writes(fonts, scale, path, available_rect)
        } else if index == 11 {
            self.11.writes(fonts, scale, path, available_rect)
        } else {
            Seq::empty()
        }
    }

    open spec fn identities_at(&self, path: Seq<u32>, index: int) -> Seq<Seq<u32>> {
        if index == 0 {
            self.0.identities(path)
        } else if index == 1 {
            self.1.identities(path)
        } else if index == 2 {
            self.2.identities(path)
        } else if index == 3 {
            self.3.identities(path)
        } else if index == 4 {
            self.4.identities(path)
        } else if index == 5 {
            self.5.identities(path)
        } else if index == 6 {
            self.6.identities(path)
        } else if index == 7 {
            self.7.identities(path)
        } else if index == 8 {
            self.8.identities(path)
        } else if index == 9 {
            self.9.identities(path)
        } else if index == 10 {
            self.10.identities(path)
        } else if index == 11 {
            self.11.identities(path)
        } else {
            Seq::empty()
        }
    }

    open spec fn painted_at(
        &self,
        palette: Palette,
        fonts: FontManager,
        scale: ScaleFactor,
        path: Seq<u32>,
        cache: Map<Seq<u32>, Layout>,
        index: int,
    ) -> Seq<DrawCommand> {
        if index == 0 {
            self.0.painted(palette, fonts, scale, path, cache)
        } else if index == 1 {
            self.1.painted(palette, fonts, scale, path, cache)
        } else if index == 2 {
            self.2.painted(palette, fonts, scale, path, cache)
        } else if index == 3 {
            self.3.painted(palette, fonts, scale, path, cache)
        } else if index == 4 {
            self.4.painted(palette, fonts, scale, path, cache)
        } else if index == 5 {
            self.5.painted(palette, fonts, scale, path, cache)
        } else if index == 6 {
            self.6.painted(palette, fonts, scale, path, cache)
        } else if index == 7 {
            self.7.painted(palette, fonts, scale, path, cache)
        } else if index == 8 {
            self.8.painted(palette, fonts, scale, path, cache)
        } else if index == 9 {
            self.9.painted(palette, fonts, scale, path, cache)
        } else if index == 10 {
            self.10.painted(palette, fonts, scale, path, cache)
        } else if index == 11 {
            self.11.painted(palette, fonts, scale, path, cache)
        } else {
            Seq::empty()
        }
    }

    open spec fn leaf_at(&self, index: int) -> bool {
        if index == 0 {
            self.0.leaf()
        } else if index == 1 {
            self.1.leaf()
        } else if index == 2 {
            self.2.leaf()
        } else if index == 3 {
            self.3.leaf()
        } else if index == 4 {
            self.4.leaf()
        } else if index == 5 {
            self.5.leaf()
        } else if index == 6 {
            self.6.leaf()
        } else if index == 7 {
            self.7.leaf()
        } else if index == 8 {
            self.8.leaf()
        } else if index == 9 {
            self.9.leaf()
        } else if index == 10 {
            self.10.leaf()
        } else if index == 11 {
            self.11.leaf()
        } else {
            false
        }
    }

    proof fn lemma_count_fits(&self) {
    }

    proof fn lemma_stays_below_at(
        &self,
        fonts: FontManager,
        scale: ScaleFactor,
        path: Seq<u32>,
        available_rect: Rect,
        index: int,
    ) {
        if index == 0 {
            self.0.lemma_stays_below(fonts, scale, path, available_rect);
        } else if index == 1 {
            self.1.lemma_stays_below(fonts, scale, path, available_rect);
        } else if index == 2 {
            self.2.lemma_stays_below(fonts, scale, path, available_rect);
        } else if index == 3 {
            self.3.lemma_stays_below(fonts, scale, path, available_rect);
        } else if index == 4 {
            self.4.lemma_stays_below(fonts, scale, path, available_rect);
        } else if index == 5 {
            self.5.lemma_stays_below(fonts, scale, path, available_rect);
        } else if index == 6 {
            self.6.lemma_stays_below(fonts, scale, path, available_rect);
        } else if index == 7 {
            self.7.lemma_stays_below(fonts, scale, path, available_rect);
        } else if index == 8 {
            self.8.lemma_stays_below(fonts, scale, path, available_rect);
        } else if index == 9 {
            self.9.lemma_stays_below(fonts, scale, path, available_rect);
        } else if index == 10 {
            self.10.lemma_stays_below(fonts, scale, path, available_rect);
        } else {
            self.11.lemma_stays_below(fonts, scale, path, available_rect);
        }
    }

    proof fn lemma_records_nodes_at(
        &self,
        fonts: FontManager,
        scale: ScaleFactor,
        path: Seq<u32>,
        available_rect: Rect,
        cache: Map<Seq<u32>, Layout>,
        index: int,
    ) {
        if index == 0 {
            self.0.lemma_records_nodes(fonts, scale, path, available_rect, cache);
        } else if index == 1 {
            self.1.lemma_records_nodes(fonts, scale, path, available_rect, cache);
        } else if index == 2 {
            self.2.lemma_records_nodes(fonts, scale, path, available_rect, cache);
        } else if index == 3 {
            self.3.lemma_records_nodes(fonts, scale, path, available_rect, cache);
        } else if index == 4 {
            self.4.lemma_records_nodes(fonts, scale, path, available_rect, cache);
        } else if index == 5 {
            self.5.lemma_records_nodes(fonts, scale, path, available_rect, cache);
        } else if index == 6 {
            self.6.lemma_records_nodes(fonts, scale, path, available_rect, cache);
        } else if index == 7 {
            self.7.lemma_records_nodes(fonts, scale, path, available_rect, cache);
        } else if index == 8 {
            self.8.lemma_records_nodes(fonts, scale, path, available_rect, cache);
        } else if index == 9 {
            self.9.lemma_records_nodes(fonts, scale, path, available_rect, cache);
        } else if index == 10 {
            self.10.lemma_records_nodes(fonts, scale, path, available_rect, cache);
        } else {
            self.11.lemma_records_nodes(fonts, scale, path, available_rect, cache);
        }
    }

    fn len(&self) -> (n: usize) {
        12
    }

    fn layout_at(
        &self,
        lctx: &mut LayoutContext,
        cache: &mut IdManager,
        available_rect: Rect,
        index: usize,
    ) -> (used_rect: Rect) {
        if index == 0 {
            self.0.layout(lctx, cache, available_rect)
        } else if index == 1 {
            self.1.layout(lctx, cache, available_rect)
        } else if index == 2 {
            self.2.layout(lctx, cache, available_rect)
        } else if index == 3 {
            self.3.layout(lctx, cache, available_rect)
        } else if index == 4 {
            self.4.layout(lctx, cache, available_rect)
        } else if index == 5 {
            self.5.layout(lctx, cache, available_rect)
        } else if index == 6 {
            self.6.layout(lctx, cache, available_rect)
        } else if index == 7 {
            self.7.layout(lctx, cache, available_rect)
        } else if index == 8 {
            self.8.layout(lctx, cache, available_rect)
        } else if index == 9 {
            self.9.layout(lctx, cache, available_rect)
        } else if index == 10 {
            self.10.layout(lctx, cache, available_rect)
        } else {
            self.11.layout(lctx, cache, available_rect)
        }
    }

    fn draw_at(&self, dctx: &mut DrawingContext, cache: &IdManager, index: usize) {
        if index == 0 {
            self.0.draw(dctx, cache);
        } else if index == 1 {
            self.1.draw(dctx, cache);
        } else if index == 2 {
            self.2.draw(dctx, cache);
        } else if index == 3 {
            self.3.draw(dctx, cache);
        } else if index == 4 {
            self.4.draw(dctx, cache);
        } else if index == 5 {
            self.5.draw(dctx, cache);
        } else if index == 6 {
            self.6.draw(dctx, cache);
        } else if index == 7 {
            self.7.draw(dctx, cache);
        } else if index == 8 {
            self.8.draw(dctx, cache);
        } else if index == 9 {
            self.9.draw(dctx, cache);
        } else if index == 10 {
            self.10.draw(dctx, cache);
        } else {
            self.11.draw(dctx, cache);
        }
    }

    fn is_leaf_at(&self, index: usize) -> (leaf: bool) {
        if index == 0 {
            self.0.is_leaf()
        } else if index == 1 {
            self.1.is_leaf()
        } else if index == 2 {
            self.2.is_leaf()
        } else if index == 3 {
            self.3.is_leaf()
        } else if index == 4 {
            self.4.is_leaf()
        } else if index == 5 {
            self.5.is_leaf()
        } else if index == 6 {
            self.6.is_leaf()
        } else if index == 7 {
            self.7.is_leaf()
        } else if index == 8 {
            self.8.is_leaf()
        } else if index == 9 {
            self.9.is_leaf()
        } else if index == 10 {
            self.10.is_leaf()
        } else {
            self.11.is_leaf()
        }
    }
}

impl<E0: Element + View, E1: Element + View, E2: Element + View, E3: Element + View, E4: Element + View, E5: Element + View, E6: Element + View, E7: Element + View, E8: Element + View, E9: Element + View, E10: Element + View, E11: Element + View> From<(E0, E1, E2, E3, E4, E5, E6, E7, E8, E9, E10, E11)> for Multi12<E0, E1, E2, E3, E4, E5, E6, E7, E8, E9, E10, E11> {
    fn from(value: (E0, E1, E2, E3, E4, E5, E6, E7, E8, E9, E10, E11)) -> (children: Multi12<E0, E1, E2, E3, E4, E5, E6, E7, E8, E9, E10, E11>) {
        Multi12(value.0, value.1, value.2, value.3, value.4, value.5, value.6, value.7, value.8, value.9, value.10, value.11)
    }
}

impl<E0: Element + View, E1: Element + View, E2: Element + View, E3: Element + View, E4: Element + View, E5: Element + View, E6: Element + View, E7: Element + View, E8: Element + View, E9: Element + View, E10: Element + View, E11: Element + View> FromSpecImpl<(E0, E1, E2, E3, E4, E5, E6, E7, E8, E9, E10, E11)> for Multi12<E0, E1, E2, E3, E4, E5, E6, E7, E8, E9, E10, E11> {
    open spec fn obeys_from_spec() -> bool {
        true
    }

    open spec fn from_spec(value: (E0, E1, E2, E3, E4, E5, E6, E7, E8, E9, E10, E11)) -> Multi12<E0, E1, E2, E3, E4, E5, E6, E7, E8, E9, E10, E11> {
        Multi12(value.0, value.1, value.2, value.3, value.4, value.5, value.6, value.7, value.8, value.9, value.10, value.11)
    }
}

impl<E0: Element + View, E1: Element + View, E2: Element + View, E3: Element + View, E4: Element + View, E5: Element + View, E6: Element + View, E7: Element + View, E8: Element + View, E9: Element + View, E10: Element + View, E11: Element + View> From<(E0, E1, E2, E3, E4, E5, E6, E7, E8, E9, E10, E11)> for VStack<Multi12<E0, E1, E2, E3, E4, E5, E6, E7, E8, E9, E10, E11>> {
    fn from(value: (E0, E1, E2, E3, E4, E5, E6, E7, E8, E9, E10, E11)) -> (stack: VStack<Multi12<E0, E1, E2, E3, E4, E5, E6, E7, E8, E9, E10, E11>>) {
        VStack { spacing: DEFAULT_SPACING, element: Multi12(value.0, value.1, value.2, value.3, value.4, value.5, value.6, value.7, value.8, value.9, value.10, value.11) }
    }
}

impl<E0: Element + View, E1: Element + View, E2: Element + View, E3: Element + View, E4: Element + View, E5: Element + View, E6: Element + View, E7: Element + View, E8: Element + View, E9: Element + View, E10: Element + View, E11: Element + View> FromSpecImpl<(E0, E1, E2, E3, E4, E5, E6, E7, E8, E9, E10, E11)> for VStack<Multi12<E0, E1, E2, E3, E4, E5, E6, E7, E8, E9, E10, E11>> {
    open spec fn obeys_from_spec() -> bool {
        true
    }

    open spec fn from_spec(value: (E0, E1, E2, E3, E4, E5, E6, E7, E8, E9, E10, E11)) -> VStack<Multi12<E0, E1, E2, E3, E4, E5, E6, E7, E8, E9, E10, E11>> {
        VStack { spacing: DEFAULT_SPACING, element: Multi12(value.0, value.1, value.2, value.3, value.4, value.5, value.6, value.7, value.8, value.9, value.10, value.11) }
    }
}

impl<E0: Element + View, E1: Element + View, E2: Element + View, E3: Element + View, E4: Element + View, E5: Element + View, E6: Element + View, E7: Element + View, E8: Element + View, E9: Element + View, E10: Element + View, E11: Element + View> From<(E0, E1, E2, E3, E4, E5, E6, E7, E8, E9, E10, E11)> for HStack<Multi12<E0, E1, E2, E3, E4, E5, E6, E7, E8, E9, E10, E11>> {
    fn from(value: (E0, E1, E2, E3, E4, E5, E6, E7, E8, E9, E10, E11)) -> (stack: HStack<Multi12<E0, E1, E2, E3, E4, E5, E6, E7, E8, E9, E10, E11>>) {
        HStack { spacing: DEFAULT_SPACING, element: Multi12(value.0, value.1, value.2, value.3, value.4, value.5, value.6, value.7, value.8, value.9, value.10, value.11) }
    }
}

impl<E0: Element + View, E1: Element + View, E2: Element + View, E3: Element + View, E4: Element + View, E5: Element + View, E6: Element + View, E7: Element + View, E8: Element + View, E9: Element + View, E10: Element + View, E11: Element + View> FromSpecImpl<(E0, E1, E2, E3, E4, E5, E6, E7, E8, E9, E10, E11)> for HStack<Multi12<E0, E1, E2, E3, E4, E5, E6, E7, E8, E9, E10, E11>> {
    open spec fn obeys_from_spec() -> bool {
        true
    }

    open spec fn from_spec(value: (E0, E1, E2, E3, E4, E5, E6, E7, E8, E9, E10, E11)) -> HStack<Multi12<E0, E1, E2, E3, E4, E5, E6, E7, E8, E9, E10, E11>> {
        HStack { spacing: DEFAULT_SPACING, element: Multi12(value.0, value.1, value.2, value.3, value.4, value.5, value.6, value.7, value.8, value.9, value.10, value.11) }
    }
}

/// Thirteen children, each of a type of its own.
pub struct Multi13<E0: Element + View, E1: Element + View, E2: Element + View, E3: Element + View, E4: Element + View, E5: Element + View, E6: Element + View, E7: Element + View, E8: Element + View, E9: Element + View, E10: Element + View, E11: Element + View, E12: Element + View>(pub E0, pub E1, pub E2, pub E3, pub E4, pub E5, pub E6, pub E7, pub E8, pub E9, pub E10, pub E11, pub E12);

impl<E0: Element + View, E1: Element + View, E2: Element + View, E3: Element + View, E4: Element + View, E5: Element + View, E6: Element + View, E7: Element + View, E8: Element + View, E9: Element + View, E10: Element + View, E11: Element + View, E12: Element + View> ElementIterator for Multi13<E0, E1, E2, E3, E4, E5, E6, E7, E8, E9, E10, E11, E12> {
    open spec fn count(&self) -> nat {
        13
    }

    open spec fn used_at(
        &self,
        fonts: FontManager,
        scale: ScaleFactor,
        available_rect: Rect,
        index: int,
    ) -> Rect {
        if index == 0 {
            self.0.used(fonts, scale, available_rect)
        } else if index == 1 {
            self.1.used(fonts, scale, available_rect)
        } else if index == 2 {
            self.2.used(fonts, scale, available_rect)
        } else if index == 3 {
            self.3.used(fonts, scale, available_rect)
        } else if index == 4 {
            self.4.used(fonts, scale, available_rect)
        } else if index == 5 {
            self.5.used(fonts, scale, available_rect)
        } else if index == 6 {
            self.6.used(fonts, scale, available_rect)
        } else if index == 7 {
            self.7.used(fonts, scale, available_rect)
        } else if index == 8 {
            self.8.used(fonts, scale, available_rect)
        } else if index == 9 {
            self.9.used(fonts, scale, available_rect)
        } else if index == 10 {
            self.10.used(fonts, scale, available_rect)
        } else if index == 11 {
            self.11.used(fonts, scale, available_rect)
        } else if index == 12 {
            self.12.used(fonts, scale, available_rect)
        } else {
            Rect::zero()
        }
    }

    open spec fn writes_at(
        &self,
        fonts: FontManager,
        scale: ScaleFactor,
        path: Seq<u32>,
        available_rect: Rect,
        index: int,
    ) -> Seq<CacheOp> {
        if index == 0 {
            self.0.writes(fonts, scale, path, available_rect)
        } else if index == 1 {
            self.1.writes(fonts, scale, path, available_rect)
        } else if index == 2 {
            self.2.writes(fonts, scale, path, available_rect)
        } else if index == 3 {
            self.3.writes(fonts, scale, path, available_rect)
        } else if index == 4 {
            self.4.writes(fonts, scale, path, available_rect)
        } else if index == 5 {
            self.5.writes(fonts, scale, path, available_rect)
        } else if index == 6 {
            self.6.writes(fonts, scale, path, available_rect)
        } else if index == 7 {
            self.7.writes(fonts, scale, path, available_rect)
        } else if index == 8 {
            self.8.writes(fonts, scale, path, available_rect)
        } else if index == 9 {
            self.9.writes(fonts, scale, path, available_rect)
        } else if index == 10 {
            self.10.writes(fonts, scale, path, available_rect)
        } else if index == 11 {
            self.11.writes(fonts, scale, path, available_rect)
        } else if index == 12 {
            self.12.writes(fonts, scale, path, available_rect)
        } else {
            Seq::empty()
        }
    }

    open spec fn identities_at(&self, path: Seq<u32>, index: int) -> Seq<Seq<u32>> {
        if index == 0 {
            self.0.identities(path)
        } else if index == 1 {
            self.1.identities(path)
        } else if index == 2 {
            self.2.identities(path)
        } else if index == 3 {
            self.3.identities(path)
        } else if index == 4 {
            self.4.identities(path)
        } else if index == 5 {
            self.5.identities(path)
        } else if index == 6 {
            self.6.identities(path)
        } else if index == 7 {
            self.7.identities(path)
        } else if index == 8 {
            self.8.identities(path)
        } else if index == 9 {
            self.9.identities(path)
        } else if index == 10 {
            self.10.identities(path)
        } else if index == 11 {
            self.11.identities(path)
        } else if index == 12 {
            self.12.identities(path)
        } else {
            Seq::empty()
        }
    }

    open spec fn painted_at(
        &self,
        palette: Palette,
        fonts: FontManager,
        scale: ScaleFactor,
        path: Seq<u32>,
        cache: Map<Seq<u32>, Layout>,
        index: int,
    ) -> Seq<DrawCommand> {
        if index == 0 {
            self.0.painted(palette, fonts, scale, path, cache)
        } else if index == 1 {
            self.1.painted(palette, fonts, scale, path, cache)
        } else if index == 2 {
            self.2.painted(palette, fonts, scale, path, cache)
        } else if index == 3 {
            self.3.painted(palette, fonts, scale, path, cache)
        } else if index == 4 {
            self.4.painted(palette, fonts, scale, path, cache)
        } else if index == 5 {
            self.5.painted(palette, fonts, scale, path, cache)
        } else if index == 6 {
            self.6.painted(palette, fonts, scale, path, cache)
        } else if index == 7 {
            self.7.painted(palette, fonts, scale, path, cache)
        } else if index == 8 {
            self.8.painted(palette, fonts, scale, path, cache)
        } else if index == 9 {
            self.9.painted(palette, fonts, scale, path, cache)
        } else if index == 10 {
            self.10.painted(palette, fonts, scale, path, cache)
        } else if index == 11 {
            self.11.painted(palette, fonts, scale, path, cache)
        } else if index == 12 {
            self.12.painted(palette, fonts, scale, path, cache)
        } else {
            Seq::empty()
        }
    }

    open spec fn leaf_at(&self, index: int) -> bool {
        if index == 0 {
            self.0.leaf()
        } else if index == 1 {
            self.1.leaf()
        } else if index == 2 {
            self.2.leaf()
        } else if index == 3 {
            self.3.leaf()
        } else if index == 4 {
            self.4.leaf()
        } else if index == 5 {
            self.5.leaf()
        } else if index == 6 {
            self.6.leaf()
        } else if index == 7 {
            self.7.leaf()
        } else if index == 8 {
            self.8.leaf()
        } else if index == 9 {
            self.9.leaf()
        } else if index == 10 {
            self.10.leaf()
        } else if index == 11 {
            self.11.leaf()
        } else if index == 12 {
            self.12.leaf()
        } else {
            false
        }
    }

    proof fn lemma_count_fits(&self) {
    }

    proof fn lemma_stays_below_at(
        &self,
        fonts: FontManager,
        scale: ScaleFactor,
        path: Seq<u32>,
        available_rect: Rect,
        index: int,
    ) {
        if index == 0 {
            self.0.lemma_stays_below(fonts, scale, path, available_rect);
        } else if index == 1 {
            self.1.lemma_stays_below(fonts, scale, path, available_rect);
        } else if index == 2 {
            self.2.lemma_stays_below(fonts, scale, path, available_rect);
        } else if index == 3 {
            self.3.lemma_stays_below(fonts, scale, path, available_rect);
        } else if index == 4 {
            self.4.lemma_stays_below(fonts, scale, path, available_rect);
        } else if index == 5 {
            self.5.lemma_stays_below(fonts, scale, path, available_rect);
        } else if index == 6 {
            self.6.lemma_stays_below(fonts, scale, path, available_rect);
        } else if index == 7 {
            self.7.lemma_stays_below(fonts, scale, path, available_rect);
        } else if index == 8 {
            self.8.lemma_stays_below(fonts, scale, path, available_rect);
        } else if index == 9 {
            self.9.lemma_stays_below(fonts, scale, path, available_rect);
        } else if index == 10 {
            self.10.lemma_stays_below(fonts, scale, path, available_rect);
        } else if index == 11 {
            self.11.lemma_stays_below(fonts, scale, path, available_rect);
        } else {
            self.12.lemma_stays_below(fonts, scale, path, available_rect);
        }
    }

    proof fn lemma_records_nodes_at(
        &self,
        fonts: FontManager,
        scale: ScaleFactor,
        path: Seq<u32>,
        available_rect: Rect,
        cache: Map<Seq<u32>, Layout>,
        index: int,
    ) {
        if index == 0 {
            self.0.lemma_records_nodes(fonts, scale, path, available_rect, cache);
        } else if index == 1 {
            self.1.lemma_records_nodes(fonts, scale, path, available_rect, cache);
        } else if index == 2 {
            self.2.lemma_records_nodes(fonts, scale, path, available_rect, cache);
        } else if index == 3 {
            self.3.lemma_records_nodes(fonts, scale, path, available_rect, cache);
        } else if index == 4 {
            self.4.lemma_records_nodes(fonts, scale, path, available_rect, cache);
        } else if index == 5 {
            self.5.lemma_records_nodes(fonts, scale, path, available_rect, cache);
        } else if index == 6 {
            self.6.lemma_records_nodes(fonts, scale, path, available_rect, cache);
        } else if index == 7 {
            self.7.lemma_records_nodes(fonts, scale, path, available_rect, cache);
        } else if index == 8 {
            self.8.lemma_records_nodes(fonts, scale, path, available_rect, cache);
        } else if index == 9 {
            self.9.lemma_records_nodes(fonts, scale, path, available_rect, cache);
        } else if index == 10 {
            self.10.lemma_records_nodes(fonts, scale, path, available_rect, cache);
        } else if index == 11 {
            self.11.lemma_records_nodes(fonts, scale, path, available_rect, cache);
        } else {
            self.12.lemma_records_nodes(fonts, scale, path, available_rect, cache);
        }
    }

    fn len(&self) -> (n: usize) {
        13
    }

    fn layout_at(
        &self,
        lctx: &mut LayoutContext,
        cache: &mut IdManager,
        available_rect: Rect,
        index: usize,
    ) -> (used_rect: Rect) {
        if index == 0 {
            self.0.layout(lctx, cache, available_rect)
        } else if index == 1 {
            self.1.layout(lctx, cache, available_rect)
        } else if index == 2 {
            self.2.layout(lctx, cache, available_rect)
        } else if index == 3 {
            self.3.layout(lctx, cache, available_rect)
        } else if index == 4 {
            self.4.layout(lctx, cache, available_rect)
        } else if index == 5 {
            self.5.layout(lctx, cache, available_rect)
        } else if index == 6 {
            self.6.layout(lctx, cache, available_rect)
        } else if index == 7 {
            self.7.layout(lctx, cache, available_rect)
        } else if index == 8 {
            self.8.layout(lctx, cache, available_rect)
        } else if index == 9 {
            self.9.layout(lctx, cache, available_rect)
        } else if index == 10 {
            self.10.layout(lctx, cache, available_rect)
        } else if index == 11 {
            self.11.layout(lctx, cache, available_rect)
        } else {
            self.12.layout(lctx, cache, available_rect)
        }
    }

    fn draw_at(&self, dctx: &mut DrawingContext, cache: &IdManager, index: usize) {
        if index == 0 {
            self.0.draw(dctx, cache);
        } else if index == 1 {
            self.1.draw(dctx, cache);
        } else if index == 2 {
            self.2.draw(dctx, cache);
        } else if index == 3 {
            self.3.draw(dctx, cache);
        } else if index == 4 {
            self.4.draw(dctx, cache);
        } else if index == 5 {
            self.5.draw(dctx, cache);
        } else if index == 6 {
            self.6.draw(dctx, cache);
        } else if index == 7 {
            self.7.draw(dctx, cache);
        } else if index == 8 {
            self.8.draw(dctx, cache);
        } else if index == 9 {
            self.9.draw(dctx, cache);
        } else if index == 10 {
            self.10.draw(dctx, cache);
        } else if index == 11 {
            self.11.draw(dctx, cache);
        } else {
            self.12.draw(dctx, cache);
        }
    }

    fn is_leaf_at(&self, index: usize) -> (leaf: bool) {
        if index == 0 {
            self.0.is_leaf()
        } else if index == 1 {
            self.1.is_leaf()
        } else if index == 2 {
            self.2.is_leaf()
        } else if index == 3 {
            self.3.is_leaf()
        } else if index == 4 {
            self.4.is_leaf()
        } else if index == 5 {
            self.5.is_leaf()
        } else if index == 6 {
            self.6.is_leaf()
        } else if index == 7 {
            self.7.is_leaf()
        } else if index == 8 {
            self.8.is_leaf()
        } else if index == 9 {
            self.9.is_leaf()
        } else if index == 10 {
            self.10.is_leaf()
        } else if index == 11 {
            self.11.is_leaf()
        } else {
            self.12.is_leaf()
        }
    }
}

impl<E0: Element + View, E1: Element + View, E2: Element + View, E3: Element + View, E4: Element + View, E5: Element + View, E6: Element + View, E7: Element + View, E8: Element + View, E9: Element + View, E10: Element + View, E11: Element + View, E12: Element + View> From<(E0, E1, E2, E3, E4, E5, E6, E7, E8, E9, E10, E11, E12)> for Multi13<E0, E1, E2, E3, E4, E5, E6, E7, E8, E9, E10, E11, E12> {
    fn from(value: (E0, E1, E2, E3, E4, E5, E6, E7, E8, E9, E10, E11, E12)) -> (children: Multi13<E0, E1, E2, E3, E4, E5, E6, E7, E8, E9, E10, E11, E12>) {
        Multi13(value.0, value.1, value.2, value.3, value.4, value.5, value.6, value.7, value.8, value.9, value.10, value.11, value.12)
    }
}

impl<E0: Element + View, E1: Element + View, E2: Element + View, E3: Element + View, E4: Element + View, E5: Element + View, E6: Element + View, E7: Element + View, E8: Element + View, E9: Element + View, E10: Element + View, E11: Element + View, E12: Element + View> FromSpecImpl<(E0, E1, E2, E3, E4, E5, E6, E7, E8, E9, E10, E11, E12)> for Multi13<E0, E1, E2, E3, E4, E5, E6, E7, E8, E9, E10, E11, E12> {
    open spec fn obeys_from_spec() -> bool {
        true
    }

    open spec fn from_spec(value: (E0, E1, E2, E3, E4, E5, E6, E7, E8, E9, E10, E11, E12)) -> Multi13<E0, E1, E2, E3, E4, E5, E6, E7, E8, E9, E10, E11, E12> {
        Multi13(value.0, value.1, value.2, value.3, value.4, value.5, value.6, value.7, value.8, value.9, value.10, value.11, value.12)
    }
}

impl<E0: Element + View, E1: Element + View, E2: Element + View, E3: Element + View, E4: Element + View, E5: Element + View, E6: Element + View, E7: Element + View, E8: Element + View, E9: Element + View, E10: Element + View, E11: Element + View, E12: Element + View> From<(E0, E1, E2, E3, E4, E5, E6, E7, E8, E9, E10, E11, E12)> for VStack<Multi13<E0, E1, E2, E3, E4, E5, E6, E7, E8, E9, E10, E11, E12>> {
    fn from(value: (E0, E1, E2, E3, E4, E5, E6, E7, E8, E9, E10, E11, E12)) -> (stack: VStack<Multi13<E0, E1, E2, E3, E4, E5, E6, E7, E8, E9, E10, E11, E12>>) {
        VStack { spacing: DEFAULT_SPACING, element: Multi13(value.0, value.1, value.2, value.3, value.4, value.5, value.6, value.7, value.8, value.9, value.10, value.11, value.12) }
    }
}

impl<E0: Element + View, E1: Element + View, E2: Element + View, E3: Element + View, E4: Element + View, E5: Element + View, E6: Element + View, E7: Element + View, E8: Element + View, E9: Element + View, E10: Element + View, E11: Element + View, E12: Element + View> FromSpecImpl<(E0, E1, E2, E3, E4, E5, E6, E7, E8, E9, E10, E11, E12)> for VStack<Multi13<E0, E1, E2, E3, E4, E5, E6, E7, E8, E9, E10, E11, E12>> {
    open spec fn obeys_from_spec() -> bool {
        true
    }

    open spec fn from_spec(value: (E0, E1, E2, E3, E4, E5, E6, E7, E8, E9, E10, E11, E12)) -> VStack<Multi13<E0, E1, E2, E3, E4, E5, E6, E7, E8, E9, E10, E11, E12>> {
        VStack { spacing: DEFAULT_SPACING, element: Multi13(value.0, value.1, value.2, value.3, value.4, value.5, value.6, value.7, value.8, value.9, value.10, value.11, value.12) }
    }
}

impl<E0: Element + View, E1: Element + View, E2: Element + View, E3: Element + View, E4: Element + View, E5: Element + View, E6: Element + View, E7: Element + View, E8: Element + View, E9: Element + View, E10: Element + View, E11: Element + View, E12: Element + View> From<(E0, E1, E2, E3, E4, E5, E6, E7, E8, E9, E10, E11, E12)> for HStack<Multi13<E0, E1, E2, E3, E4, E5, E6, E7, E8, E9, E10, E11, E12>> {
    fn from(value: (E0, E1, E2, E3, E4, E5, E6, E7, E8, E9, E10, E11, E12)) -> (stack: HStack<Multi13<E0, E1, E2, E3, E4, E5, E6, E7, E8, E9, E10, E11, E12>>) {
        HStack { spacing: DEFAULT_SPACING, element: Multi13(value.0, value.1, value.2, value.3, value.4, value.5, value.6, value.7, value.8, value.9, value.10, value.11, value.12) }
    }
}

impl<E0: Element + View, E1: Element + View, E2: Element + View, E3: Element + View, E4: Element + View, E5: Element + View, E6: Element + View, E7: Element + View, E8: Element + View, E9: Element + View, E10: Element + View, E11: Element + View, E12: Element + View> FromSpecImpl<(E0, E1, E2, E3, E4, E5, E6, E7, E8, E9, E10, E11, E12)> for HStack<Multi13<E0, E1, E2, E3, E4, E5, E6, E7, E8, E9, E10, E11, E12>> {
    open spec fn obeys_from_spec() -> bool {
        true
    }

    open spec fn from_spec(value: (E0, E1, E2, E3, E4, E5, E6, E7, E8, E9, E10, E11, E12)) -> HStack<Multi13<E0, E1, E2, E3, E4, E5, E6, E7, E8, E9, E10, E11, E12>> {
        HStack { spacing: DEFAULT_SPACING, element: Multi13(value.0, value.1, value.2, value.3, value.4, value.5, value.6, value.7, value.8, value.9, value.10, value.11, value.12) }
    }
}

/// Fourteen children, each of a type of its own.
pub struct Multi14<E0: Element + View, E1: Element + View, E2: Element + View, E3: Element + View, E4: Element + View, E5: Element + View, E6: Element + View, E7: Element + View, E8: Element + View, E9: Element + View, E10: Element + View, E11: Element + View, E12: Element + View, E13: Element + View>(pub E0, pub E1, pub E2, pub E3, pub E4, pub E5, pub E6, pub E7, pub E8, pub E9, pub E10, pub E11, pub E12, pub E13);

impl<E0: Element + View, E1: Element + View, E2: Element + View, E3: Element + View, E4: Element + View, E5: Element + View, E6: Element + View, E7: Element + View, E8: Element + View, E9: Element + View, E10: Element + View, E11: Element + View, E12: Element + View, E13: Element + View> ElementIterator for Multi14<E0, E1, E2, E3, E4, E5, E6, E7, E8, E9, E10, E11, E12, E13> {
    open spec fn count(&self) -> nat {
        14
    }

    open spec fn used_at(
        &self,
        fonts: FontManager,
        scale: ScaleFactor,
        available_rect: Rect,
        index: int,
    ) -> Rect {
        if index == 0 {
            self.0.used(fonts, scale, available_rect)
        } else if index == 1 {
            self.1.used(fonts, scale, available_rect)
        } else if index == 2 {
            self.2.used(fonts, scale, available_rect)
        } else if index == 3 {
            self.3.used(fonts, scale, available_rect)
        } else if index == 4 {
            self.4.used(fonts, scale, available_rect)
        } else if index == 5 {
            self.5.used(fonts, scale, available_rect)
        } else if index == 6 {
            self.6.used(fonts, scale, available_rect)
        } else if index == 7 {
            self.7.used(fonts, scale, available_rect)
        } else if index == 8 {
            self.8.used(fonts, scale, available_rect)
        } else if index == 9 {
            self.9.used(fonts, scale, available_rect)
        } else if index == 10 {
            self.10.used(fonts, scale, available_rect)
        } else if index == 11 {
            self.11.used(fonts, scale, available_rect)
        } else if index == 12 {
            self.12.used(fonts, scale, available_rect)
        } else if index == 13 {
            self.13.used(fonts, scale, available_rect)
        } else {
            Rect::zero()
        }
    }

    open spec fn writes_at(
        &self,
        fonts: FontManager,
        scale: ScaleFactor,
        path: Seq<u32>,
        available_rect: Rect,
        index: int,
    ) -> Seq<CacheOp> {
        if index == 0 {
            self.0.writes(fonts, scale, path, available_rect)
        } else if index == 1 {
            self.1.writes(fonts, scale, path, available_rect)
        } else if index == 2 {
            self.2.writes(fonts, scale, path, available_rect)
        } else if index == 3 {
            self.3.writes(fonts, scale, path, available_rect)
        } else if index == 4 {
            self.4.writes(fonts, scale, path, available_rect)
        } else if index == 5 {
            self.5.writes(fonts, scale, path, available_rect)
        } else if index == 6 {
            self.6.writes(fonts, scale, path, available_rect)
        } else if index == 7 {
            self.7.writes(fonts, scale, path, available_rect)
        } else if index == 8 {
            self.8.writes(fonts, scale, path, available_rect)
        } else if index == 9 {
            self.9.writes(fonts, scale, path, available_rect)
        } else if index == 10 {
            self.10.writes(fonts, scale, path, available_rect)
        } else if index == 11 {
            self.11.writes(fonts, scale, path, available_rect)
        } else if index == 12 {
            self.12.writes(fonts, scale, path, available_rect)
        } else if index == 13 {
            self.13.writes(fonts, scale, path, available_rect)
        } else {
            Seq::empty()
        }
    }

    open spec fn identities_at(&self, path: Seq<u32>, index: int) -> Seq<Seq<u32>> {
        if index == 0 {
            self.0.identities(path)
        } else if index == 1 {
            self.1.identities(path)
        } else if index == 2 {
            self.2.identities(path)
        } else if index == 3 {
            self.3.identities(path)
        } else if index == 4 {
            self.4.identities(path)
        } else if index == 5 {
            self.5.identities(path)
        } else if index == 6 {
            self.6.identities(path)
        } else if index == 7 {
            self.7.identities(path)
        } else if index == 8 {
            self.8.identities(path)
        } else if index == 9 {
            self.9.identities(path)
        } else if index == 10 {
            self.10.identities(path)
        } else if index == 11 {
            self.11.identities(path)
        } else if index == 12 {
            self.12.identities(path)
        } else if index == 13 {
            self.13.identities(path)
        } else {
            Seq::empty()
        }
    }

    open spec fn painted_at(
        &self,
        palette: Palette,
        fonts: FontManager,
        scale: ScaleFactor,
        path: Seq<u32>,
        cache: Map<Seq<u32>, Layout>,
        index: int,
    ) -> Seq<DrawCommand> {
        if index == 0 {
            self.0.painted(palette, fonts, scale, path, cache)
        } else if index == 1 {
            self.1.painted(palette, fonts, scale, path, cache)
        } else if index == 2 {
            self.2.painted(palette, fonts, scale, path, cache)
        } else if index == 3 {
            self.3.painted(palette, fonts, scale, path, cache)
        } else if index == 4 {
            self.4.painted(palette, fonts, scale, path, cache)
        } else if index == 5 {
            self.5.painted(palette, fonts, scale, path, cache)
        } else if index == 6 {
            self.6.painted(palette, fonts, scale, path, cache)
        } else if index == 7 {
            self.7.painted(palette, fonts, scale, path, cache)
        } else if index == 8 {
            self.8.painted(palette, fonts, scale, path, cache)
        } else if index == 9 {
            self.9.painted(palette, fonts, scale, path, cache)
        } else if index == 10 {
            self.10.painted(palette, fonts, scale, path, cache)
        } else if index == 11 {
            self.11.painted(palette, fonts, scale, path, cache)
        } else if index == 12 {
            self.12.painted(palette, fonts, scale, path, cache)
        } else if index == 13 {
            self.13.painted(palette, fonts, scale, path, cache)
        } else {
            Seq::empty()
        }
    }

    open spec fn leaf_at(&self, index: int) -> bool {
        if index == 0 {
            self.0.leaf()
        } else if index == 1 {
            self.1.leaf()
        } else if index == 2 {
            self.2.leaf()
        } else if index == 3 {
            self.3.leaf()
        } else if index == 4 {
            self.4.leaf()
        } else if index == 5 {
            self.5.leaf()
        } else if index == 6 {
            self.6.leaf()
        } else if index == 7 {
            self.7.leaf()
        } else if index == 8 {
            self.8.leaf()
        } else if index == 9 {
            self.9.leaf()
        } else if index == 10 {
            self.10.leaf()
        } else if index == 11 {
            self.11.leaf()
        } else if index == 12 {
            self.12.leaf()
        } else if index == 13 {
            self.13.leaf()
        } else {
            false
        }
    }

    proof fn lemma_count_fits(&self) {
    }

    proof fn lemma_stays_below_at(
        &self,
        fonts: FontManager,
        scale: ScaleFactor,
        path: Seq<u32>,
        available_rect: Rect,
        index: int,
    ) {
        if index == 0 {
            self.0.lemma_stays_below(fonts, scale, path, available_rect);
        } else if index == 1 {
            self.1.lemma_stays_below(fonts, scale, path, available_rect);
        } else if index == 2 {
            self.2.lemma_stays_below(fonts, scale, path, available_rect);
        } else if index == 3 {
            self.3.lemma_stays_below(fonts, scale, path, available_rect);
        } else if index == 4 {
            self.4.lemma_stays_below(fonts, scale, path, available_rect);
        } else if index == 5 {
            self.5.lemma_stays_below(fonts, scale, path, available_rect);
        } else if index == 6 {
            self.6.lemma_stays_below(fonts, scale, path, available_rect);
        } else if index == 7 {
            self.7.lemma_stays_below(fonts, scale, path, available_rect);
        } else if index == 8 {
            self.8.lemma_stays_below(fonts, scale, path, available_rect);
        } else if index == 9 {
            self.9.lemma_stays_below(fonts, scale, path, available_rect);
        } else if index == 10 {
            self.10.lemma_stays_below(fonts, scale, path, available_rect);
        } else if index == 11 {
            self.11.lemma_stays_below(fonts, scale, path, available_rect);
        } else if index == 12 {
            self.12.lemma_stays_below(fonts, scale, path, available_rect);
        } else {
            self.13.lemma_stays_below(fonts, scale, path, available_rect);
        }
    }

    proof fn lemma_records_nodes_at(
        &self,
        fonts: FontManager,
        scale: ScaleFactor,
        path: Seq<u32>,
        available_rect: Rect,
        cache: Map<Seq<u32>, Layout>,
        index: int,
    ) {
        if index == 0 {
            self.0.lemma_records_nodes(fonts, scale, path, available_rect, cache);
        } else if index == 1 {
            self.1.lemma_records_nodes(fonts, scale, path, available_rect, cache);
        } else if index == 2 {
            self.2.lemma_records_nodes(fonts, scale, path, available_rect, cache);
        } else if index == 3 {
            self.3.lemma_records_nodes(fonts, scale, path, available_rect, cache);
        } else if index == 4 {
            self.4.lemma_records_nodes(fonts, scale, path, available_rect, cache);
        } else if index == 5 {
            self.5.lemma_records_nodes(fonts, scale, path, available_rect, cache);
        } else if index == 6 {
            self.6.lemma_records_nodes(fonts, scale, path, available_rect, cache);
        } else if index == 7 {
            self.7.lemma_records_nodes(fonts, scale, path, available_rect, cache);
        } else if index == 8 {
            self.8.lemma_records_nodes(fonts, scale, path, available_rect, cache);
        } else if index == 9 {
            self.9.lemma_records_nodes(fonts, scale, path, available_rect, cache);
        } else if index == 10 {
            self.10.lemma_records_nodes(fonts, scale, path, available_rect, cache);
        } else if index == 11 {
            self.11.lemma_records_nodes(fonts, scale, path, available_rect, cache);
        } else if index == 12 {
            self.12.lemma_records_nodes(fonts, scale, path, available_rect, cache);
        } else {
            self.13.lemma_records_nodes(fonts, scale, path, available_rect, cache);
        }
    }

    fn len(&self) -> (n: usize) {
        14
    }

    fn layout_at(
        &self,
        lctx: &mut LayoutContext,
        cache: &mut IdManager,
        available_rect: Rect,
        index: usize,
    ) -> (used_rect: Rect) {
        if index == 0 {
            self.0.layout(lctx, cache, available_rect)
        } else if index == 1 {
            self.1.layout(lctx, cache, available_rect)
        } else if index == 2 {
            self.2.layout(lctx, cache, available_rect)
        } else if index == 3 {
            self.3.layout(lctx, cache, available_rect)
        } else if index == 4 {
            self.4.layout(lctx, cache, available_rect)
        } else if index == 5 {
            self.5.layout(lctx, cache, available_rect)
        } else if index == 6 {
            self.6.layout(lctx, cache, available_rect)
        } else if index == 7 {
            self.7.layout(lctx, cache, available_rect)
        } else if index == 8 {
            self.8.layout(lctx, cache, available_rect)
        } else if index == 9 {
            self.9.layout(lctx, cache, available_rect)
        } else if index == 10 {
            self.10.layout(lctx, cache, available_rect)
        } else if index == 11 {
            self.11.layout(lctx, cache, available_rect)
        } else if index == 12 {
            self.12.layout(lctx, cache, available_rect)
        } else {
            self.13.layout(lctx, cache, available_rect)
        }
    }

    fn draw_at(&self, dctx: &mut DrawingContext, cache: &IdManager, index: usize) {
        if index == 0 {
            self.0.draw(dctx, cache);
        } else if index == 1 {
            self.1.draw(dctx, cache);
        } else if index == 2 {
            self.2.draw(dctx, cache);
        } else if index == 3 {
            self.3.draw(dctx, cache);
        } else if index == 4 {
            self.4.draw(dctx, cache);
        } else if index == 5 {
            self.5.draw(dctx, cache);
        } else if index == 6 {
            self.6.draw(dctx, cache);
        } else if index == 7 {
            self.7.draw(dctx, cache);
        } else if index == 8 {
            self.8.draw(dctx, cache);
        } else if index == 9 {
            self.9.draw(dctx, cache);
        } else if index == 10 {
            self.10.draw(dctx, cache);
        } else if index == 11 {
            self.11.draw(dctx, cache);
        } else if index == 12 {
            self.12.draw(dctx, cache);
        } else {
            self.13.draw(dctx, cache);
        }
    }

    fn is_leaf_at(&self, index: usize) -> (leaf: bool) {
        if index == 0 {
            self.0.is_leaf()
        } else if index == 1 {
            self.1.is_leaf()
        } else if index == 2 {
            self.2.is_leaf()
        } else if index == 3 {
            self.3.is_leaf()
        } else if index == 4 {
            self.4.is_leaf()
        } else if index == 5 {
            self.5.is_leaf()
        } else if index == 6 {
            self.6.is_leaf()
        } else if index == 7 {
            self.7.is_leaf()
        } else if index == 8 {
            self.8.is_leaf()
        } else if index == 9 {
            self.9.is_leaf()
        } else if index == 10 {
            self.10.is_leaf()
        } else if index == 11 {
            self.11.is_leaf()
        } else if index == 12 {
            self.12.is_leaf()
        } else {
            self.13.is_leaf()
        }
    }
}

impl<E0: Element + View, E1: Element + View, E2: Element + View, E3: Element + View, E4: Element + View, E5: Element + View, E6: Element + View, E7: Element + View, E8: Element + View, E9: Element + View, E10: Element + View, E11: Element + View, E12: Element + View, E13: Element + View> From<(E0, E1, E2, E3, E4, E5, E6, E7, E8, E9, E10, E11, E12, E13)> for Multi14<E0, E1, E2, E3, E4, E5, E6, E7, E8, E9, E10, E11, E12, E13> {
    fn from(value: (E0, E1, E2, E3, E4, E5, E6, E7, E8, E9, E10, E11, E12, E13)) -> (children: Multi14<E0, E1, E2, E3, E4, E5, E6, E7, E8, E9, E10, E11, E12, E13>) {
        Multi14(value.0, value.1, value.2, value.3, value.4, value.5, value.6, value.7, value.8, value.9, value.10, value.11, value.12, value.13)
    }
}

impl<E0: Element + View, E1: Element + View, E2: Element + View, E3: Element + View, E4: Element + View, E5: Element + View, E6: Element + View, E7: Element + View, E8: Element + View, E9: Element + View, E10: Element + View, E11: Element + View, E12: Element + View, E13: Element + View> FromSpecImpl<(E0, E1, E2, E3, E4, E5, E6, E7, E8, E9, E10, E11, E12, E13)> for Multi14<E0, E1, E2, E3, E4, E5, E6, E7, E8, E9, E10, E11, E12, E13> {
    open spec fn obeys_from_spec() -> bool {
        true
    }

    open spec fn from_spec(value: (E0, E1, E2, E3, E4, E5, E6, E7, E8, E9, E10, E11, E12, E13)) -> Multi14<E0, E1, E2, E3, E4, E5, E6, E7, E8, E9, E10, E11, E12, E13> {
        Multi14(value.0, value.1, value.2, value.3, value.4, value.5, value.6, value.7, value.8, value.9, value.10, value.11, value.12, value.13)
    }
}

impl<E0: Element + View, E1: Element + View, E2: Element + View, E3: Element + View, E4: Element + View, E5: Element + View, E6: Element + View, E7: Element + View, E8: Element + View, E9: Element + View, E10: Element + View, E11: Element + View, E12: Element + View, E13: Element + View> From<(E0, E1, E2, E3, E4, E5, E6, E7, E8, E9, E10, E11, E12, E13)> for VStack<Multi14<E0, E1, E2, E3, E4, E5, E6, E7, E8, E9, E10, E11, E12, E13>> {
    fn from(value: (E0, E1, E2, E3, E4, E5, E6, E7, E8, E9, E10, E11, E12, E13)) -> (stack: VStack<Multi14<E0, E1, E2, E3, E4, E5, E6, E7, E8, E9, E10, E11, E12, E13>>) {
        VStack { spacing: DEFAULT_SPACING, element: Multi14(value.0, value.1, value.2, value.3, value.4, value.5, value.6, value.7, value.8, value.9, value.10, value.11, value.12, value.13) }
    }
}

impl<E0: Element + View, E1: Element + View, E2: Element + View, E3: Element + View, E4: Element + View, E5: Element + View, E6: Element + View, E7: Element + View, E8: Element + View, E9: Element + View, E10: Element + View, E11: Element + View, E12: Element + View, E13: Element + View> FromSpecImpl<(E0, E1, E2, E3, E4, E5, E6, E7, E8, E9, E10, E11, E12, E13)> for VStack<Multi14<E0, E1, E2, E3, E4, E5, E6, E7, E8, E9, E10, E11, E12, E13>> {
    open spec fn obeys_from_spec() -> bool {
        true
    }

    open spec fn from_spec(value: (E0, E1, E2, E3, E4, E5, E6, E7, E8, E9, E10, E11, E12, E13)) -> VStack<Multi14<E0, E1, E2, E3, E4, E5, E6, E7, E8, E9, E10, E11, E12, E13>> {
        VStack { spacing: DEFAULT_SPACING, element: Multi14(value.0, value.1, value.2, value.3, value.4, value.5, value.6, value.7, value.8, value.9, value.10, value.11, value.12, value.13) }
    }
}

impl<E0: Element + View, E1: Element + View, E2: Element + View, E3: Element + View, E4: Element + View, E5: Element + View, E6: Element + View, E7: Element + View, E8: Element + View, E9: Element + View, E10: Element + View, E11: Element + View, E12: Element + View, E13: Element + View> From<(E0, E1, E2, E3, E4, E5, E6, E7, E8, E9, E10, E11, E12, E13)> for HStack<Multi14<E0, E1, E2, E3, E4, E5, E6, E7, E8, E9, E10, E11, E12, E13>> {
    fn from(value: (E0, E1, E2, E3, E4, E5, E6, E7, E8, E9, E10, E11, E12, E13)) -> (stack: HStack<Multi14<E0, E1, E2, E3, E4, E5, E6, E7, E8, E9, E10, E11, E12, E13>>) {
        HStack { spacing: DEFAULT_SPACING, element: Multi14(value.0, value.1, value.2, value.3, value.4, value.5, value.6, value.7, value.8, value.9, value.10, value.11, value.12, value.13) }
    }
}

impl<E0: Element + View, E1: Element + View, E2: Element + View, E3: Element + View, E4: Element + View, E5: Element + View, E6: Element + View, E7: Element + View, E8: Element + View, E9: Element + View, E10: Element + View, E11: Element + View, E12: Element + View, E13: Element + View> FromSpecImpl<(E0, E1, E2, E3, E4, E5, E6, E7, E8, E9, E10, E11, E12, E13)> for HStack<Multi14<E0, E1, E2, E3, E4, E5, E6, E7, E8, E9, E10, E11, E12, E13>> {
    open spec fn obeys_from_spec() -> bool {
        true
    }

    open spec fn from_spec(value: (E0, E1, E2, E3, E4, E5, E6, E7, E8, E9, E10, E11, E12, E13)) -> HStack<Multi14<E0, E1, E2, E3, E4, E5, E6, E7, E8, E9, E10, E11, E12, E13>> {
        HStack { spacing: DEFAULT_SPACING, element: Multi14(value.0, value.1, value.2, value.3, value.4, value.5, value.6, value.7, value.8, value.9, value.10, value.11, value.12, value.13) }
    }
}

} // verus!
