//! A declarative layout and draw engine for trees of small views.
//!
//! Every node of a view tree is addressed by its structural path. A layout
//! pass records the geometry of each node in a cache keyed by that path, and
//! the draw pass that follows reads it back under the same path.
//!
//! Geometry is kept in whole layout units; sums and differences that would
//! leave the coordinate range stop at its ends.
//!
//! - [`geometry`]: rectangles, sizes, insets and the scale factor.
//! - [`layout`]: the record of a node, its identity, and the cache.
//! - [`drawing`]: the contexts of the two passes, the path guards, the scene.
//! - [`simple_text`]: faces, and the measuring and placing of text.
//! - [`view`]: the composition protocol, shapes, text, modifiers and frames.
//! - [`stack`]: stacks, and what a stack asks of its children.
//! - [`multi`]: runs of two to fourteen children of different types.
//! - [`pass`]: the two passes of a frame, and what holds of them together.

pub mod defaults;
pub mod drawing;
pub mod geometry;
pub mod layout;
pub mod multi;
pub mod pass;
pub mod simple_text;
pub mod stack;
pub mod view;

use vstd::prelude::*;

verus! {

/// Where a child sits along the horizontal axis of a frame.
#[derive(Clone, Copy, Debug, PartialEq, Eq, Structural)]
pub enum HorizontalAlignment {
    Leading,
    Trailing,
    Center,
}

/// Where a child sits along the vertical axis of a frame.
#[derive(Clone, Copy, Debug, PartialEq, Eq, Structural)]
pub enum VerticalALignment {
    Top,
    Bottom,
    Center,
}

/// Where a child sits inside a frame.
#[derive(Clone, Copy, Debug, PartialEq, Eq, Structural)]
pub struct Alignment {
    pub horizontal: HorizontalAlignment,
    pub vertical: VerticalALignment,
}

impl Default for Alignment {
    fn default() -> (alignment: Alignment)
        ensures
            alignment == Alignment::center(),
    {
        Alignment::center()
    }
}

impl Alignment {
    /// The alignment with the given place on each axis.
    pub open spec fn at(horizontal: HorizontalAlignment, vertical: VerticalALignment) -> Alignment {
        Alignment { horizontal, vertical }
    }

    pub open spec fn spec_leading() -> Alignment {
        Alignment::at(HorizontalAlignment::Leading, VerticalALignment::Center)
    }

    /// At the leading edge, centred vertically.
    #[verifier::when_used_as_spec(spec_leading)]
    pub fn leading() -> (alignment: Alignment)
        ensures
            alignment == Alignment::spec_leading(),
    {
        Alignment { horizontal: HorizontalAlignment::Leading, vertical: VerticalALignment::Center }
    }

    pub open spec fn spec_trailing() -> Alignment {
        Alignment::at(HorizontalAlignment::Trailing, VerticalALignment::Center)
    }

    /// At the trailing edge, centred vertically.
    #[verifier::when_used_as_spec(spec_trailing)]
    pub fn trailing() -> (alignment: Alignment)
        ensures
            alignment == Alignment::spec_trailing(),
    {
        Alignment { horizontal: HorizontalAlignment::Trailing, vertical: VerticalALignment::Center }
    }

    pub open spec fn spec_center() -> Alignment {
        Alignment::at(HorizontalAlignment::Center, VerticalALignment::Center)
    }

    /// Centred on both axes.
    #[verifier::when_used_as_spec(spec_center)]
    pub fn center() -> (alignment: Alignment)
        ensures
            alignment == Alignment::spec_center(),
    {
        Alignment { horizontal: HorizontalAlignment::Center, vertical: VerticalALignment::Center }
    }

    pub open spec fn spec_top() -> Alignment {
        Alignment::at(HorizontalAlignment::Center, VerticalALignment::Top)
    }

    /// At the top, centred horizontally.
    #[verifier::when_used_as_spec(spec_top)]
    pub fn top() -> (alignment: Alignment)
        ensures
            alignment == Alignment::spec_top(),
    {
        Alignment { horizontal: HorizontalAlignment::Center, vertical: VerticalALignment::Top }
    }

    pub open spec fn spec_bottom() -> Alignment {
        Alignment::at(HorizontalAlignment::Center, VerticalALignment::Bottom)
    }

    /// At the bottom, centred horizontally.
    #[verifier::when_used_as_spec(spec_bottom)]
    pub fn bottom() -> (alignment: Alignment)
        ensures
            alignment == Alignment::spec_bottom(),
    {
        Alignment { horizontal: HorizontalAlignment::Center, vertical: VerticalALignment::Bottom }
    }

    pub open spec fn spec_top_leading() -> Alignment {
        Alignment::at(HorizontalAlignment::Leading, VerticalALignment::Top)
    }

    /// In the top leading corner.
    #[verifier::when_used_as_spec(spec_top_leading)]
    pub fn top_leading() -> (alignment: Alignment)
        ensures
            alignment == Alignment::spec_top_leading(),
    {
        Alignment { horizontal: HorizontalAlignment::Leading, vertical: VerticalALignment::Top }
    }

    pub open spec fn spec_top_trailing() -> Alignment {
        Alignment::at(HorizontalAlignment::Trailing, VerticalALignment::Top)
    }

    /// In the top trailing corner.
    #[verifier::when_used_as_spec(spec_top_trailing)]
    pub fn top_trailing() -> (alignment: Alignment)
        ensures
            alignment == Alignment::spec_top_trailing(),
    {
        Alignment { horizontal: HorizontalAlignment::Trailing, vertical: VerticalALignment::Top }
    }

    pub open spec fn spec_bottom_leading() -> Alignment {
        Alignment::at(HorizontalAlignment::Leading, VerticalALignment::Bottom)
    }

    /// In the bottom leading corner.
    #[verifier::when_used_as_spec(spec_bottom_leading)]
    pub fn bottom_leading() -> (alignment: Alignment)
        ensures
            alignment == Alignment::spec_bottom_leading(),
    {
        Alignment { horizontal: HorizontalAlignment::Leading, vertical: VerticalALignment::Bottom }
    }

    pub open spec fn spec_bottom_trailing() -> Alignment {
        Alignment::at(HorizontalAlignment::Trailing, VerticalALignment::Bottom)
    }

    /// In the bottom trailing corner.
    #[verifier::when_used_as_spec(spec_bottom_trailing)]
    pub fn bottom_trailing() -> (alignment: Alignment)
        ensures
            alignment == Alignment::spec_bottom_trailing(),
    {
        Alignment { horizontal: HorizontalAlignment::Trailing, vertical: VerticalALignment::Bottom }
    }
}

} // verus!
