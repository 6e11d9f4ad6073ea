//! What a traversal carries with it: the structural path of the node it is
//! at, the guards that keep that path balanced, and the scene that the draw
//! pass appends to.

use vstd::prelude::*;
use vello::peniko::Brush;
use crate::geometry::Rect;
use crate::geometry::ScaleFactor;
use crate::layout::Id;
use crate::simple_text::FontManager;

verus! {

/// peniko's `Brush`, carried through as it is: the library hands brushes
/// on to the scene and never looks inside one.
#[verifier::external_type_specification]
#[verifier::external_body]
pub struct ExBrush(vello::peniko::Brush);

/// peniko's `Clone` for `Brush`: the copy is the same brush as the one it
/// was made from.
pub assume_specification[ <vello::peniko::Brush as Clone>::clone ](
    brush: &vello::peniko::Brush,
) -> (copy: vello::peniko::Brush)
    ensures
        copy == *brush,
;

/// One entry of a scene.
#[derive(Debug, PartialEq)]
pub enum DrawCommand {
    /// Fill `rect` with `brush`.
    Fill { brush: Brush, rect: Rect },
    /// Place glyph `glyph` of the face at `size` units per em with its origin
    /// at `(x, y)`, in `ink` where one is given.
    Glyph { glyph: u16, x: i64, y: i64, size: u32, ink: Option<Brush> },
}

/// An append-only list of draw commands. The library never reads it back.
#[derive(Debug)]
pub struct SceneBuilder {
    pub commands: Vec<DrawCommand>,
}

impl View for SceneBuilder {
    type V = Seq<DrawCommand>;

    open spec fn view(&self) -> Seq<DrawCommand> {
        self.commands@
    }
}

impl SceneBuilder {
    /// A scene without commands.
    pub fn new() -> (scene: SceneBuilder)
        ensures
            scene@ == Seq::<DrawCommand>::empty(),
    {
        SceneBuilder { commands: Vec::new() }
    }

    /// Appends a fill of `shape` with `brush`.
    pub fn fill(&mut self, brush: &Brush, shape: Rect)
        ensures
            final(self)@ == old(self)@.push((DrawCommand::Fill { brush: *brush, rect: shape })),
    {
        self.commands.push(DrawCommand::Fill { brush: brush.clone(), rect: shape });
    }

    /// Appends one glyph.
    pub fn glyph(&mut self, glyph: u16, x: i64, y: i64, size: u32, brush: Option<&Brush>)
        ensures
            final(self)@ == old(self)@.push(
                (DrawCommand::Glyph { glyph, x, y, size, ink: owned_brush(brush) }),
            ),
    {
        let ink = match brush {
            Some(b) => Some(b.clone()),
            None => None,
        };
        self.commands.push(DrawCommand::Glyph { glyph, x, y, size, ink });
    }
}

/// The brush behind an optional reference.
pub open spec fn owned_brush(brush: Option<&Brush>) -> Option<Brush> {
    match brush {
        Some(b) => Some(*b),
        None => None,
    }
}

/// The identities behind a list of snapshots.
pub open spec fn ids(log: Seq<Id>) -> Seq<Seq<u32>> {
    log.map_values(|id: Id| id@)
}

/// Appending a snapshot appends its identity.
pub proof fn lemma_ids_push(log: Seq<Id>, id: Id)
    ensures
        ids(log.push(id)) == ids(log).push(id@),
{
    assert(ids(log.push(id)) =~= ids(log).push(id@));
}

/// Cutting a list of snapshots cuts the list of identities.
pub proof fn lemma_ids_prefix(log: Seq<Id>, n: int)
    requires
        0 <= n <= log.len(),
    ensures
        ids(log.subrange(0, n)) == ids(log).subrange(0, n),
{
    assert(ids(log.subrange(0, n)) =~= ids(log).subrange(0, n));
}

/// `path` with a zero segment appended: the path of the first child.
pub open spec fn pushed(path: Seq<u32>) -> Seq<u32> {
    path.push(0u32)
}

/// `path` with its last segment replaced by `index`.
pub open spec fn with_last(path: Seq<u32>, index: u32) -> Seq<u32> {
    path.update(path.len() - 1, index)
}

/// What the layout pass carries from node to node.
#[derive(Debug)]
pub struct LayoutContext<'a> {
    /// Measures text.
    pub font_manager: &'a FontManager,
    /// Path of the node the traversal is at.
    pub path: Vec<u32>,
    /// Identity of every node entered so far, in order.
    pub visited: Vec<Id>,
    /// Ratio between configured units and layout units.
    pub scale_factor: ScaleFactor,
}

impl<'a> LayoutContext<'a> {
    /// A context at the node `path`, with nothing visited yet.
    pub fn new(font_manager: &'a FontManager, path: Vec<u32>, scale_factor: ScaleFactor) -> (lctx:
        LayoutContext<'a>)
        ensures
            lctx.font_manager == font_manager,
            lctx.path@ == path@,
            lctx.visited@ == Seq::<Id>::empty(),
            lctx.scale_factor == scale_factor,
    {
        LayoutContext { font_manager, path, visited: Vec::new(), scale_factor }
    }

    /// This context has the fonts, scale and path of `before`, and has
    /// entered the nodes `seen` since.
    pub open spec fn follows(self, before: LayoutContext<'a>, seen: Seq<Seq<u32>>) -> bool {
        &&& self.font_manager == before.font_manager
        &&& self.scale_factor == before.scale_factor
        &&& self.path@ == before.path@
        &&& ids(self.visited@) == ids(before.visited@) + seen
    }

    /// Appends a zero segment to the path and hands out the guard that takes
    /// it off again.
    pub fn push(&mut self) -> (guard: LayoutPathPusher<'_>)
        ensures
            guard.0@ == pushed(old(self).path@),
            final(self).path@ == final(guard.0)@,
            final(self).font_manager == old(self).font_manager,
            final(self).scale_factor == old(self).scale_factor,
            final(self).visited@ == old(self).visited@,
    {
        self.path.push(0);
        LayoutPathPusher::new(self)
    }

    /// A snapshot of the current path, by value.
    pub fn id(&self) -> (id: Id)
        ensures
            id@ == self.path@,
    {
        Id::from(self.path.clone())
    }

    /// Notes that the traversal has entered the node at the current path.
    pub fn enter(&mut self)
        ensures
            final(self).follows(*old(self), seq![old(self).path@]),
    {
        let id = self.id();
        proof {
            lemma_ids_push(self.visited@, id);
            assert(ids(self.visited@).push(id@) =~= ids(self.visited@) + seq![id@]);
        }
        self.visited.push(id);
    }
}

/// Guard over a path segment of the layout pass. While it lives the path is
/// reached through it; `release` takes the segment off again.
pub struct LayoutPathPusher<'a>(pub &'a mut Vec<u32>);

impl<'a> LayoutPathPusher<'a> {
    /// A guard over the last segment of the path of `dctx`.
    pub fn new<'b>(dctx: &'a mut LayoutContext<'b>) -> (guard: LayoutPathPusher<'a>)
        ensures
            guard.0@ == old(dctx).path@,
            final(dctx).path@ == final(guard.0)@,
            final(dctx).font_manager == old(dctx).font_manager,
            final(dctx).scale_factor == old(dctx).scale_factor,
            final(dctx).visited@ == old(dctx).visited@,
    {
        LayoutPathPusher(&mut dctx.path)
    }

    /// Overwrites the guarded segment with `index`.
    pub fn set_last(&mut self, index: u32)
        requires
            old(self).0@.len() > 0,
        ensures
            final(self).0@ == with_last(old(self).0@, index),
            final(final(self).0)@ == final(old(self).0)@,
    {
        let n: usize = self.0.len();
        self.0[n - 1] = index;
    }

    /// Takes the guarded segment off the path and ends the guard.
    pub fn release(self)
        requires
            old(self.0)@.len() > 0,
        ensures
            final(self.0)@ == old(self.0)@.drop_last(),
    {
        let LayoutPathPusher(path) = self;
        path.pop();
    }
}

/// The brushes that a node inherits from the nodes above it.
pub ghost struct Palette {
    pub background: Brush,
    pub fill: Brush,
    pub foreground: Brush,
}

/// What the draw pass carries from node to node.
#[derive(Debug)]
pub struct DrawingContext<'a> {
    /// The scene under construction.
    pub builder: SceneBuilder,
    /// Path of the node the traversal is at.
    pub path: Vec<u32>,
    /// Identity of every node entered so far, in order.
    pub visited: Vec<Id>,
    /// Places glyphs.
    pub font_manager: &'a FontManager,
    /// Fills padding.
    pub background_brush: Brush,
    /// Fills shapes.
    pub fill_brush: Brush,
    /// Colours text.
    pub foreground_color: Brush,
    /// The viewport.
    pub bounding: Rect,
    pub first: bool,
    /// Ratio between configured units and layout units.
    pub scale_factor: ScaleFactor,
}

impl<'a> DrawingContext<'a> {
    /// A context at the node `path`, with an empty scene and nothing visited.
    pub fn new(
        font_manager: &'a FontManager,
        path: Vec<u32>,
        background_brush: Brush,
        fill_brush: Brush,
        foreground_color: Brush,
        bounding: Rect,
        scale_factor: ScaleFactor,
    ) -> (dctx: DrawingContext<'a>)
        ensures
            dctx.builder@ == Seq::<DrawCommand>::empty(),
            dctx.path@ == path@,
            dctx.visited@ == Seq::<Id>::empty(),
            dctx.font_manager == font_manager,
            dctx.background_brush == background_brush,
            dctx.fill_brush == fill_brush,
            dctx.foreground_color == foreground_color,
            dctx.bounding == bounding,
            dctx.first,
            dctx.scale_factor == scale_factor,
    {
        DrawingContext {
            builder: SceneBuilder::new(),
            path,
            visited: Vec::new(),
            font_manager,
            background_brush,
            fill_brush,
            foreground_color,
            bounding,
            first: true,
            scale_factor,
        }
    }

    /// The brushes that the node at the current path inherits.
    pub open spec fn palette(&self) -> Palette {
        Palette {
            background: self.background_brush,
            fill: self.fill_brush,
            foreground: self.foreground_color,
        }
    }

    /// This context is `before` but for its scene and its record of visits:
    /// the scene has gained the commands `painted`, and the nodes `seen` were
    /// entered.
    pub open spec fn follows(
        self,
        before: DrawingContext<'a>,
        seen: Seq<Seq<u32>>,
        painted: Seq<DrawCommand>,
    ) -> bool {
        &&& self.builder@ == before.builder@ + painted
        &&& ids(self.visited@) == ids(before.visited@) + seen
        &&& self.path@ == before.path@
        &&& self.font_manager == before.font_manager
        &&& self.background_brush == before.background_brush
        &&& self.fill_brush == before.fill_brush
        &&& self.foreground_color == before.foreground_color
        &&& self.bounding == before.bounding
        &&& self.first == before.first
        &&& self.scale_factor == before.scale_factor
    }

    /// Appends a zero segment to the path and hands out the guard that takes
    /// it off again.
    pub fn push(&mut self) -> (guard: PathPusher<'_>)
        ensures
            guard.0@ == pushed(old(self).path@),
            final(self).path@ == final(guard.0)@,
            final(self).builder == old(self).builder,
            final(self).visited == old(self).visited,
            final(self).font_manager == old(self).font_manager,
            final(self).background_brush == old(self).background_brush,
            final(self).fill_brush == old(self).fill_brush,
            final(self).foreground_color == old(self).foreground_color,
            final(self).bounding == old(self).bounding,
            final(self).first == old(self).first,
            final(self).scale_factor == old(self).scale_factor,
    {
        self.path.push(0);
        PathPusher::new(self)
    }

    /// A snapshot of the current path, by value.
    pub fn id(&self) -> (id: Id)
        ensures
            id@ == self.path@,
    {
        Id::from(self.path.clone())
    }

    /// Notes that the traversal has entered the node at the current path.
    pub fn enter(&mut self)
        ensures
            final(self).follows(*old(self), seq![old(self).path@], Seq::<DrawCommand>::empty()),
    {
        let id = self.id();
        proof {
            lemma_ids_push(self.visited@, id);
            assert(ids(self.visited@).push(id@) =~= ids(self.visited@) + seq![id@]);
        }
        self.visited.push(id);
        assert(self.builder@ =~= old(self).builder@ + Seq::<DrawCommand>::empty());
    }
}

/// Guard over a path segment of the draw pass. While it lives the path is
/// reached through it; `release` takes the segment off again.
pub struct PathPusher<'a>(pub &'a mut Vec<u32>);

impl<'a> PathPusher<'a> {
    /// A guard over the last segment of the path of `dctx`.
    pub fn new<'b>(dctx: &'a mut DrawingContext<'b>) -> (guard: PathPusher<'a>)
        ensures
            guard.0@ == old(dctx).path@,
            final(dctx).path@ == final(guard.0)@,
            final(dctx).builder == old(dctx).builder,
            final(dctx).visited == old(dctx).visited,
            final(dctx).font_manager == old(dctx).font_manager,
            final(dctx).background_brush == old(dctx).background_brush,
            final(dctx).fill_brush == old(dctx).fill_brush,
            final(dctx).foreground_color == old(dctx).foreground_color,
            final(dctx).bounding == old(dctx).bounding,
            final(dctx).first == old(dctx).first,
            final(dctx).scale_factor == old(dctx).scale_factor,
    {
        PathPusher(&mut dctx.path)
    }

    /// Overwrites the guarded segment with `index`.
    pub fn set_last(&mut self, index: u32)
        requires
            old(self).0@.len() > 0,
        ensures
            final(self).0@ == with_last(old(self).0@, index),
            final(final(self).0)@ == final(old(self).0)@,
    {
        let n: usize = self.0.len();
        self.0[n - 1] = index;
    }

    /// Takes the guarded segment off the path and ends the guard.
    pub fn release(self)
        requires
            old(self.0)@.len() > 0,
        ensures
            final(self.0)@ == old(self.0)@.drop_last(),
    {
        let PathPusher(path) = self;
        path.pop();
    }
}

/// One step that a traversal takes on its path.
pub enum PathStep {
    /// Append a zero segment.
    Push,
    /// Overwrite the last segment.
    SetLast(u32),
    /// Take the last segment off.
    Pop,
}

/// The path after one step.
pub open spec fn path_step(path: Seq<u32>, step: PathStep) -> Seq<u32> {
    match step {
        PathStep::Push => pushed(path),
        PathStep::SetLast(index) => with_last(path, index),
        PathStep::Pop => path.drop_last(),
    }
}

/// The path after a run of steps, taken first to last.
pub open spec fn path_after(path: Seq<u32>, steps: Seq<PathStep>) -> Seq<u32>
    decreases steps.len(),
{
    if steps.len() == 0 {
        path
    } else {
        path_step(path_after(path, steps.drop_last()), steps.last())
    }
}

/// How many segments a run of steps has pushed and not yet popped.
pub open spec fn open_segments(steps: Seq<PathStep>) -> int
    decreases steps.len(),
{
    if steps.len() == 0 {
        0
    } else {
        open_segments(steps.drop_last()) + match steps.last() {
            PathStep::Push => 1int,
            PathStep::SetLast(index) => 0int,
            PathStep::Pop => -1int,
        }
    }
}

/// The steps come in last-in-first-out order: each pop and each overwrite
/// acts on a segment that an earlier push of the same run put there.
pub open spec fn lifo(steps: Seq<PathStep>) -> bool
    decreases steps.len(),
{
    if steps.len() == 0 {
        true
    } else {
        lifo(steps.drop_last()) && (steps.last() is Push || open_segments(steps.drop_last()) >= 1)
    }
}

/// However far a run of steps in last-in-first-out order has come, the
/// path it started from still stands below the segments that are open, so
/// that taking those off, as an unwinding does, restores it.
pub proof fn lemma_path_unwinds(path: Seq<u32>, steps: Seq<PathStep>)
    requires
        lifo(steps),
    ensures
        open_segments(steps) >= 0,
        path_after(path, steps).len() == path.len() + open_segments(steps),
        path_after(path, steps).subrange(0, path.len() as int) == path,
    decreases steps.len(),
{
    if steps.len() == 0 {
        assert(path.subrange(0, path.len() as int) =~= path);
    } else {
        lemma_path_unwinds(path, steps.drop_last());
        let before = path_after(path, steps.drop_last());
        let after = path_after(path, steps);
        assert(after.subrange(0, path.len() as int) =~= before.subrange(0, path.len() as int));
    }
}

/// A run of pushes and pops in last-in-first-out order that pops all it
/// pushed leaves the path as it found it.
pub proof fn lemma_path_round_trip(path: Seq<u32>, steps: Seq<PathStep>)
    requires
        lifo(steps),
        open_segments(steps) == 0,
    ensures
        path_after(path, steps) == path,
{
    lemma_path_unwinds(path, steps);
    assert(path_after(path, steps) =~= path_after(path, steps).subrange(0, path.len() as int));
}

} // verus!
