//! The geometry recorded for each node, the identity it is recorded under,
//! and the cache that holds the records between the two passes of a frame.

use vstd::prelude::*;
use vstd::std_specs::cmp::PartialEqSpecImpl;
use vstd::std_specs::convert::FromSpecImpl;
use crate::geometry::Rect;

verus! {

/// The space a node takes up on screen.
///
/// `border_bounds` is the whole footprint, `padding_bounds` what is left of
/// it inside the border, and `content_bounds` what is left for the node's own
/// content. A node without border or padding has all three equal.
#[derive(Clone, Copy, Debug, PartialEq, Eq, Structural)]
pub struct Layout {
    pub border_bounds: Rect,
    pub padding_bounds: Rect,
    pub content_bounds: Rect,
}

impl Layout {
    /// The record whose three rectangles are `rect`.
    pub open spec fn filled(rect: Rect) -> Layout {
        Layout { border_bounds: rect, padding_bounds: rect, content_bounds: rect }
    }

    /// The record a node without an entry reads back: three zero rectangles.
    pub open spec fn spec_zero() -> Layout {
        Layout::filled(Rect::zero())
    }

    /// The record a node without an entry reads back: three zero rectangles.
    #[verifier::when_used_as_spec(spec_zero)]
    pub fn zero() -> (layout: Layout)
        ensures
            layout == Layout::spec_zero(),
    {
        Layout {
            border_bounds: Rect::zero(),
            padding_bounds: Rect::zero(),
            content_bounds: Rect::zero(),
        }
    }

    /// The border encloses the padding, and the padding the content.
    pub open spec fn nested(self) -> bool {
        self.border_bounds.encloses(self.padding_bounds) && self.padding_bounds.encloses(
            self.content_bounds,
        )
    }
}

impl Default for Layout {
    fn default() -> (layout: Layout)
        ensures
            layout == Layout::zero(),
    {
        Layout::zero()
    }
}

/// The identity of a node: a snapshot of the structural path that leads to it.
#[derive(Debug, Hash, Eq)]
pub struct Id(Vec<u32>);

impl View for Id {
    type V = Seq<u32>;

    closed spec fn view(&self) -> Seq<u32> {
        self.0@
    }
}

/// Whether two paths have the same segments in the same order.
pub fn same_path(a: &Vec<u32>, b: &Vec<u32>) -> (same: bool)
    ensures
        same == (a@ == b@),
{
    if a.len() != b.len() {
        return false;
    }
    let n: usize = a.len();
    let mut i: usize = 0;
    while i < n
        invariant
            n == a@.len(),
            n == b@.len(),
            i <= n,
            forall|j: int| 0 <= j < i ==> a@[j] == b@[j],
        decreases n - i,
    {
        if a[i] != b[i] {
            return false;
        }
        i += 1;
    }
    assert(a@ =~= b@);
    true
}

impl Id {
    /// The segments of the path, from the root down.
    pub fn segments(&self) -> (path: &Vec<u32>)
        ensures
            path@ == self@,
    {
        &self.0
    }
}

impl Clone for Id {
    fn clone(&self) -> (copy: Id)
        ensures
            copy@ == self@,
    {
        Id(self.0.clone())
    }
}

impl PartialEq for Id {
    fn eq(&self, other: &Id) -> (same: bool) {
        same_path(&self.0, &other.0)
    }
}

impl PartialEqSpecImpl for Id {
    open spec fn obeys_eq_spec() -> bool {
        true
    }

    open spec fn eq_spec(&self, other: &Id) -> bool {
        self@ == other@
    }
}

impl From<Vec<u32>> for Id {
    fn from(value: Vec<u32>) -> (id: Id)
        ensures
            id@ == value@,
    {
        Id(value)
    }
}

impl FromSpecImpl<Vec<u32>> for Id {
    open spec fn obeys_from_spec() -> bool {
        true
    }

    closed spec fn from_spec(value: Vec<u32>) -> Id {
        Id(value)
    }
}

/// One change to the cache, as a layout pass makes it.
pub enum CacheOp {
    /// Record the border rectangle of a node.
    SetBorder { id: Seq<u32>, rect: Rect },
    /// Record the padding rectangle of a node.
    SetPadding { id: Seq<u32>, rect: Rect },
    /// Record the content rectangle of a node.
    SetContent { id: Seq<u32>, rect: Rect },
    /// Forget what is recorded for a node.
    Remove { id: Seq<u32> },
}

/// The record for `id` after its border rectangle is set: an existing record
/// changes in that field only, a missing one starts out with all three
/// rectangles equal to `rect`.
pub open spec fn with_border(m: Map<Seq<u32>, Layout>, id: Seq<u32>, rect: Rect) -> Map<
    Seq<u32>,
    Layout,
> {
    if m.dom().contains(id) {
        m.insert(id, Layout { border_bounds: rect, ..m[id] })
    } else {
        m.insert(id, Layout::filled(rect))
    }
}

/// As `with_border`, for the padding rectangle.
pub open spec fn with_padding(m: Map<Seq<u32>, Layout>, id: Seq<u32>, rect: Rect) -> Map<
    Seq<u32>,
    Layout,
> {
    if m.dom().contains(id) {
        m.insert(id, Layout { padding_bounds: rect, ..m[id] })
    } else {
        m.insert(id, Layout::filled(rect))
    }
}

/// As `with_border`, for the content rectangle.
pub open spec fn with_content(m: Map<Seq<u32>, Layout>, id: Seq<u32>, rect: Rect) -> Map<
    Seq<u32>,
    Layout,
> {
    if m.dom().contains(id) {
        m.insert(id, Layout { content_bounds: rect, ..m[id] })
    } else {
        m.insert(id, Layout::filled(rect))
    }
}

/// The record read back for `id`: the stored one, or three zero rectangles.
pub open spec fn lookup(m: Map<Seq<u32>, Layout>, id: Seq<u32>) -> Layout {
    if m.dom().contains(id) {
        m[id]
    } else {
        Layout::zero()
    }
}

/// The cache after one change.
pub open spec fn apply_op(m: Map<Seq<u32>, Layout>, op: CacheOp) -> Map<Seq<u32>, Layout> {
    match op {
        CacheOp::SetBorder { id, rect } => with_border(m, id, rect),
        CacheOp::SetPadding { id, rect } => with_padding(m, id, rect),
        CacheOp::SetContent { id, rect } => with_content(m, id, rect),
        CacheOp::Remove { id } => m.remove(id),
    }
}

/// The cache after a run of changes, made first to last.
pub open spec fn apply_ops(m: Map<Seq<u32>, Layout>, ops: Seq<CacheOp>) -> Map<Seq<u32>, Layout>
    decreases ops.len(),
{
    if ops.len() == 0 {
        m
    } else {
        apply_op(apply_ops(m, ops.drop_last()), ops.last())
    }
}

/// Making the changes `a` and then the changes `b` is making `a + b`.
pub proof fn lemma_apply_ops_concat(m: Map<Seq<u32>, Layout>, a: Seq<CacheOp>, b: Seq<CacheOp>)
    ensures
        apply_ops(m, a + b) == apply_ops(apply_ops(m, a), b),
    decreases b.len(),
{
    if b.len() == 0 {
        assert(a + b =~= a);
    } else {
        lemma_apply_ops_concat(m, a, b.drop_last());
        assert((a + b).drop_last() =~= a + b.drop_last());
        assert((a + b).last() == b.last());
    }
}

/// A run of one change is that change.
pub proof fn lemma_apply_ops_single(m: Map<Seq<u32>, Layout>, op: CacheOp)
    ensures
        apply_ops(m, seq![op]) == apply_op(m, op),
{
    assert(seq![op].drop_last() =~= Seq::<CacheOp>::empty());
    assert(apply_ops(m, Seq::<CacheOp>::empty()) == m);
}

/// Whether some entry of `entries` is keyed by `key`.
pub open spec fn holds(entries: Seq<(Id, Layout)>, key: Seq<u32>) -> bool {
    exists|i: int| 0 <= i < entries.len() && (#[trigger] entries[i]).0@ == key
}

/// The place of an entry keyed by `key`.
pub open spec fn slot(entries: Seq<(Id, Layout)>, key: Seq<u32>) -> int {
    choose|i: int| 0 <= i < entries.len() && (#[trigger] entries[i]).0@ == key
}

/// No two entries have the same key.
pub open spec fn distinct(entries: Seq<(Id, Layout)>) -> bool {
    forall|i: int, j: int|
        0 <= i < j < entries.len() ==> (#[trigger] entries[i]).0@ != (#[trigger] entries[j]).0@
}

/// The mapping that a list of entries with distinct keys stands for.
pub open spec fn as_map(entries: Seq<(Id, Layout)>) -> Map<Seq<u32>, Layout> {
    Map::new(|key: Seq<u32>| holds(entries, key), |key: Seq<u32>| entries[slot(entries, key)].1)
}

proof fn lemma_entry(entries: Seq<(Id, Layout)>, i: int)
    requires
        distinct(entries),
        0 <= i < entries.len(),
    ensures
        as_map(entries).dom().contains(entries[i].0@),
        as_map(entries)[entries[i].0@] == entries[i].1,
{
    let key = entries[i].0@;
    assert(holds(entries, key));
    let j = slot(entries, key);
    assert(i == j);
}

proof fn lemma_replace(entries: Seq<(Id, Layout)>, i: int, entry: (Id, Layout))
    requires
        distinct(entries),
        0 <= i < entries.len(),
        entry.0@ == entries[i].0@,
    ensures
        distinct(entries.update(i, entry)),
        as_map(entries.update(i, entry)) == as_map(entries).insert(entry.0@, entry.1),
{
    let after = entries.update(i, entry);
    assert(distinct(after)) by {
        assert forall|a: int, b: int| 0 <= a < b < after.len() implies (#[trigger] after[a]).0@ != (
        #[trigger] after[b]).0@ by {
            assert(entries[a].0@ != entries[b].0@);
        }
    }
    assert forall|key: Seq<u32>| holds(after, key) == holds(entries, key) by {
        if holds(after, key) {
            let j = slot(after, key);
            assert(entries[j].0@ == key);
        }
        if holds(entries, key) {
            let j = slot(entries, key);
            assert(after[j].0@ == key);
        }
    }
    assert forall|key: Seq<u32>| holds(after, key) implies as_map(after)[key] == as_map(
        entries,
    ).insert(entry.0@, entry.1)[key] by {
        let j = slot(after, key);
        lemma_entry(after, j);
        if j != i {
            lemma_entry(entries, j);
        }
    }
    assert(as_map(after) =~= as_map(entries).insert(entry.0@, entry.1));
}

proof fn lemma_append(entries: Seq<(Id, Layout)>, entry: (Id, Layout))
    requires
        distinct(entries),
        !holds(entries, entry.0@),
    ensures
        distinct(entries.push(entry)),
        as_map(entries.push(entry)) == as_map(entries).insert(entry.0@, entry.1),
{
    let after = entries.push(entry);
    assert(distinct(after)) by {
        assert forall|a: int, b: int| 0 <= a < b < after.len() implies (#[trigger] after[a]).0@ != (
        #[trigger] after[b]).0@ by {
            if b < entries.len() {
                assert(entries[a].0@ != entries[b].0@);
            } else {
                assert(entries[a].0@ != entry.0@);
            }
        }
    }
    assert forall|key: Seq<u32>| holds(after, key) == (holds(entries, key) || key == entry.0@) by {
        if holds(after, key) {
            let j = slot(after, key);
            if j < entries.len() {
                assert(entries[j].0@ == key);
            }
        }
        if holds(entries, key) {
            let j = slot(entries, key);
            assert(after[j].0@ == key);
        }
        if key == entry.0@ {
            assert(after[entries.len() as int].0@ == key);
        }
    }
    assert forall|key: Seq<u32>| holds(after, key) implies as_map(after)[key] == as_map(
        entries,
    ).insert(entry.0@, entry.1)[key] by {
        let j = slot(after, key);
        lemma_entry(after, j);
        if j < entries.len() {
            lemma_entry(entries, j);
        }
    }
    assert(as_map(after) =~= as_map(entries).insert(entry.0@, entry.1));
}

proof fn lemma_delete(entries: Seq<(Id, Layout)>, i: int)
    requires
        distinct(entries),
        0 <= i < entries.len(),
    ensures
        distinct(entries.remove(i)),
        as_map(entries.remove(i)) == as_map(entries).remove(entries[i].0@),
{
    let after = entries.remove(i);
    let gone = entries[i].0@;
    assert forall|a: int| 0 <= a < after.len() implies (#[trigger] after[a]) == entries[if a < i {
        a
    } else {
        a + 1
    }] by {}
    assert(distinct(after)) by {
        assert forall|a: int, b: int| 0 <= a < b < after.len() implies (#[trigger] after[a]).0@ != (
        #[trigger] after[b]).0@ by {
            let a0 = if a < i { a } else { a + 1 };
            let b0 = if b < i { b } else { b + 1 };
            assert(entries[a0].0@ != entries[b0].0@);
        }
    }
    assert forall|key: Seq<u32>| holds(after, key) == (holds(entries, key) && key != gone) by {
        if holds(after, key) {
            let j = slot(after, key);
            let j0 = if j < i { j } else { j + 1 };
            assert(entries[j0].0@ == key);
            if key == gone {
                assert(entries[j0].0@ == entries[i].0@);
                if j0 < i {
                    assert(entries[j0].0@ != entries[i].0@);
                } else {
                    assert(entries[i].0@ != entries[j0].0@);
                }
            }
        }
        if holds(entries, key) && key != gone {
            let j = slot(entries, key);
            let j1 = if j < i { j } else { j - 1 };
            assert(after[j1].0@ == key);
        }
    }
    assert forall|key: Seq<u32>| holds(after, key) implies as_map(after)[key] == as_map(
        entries,
    ).remove(gone)[key] by {
        let j = slot(after, key);
        lemma_entry(after, j);
        let j0 = if j < i { j } else { j + 1 };
        lemma_entry(entries, j0);
    }
    assert(as_map(after) =~= as_map(entries).remove(gone));
}

/// The cache of recorded geometry: one record for each node that a layout
/// pass visited, keyed by the node's identity.
#[derive(Debug)]
pub struct IdManager {
    id_mappings: Vec<(Id, Layout)>,
}

impl View for IdManager {
    type V = Map<Seq<u32>, Layout>;

    closed spec fn view(&self) -> Map<Seq<u32>, Layout> {
        as_map(self.id_mappings@)
    }
}

impl IdManager {
    #[verifier::type_invariant]
    spec fn distinct_keys(self) -> bool {
        distinct(self.id_mappings@)
    }

    /// A cache without records.
    pub fn new() -> (cache: IdManager)
        ensures
            cache@ == Map::<Seq<u32>, Layout>::empty(),
    {
        let cache = IdManager { id_mappings: Vec::new() };
        assert(cache@ =~= Map::<Seq<u32>, Layout>::empty());
        cache
    }

    /// Number of records.
    pub fn len(&self) -> (n: usize)
        ensures
            n == self@.dom().len(),
            self@.dom().finite(),
    {
        proof {
            use_type_invariant(self);
            lemma_count(self.id_mappings@);
        }
        self.id_mappings.len()
    }

    fn position(&self, id: &Id) -> (found: Option<usize>)
        ensures
            found matches Some(i) ==> i < self.id_mappings@.len() && self.id_mappings@[i as int].0@
                == id@,
            found is None ==> !holds(self.id_mappings@, id@),
    {
        let n: usize = self.id_mappings.len();
        let mut i: usize = 0;
        while i < n
            invariant
                n == self.id_mappings@.len(),
                i <= n,
                forall|j: int| 0 <= j < i ==> (#[trigger] self.id_mappings@[j]).0@ != id@,
            decreases n - i,
        {
            if same_path(self.id_mappings[i].0.segments(), id.segments()) {
                return Some(i);
            }
            i += 1;
        }
        None
    }

    /// Records three zero rectangles for `id`, over whatever was there.
    pub fn insert(&mut self, id: Id)
        ensures
            final(self)@ == old(self)@.insert(id@, Layout::zero()),
    {
        self.store(id, Layout::zero());
    }

    fn store(&mut self, id: Id, layout: Layout)
        ensures
            final(self)@ == old(self)@.insert(id@, layout),
    {
        proof {
            use_type_invariant(&*self);
        }
        let found = self.position(&id);
        let mut entries: Vec<(Id, Layout)> = Vec::new();
        core::mem::swap(&mut self.id_mappings, &mut entries);
        match found {
            Some(i) => {
                proof {
                    lemma_replace(entries@, i as int, (id, layout));
                }
                entries[i] = (id, layout);
            },
            None => {
                proof {
                    lemma_append(entries@, (id, layout));
                }
                entries.push((id, layout));
            },
        }
        core::mem::swap(&mut self.id_mappings, &mut entries);
    }

    /// Records `layout` as the padding rectangle of `id`. A record that is
    /// already there changes in that field only; a new one starts out with
    /// all three rectangles equal to `layout`. Nothing is handed back.
    pub fn set_layout_padding_rect(&mut self, id: Id, layout: Rect) -> (previous: Option<Layout>)
        ensures
            previous is None,
            final(self)@ == with_padding(old(self)@, id@, layout),
    {
        let current = self.find(&id);
        let next = match current {
            Some(full) => Layout { padding_bounds: layout, ..full },
            None => Layout {
                padding_bounds: layout,
                border_bounds: layout,
                content_bounds: layout,
            },
        };
        self.store(id, next);
        None
    }

    /// Records `layout` as the border rectangle of `id`. A record that is
    /// already there changes in that field only; a new one starts out with
    /// all three rectangles equal to `layout`. Nothing is handed back.
    pub fn set_layout_border_rect(&mut self, id: Id, layout: Rect) -> (previous: Option<Layout>)
        ensures
            previous is None,
            final(self)@ == with_border(old(self)@, id@, layout),
    {
        let current = self.find(&id);
        let next = match current {
            Some(full) => Layout { border_bounds: layout, ..full },
            None => Layout {
                padding_bounds: layout,
                border_bounds: layout,
                content_bounds: layout,
            },
        };
        self.store(id, next);
        None
    }

    /// Records `layout` as the content rectangle of `id`. A record that is
    /// already there changes in that field only; a new one starts out with
    /// all three rectangles equal to `layout`. Nothing is handed back.
    pub fn set_layout_content_rect(&mut self, id: Id, layout: Rect) -> (previous: Option<Layout>)
        ensures
            previous is None,
            final(self)@ == with_content(old(self)@, id@, layout),
    {
        let current = self.find(&id);
        let next = match current {
            Some(full) => Layout { content_bounds: layout, ..full },
            None => Layout {
                padding_bounds: layout,
                border_bounds: layout,
                content_bounds: layout,
            },
        };
        self.store(id, next);
        None
    }

    fn find(&self, id: &Id) -> (found: Option<Layout>)
        ensures
            found is Some == self@.dom().contains(id@),
            found matches Some(layout) ==> layout == self@[id@],
    {
        proof {
            use_type_invariant(self);
        }
        match self.position(id) {
            Some(i) => {
                proof {
                    lemma_entry(self.id_mappings@, i as int);
                }
                Some(self.id_mappings[i].1)
            },
            None => None,
        }
    }

    /// The record of `id`, or three zero rectangles where there is none.
    pub fn get_layout(&self, id: Id) -> (layout: Layout)
        ensures
            layout == lookup(self@, id@),
    {
        match self.find(&id) {
            Some(layout) => layout,
            None => Layout::zero(),
        }
    }

    /// Forgets the record of `id`, if there is one.
    pub fn remove(&mut self, id: Id)
        ensures
            final(self)@ == old(self)@.remove(id@),
    {
        proof {
            use_type_invariant(&*self);
        }
        match self.position(&id) {
            Some(i) => {
                let mut entries: Vec<(Id, Layout)> = Vec::new();
                core::mem::swap(&mut self.id_mappings, &mut entries);
                proof {
                    lemma_delete(entries@, i as int);
                }
                entries.remove(i);
                core::mem::swap(&mut self.id_mappings, &mut entries);
            },
            None => {
                assert(self@ =~= self@.remove(id@));
            },
        }
    }
}

proof fn lemma_count(entries: Seq<(Id, Layout)>)
    requires
        distinct(entries),
    ensures
        as_map(entries).dom().finite(),
        as_map(entries).dom().len() == entries.len(),
    decreases entries.len(),
{
    if entries.len() == 0 {
        assert(as_map(entries).dom() =~= Set::<Seq<u32>>::empty());
    } else {
        let front = entries.drop_last();
        let last = entries.last();
        assert(distinct(front)) by {
            assert forall|a: int, b: int| 0 <= a < b < front.len() implies (#[trigger] front[a]).0@
                != (#[trigger] front[b]).0@ by {
                assert(entries[a].0@ != entries[b].0@);
            }
        }
        lemma_count(front);
        assert(!holds(front, last.0@)) by {
            if holds(front, last.0@) {
                let j = slot(front, last.0@);
                assert(entries[j].0@ != entries[entries.len() - 1].0@);
            }
        }
        lemma_append(front, last);
        assert(front.push(last) =~= entries);
        assert(as_map(entries).dom() =~= as_map(front).dom().insert(last.0@));
    }
}

/// What the cache holds for `id`, if anything.
pub open spec fn entry(m: Map<Seq<u32>, Layout>, id: Seq<u32>) -> Option<Layout> {
    if m.dom().contains(id) {
        Some(m[id])
    } else {
        None
    }
}

/// The node that a change is about.
pub open spec fn target(op: CacheOp) -> Seq<u32> {
    match op {
        CacheOp::SetBorder { id, rect } => id,
        CacheOp::SetPadding { id, rect } => id,
        CacheOp::SetContent { id, rect } => id,
        CacheOp::Remove { id } => id,
    }
}

/// What one change makes of the record of `id`.
pub open spec fn entry_step(e: Option<Layout>, op: CacheOp, id: Seq<u32>) -> Option<Layout> {
    if target(op) != id {
        e
    } else {
        match op {
            CacheOp::SetBorder { id, rect } => Some(
                match e {
                    Some(l) => Layout { border_bounds: rect, ..l },
                    None => Layout::filled(rect),
                },
            ),
            CacheOp::SetPadding { id, rect } => Some(
                match e {
                    Some(l) => Layout { padding_bounds: rect, ..l },
                    None => Layout::filled(rect),
                },
            ),
            CacheOp::SetContent { id, rect } => Some(
                match e {
                    Some(l) => Layout { content_bounds: rect, ..l },
                    None => Layout::filled(rect),
                },
            ),
            CacheOp::Remove { id } => None,
        }
    }
}

/// What a run of changes makes of the record of `id`.
pub open spec fn entry_after(e: Option<Layout>, ops: Seq<CacheOp>, id: Seq<u32>) -> Option<Layout>
    decreases ops.len(),
{
    if ops.len() == 0 {
        e
    } else {
        entry_step(entry_after(e, ops.drop_last(), id), ops.last(), id)
    }
}

/// A change acts on each record by itself.
pub proof fn lemma_entry_step(m: Map<Seq<u32>, Layout>, op: CacheOp, id: Seq<u32>)
    ensures
        entry(apply_op(m, op), id) == entry_step(entry(m, id), op, id),
{
}

/// A run of changes acts on each record by itself.
pub proof fn lemma_entry_after(m: Map<Seq<u32>, Layout>, ops: Seq<CacheOp>, id: Seq<u32>)
    ensures
        entry(apply_ops(m, ops), id) == entry_after(entry(m, id), ops, id),
    decreases ops.len(),
{
    if ops.len() > 0 {
        lemma_entry_after(m, ops.drop_last(), id);
        lemma_entry_step(apply_ops(m, ops.drop_last()), ops.last(), id);
    }
}

/// Two caches that hold the same for every node are the same cache.
pub proof fn lemma_same_entries(a: Map<Seq<u32>, Layout>, b: Map<Seq<u32>, Layout>)
    requires
        forall|id: Seq<u32>| entry(a, id) == entry(b, id),
    ensures
        a == b,
{
    assert forall|id: Seq<u32>| a.dom().contains(id) == b.dom().contains(id) by {
        assert(entry(a, id) == entry(b, id));
    }
    assert forall|id: Seq<u32>| a.dom().contains(id) implies a[id] == b[id] by {
        assert(entry(a, id) == entry(b, id));
    }
    assert(a =~= b);
}

/// What a run of changes comes to for one node: whether its record was
/// dropped, and, of the changes after the last drop, the rectangle of the
/// first and the last rectangle given to each field.
pub ghost struct Outcome {
    pub dropped: bool,
    pub first: Option<Rect>,
    pub border: Option<Rect>,
    pub padding: Option<Rect>,
    pub content: Option<Rect>,
}

impl Outcome {
    /// A field is only given a rectangle once the record has a first one.
    pub open spec fn wf(self) -> bool {
        self.first is None ==> self.border is None && self.padding is None && self.content is None
    }

    /// The outcome of no change at all.
    pub open spec fn nothing() -> Outcome {
        Outcome { dropped: false, first: None, border: None, padding: None, content: None }
    }

    /// The outcome once `op` has followed.
    pub open spec fn followed_by(self, op: CacheOp, id: Seq<u32>) -> Outcome {
        if target(op) != id {
            self
        } else {
            match op {
                CacheOp::SetBorder { id, rect } => Outcome {
                    first: if self.first is None { Some(rect) } else { self.first },
                    border: Some(rect),
                    ..self
                },
                CacheOp::SetPadding { id, rect } => Outcome {
                    first: if self.first is None { Some(rect) } else { self.first },
                    padding: Some(rect),
                    ..self
                },
                CacheOp::SetContent { id, rect } => Outcome {
                    first: if self.first is None { Some(rect) } else { self.first },
                    content: Some(rect),
                    ..self
                },
                CacheOp::Remove { id } => Outcome {
                    dropped: true,
                    first: None,
                    border: None,
                    padding: None,
                    content: None,
                },
            }
        }
    }

    /// The outcome of a run of changes for the node `id`.
    pub open spec fn of(ops: Seq<CacheOp>, id: Seq<u32>) -> Outcome
        decreases ops.len(),
    {
        if ops.len() == 0 {
            Outcome::nothing()
        } else {
            Outcome::of(ops.drop_last(), id).followed_by(ops.last(), id)
        }
    }

    /// The record that a run with this outcome leaves where it found `e`.
    pub open spec fn leaves(self, e: Option<Layout>) -> Option<Layout> {
        match self.first {
            None => if self.dropped {
                None
            } else {
                e
            },
            Some(first) => {
                let base = if self.dropped || e is None {
                    Layout::filled(first)
                } else {
                    e->0
                };
                Some(
                    Layout {
                        border_bounds: match self.border {
                            Some(r) => r,
                            None => base.border_bounds,
                        },
                        padding_bounds: match self.padding {
                            Some(r) => r,
                            None => base.padding_bounds,
                        },
                        content_bounds: match self.content {
                            Some(r) => r,
                            None => base.content_bounds,
                        },
                    },
                )
            },
        }
    }
}

/// A run of changes leaves of a record what its outcome says.
pub proof fn lemma_outcome(e: Option<Layout>, ops: Seq<CacheOp>, id: Seq<u32>)
    ensures
        Outcome::of(ops, id).wf(),
        entry_after(e, ops, id) == Outcome::of(ops, id).leaves(e),
    decreases ops.len(),
{
    if ops.len() > 0 {
        lemma_outcome(e, ops.drop_last(), id);
    }
}

/// What a run of changes leaves of a record, it leaves unchanged when it is
/// made again.
pub proof fn lemma_outcome_settles(outcome: Outcome, e: Option<Layout>)
    requires
        outcome.wf(),
    ensures
        outcome.leaves(outcome.leaves(e)) == outcome.leaves(e),
{
}

/// Making a run of changes twice leaves the cache as making it once does:
/// nothing of an earlier pass shows in what a pass records.
pub proof fn lemma_apply_ops_idempotent(m: Map<Seq<u32>, Layout>, ops: Seq<CacheOp>)
    ensures
        apply_ops(apply_ops(m, ops), ops) == apply_ops(m, ops),
{
    let once = apply_ops(m, ops);
    let twice = apply_ops(once, ops);
    assert forall|id: Seq<u32>| entry(twice, id) == entry(once, id) by {
        lemma_entry_after(m, ops, id);
        lemma_entry_after(once, ops, id);
        lemma_outcome(entry(m, id), ops, id);
        lemma_outcome(entry(once, id), ops, id);
        lemma_outcome_settles(Outcome::of(ops, id), entry(m, id));
    }
    lemma_same_entries(twice, once);
}

/// Whether the node at `path` is the node at `above` or lies below it.
pub open spec fn leads_to(above: Seq<u32>, path: Seq<u32>) -> bool {
    above.len() <= path.len() && path.subrange(0, above.len() as int) == above
}

/// Every change of `ops` is about a node at or below `path`.
pub open spec fn writes_below(ops: Seq<CacheOp>, path: Seq<u32>) -> bool {
    forall|i: int| 0 <= i < ops.len() ==> leads_to(path, target(#[trigger] ops[i]))
}

/// Every identity of `nodes` is that of a node at or below `path`.
pub open spec fn nodes_below(nodes: Seq<Seq<u32>>, path: Seq<u32>) -> bool {
    forall|i: int| 0 <= i < nodes.len() ==> leads_to(path, #[trigger] nodes[i])
}

/// The cache holds a record for every identity of `nodes`.
pub open spec fn all_recorded(m: Map<Seq<u32>, Layout>, nodes: Seq<Seq<u32>>) -> bool {
    forall|i: int| 0 <= i < nodes.len() ==> m.dom().contains(#[trigger] nodes[i])
}

/// A node lies at or below itself.
pub proof fn lemma_leads_to_self(path: Seq<u32>)
    ensures
        leads_to(path, path),
{
    assert(path.subrange(0, path.len() as int) =~= path);
}

/// What lies below a child lies below its parent.
pub proof fn lemma_leads_to_child(path: Seq<u32>, index: u32, below: Seq<u32>)
    requires
        leads_to(path.push(index), below),
    ensures
        leads_to(path, below),
{
    assert(below.subrange(0, path.len() as int) =~= below.subrange(
        0,
        path.len() as int + 1,
    ).subrange(0, path.len() as int));
    assert(path.push(index).subrange(0, path.len() as int) =~= path);
}

/// Nothing lies below two different children of one node.
pub proof fn lemma_siblings_apart(path: Seq<u32>, i: u32, j: u32, below: Seq<u32>)
    requires
        leads_to(path.push(i), below),
        leads_to(path.push(j), below),
    ensures
        i == j,
{
    assert(below.subrange(0, path.len() as int + 1)[path.len() as int] == i);
    assert(below.subrange(0, path.len() as int + 1)[path.len() as int] == j);
}

/// Changes below one node leave the records of all other nodes alone.
pub proof fn lemma_untouched(
    m: Map<Seq<u32>, Layout>,
    ops: Seq<CacheOp>,
    path: Seq<u32>,
    id: Seq<u32>,
)
    requires
        writes_below(ops, path),
        !leads_to(path, id),
    ensures
        entry(apply_ops(m, ops), id) == entry(m, id),
    decreases ops.len(),
{
    if ops.len() > 0 {
        assert forall|i: int| 0 <= i < ops.drop_last().len() implies leads_to(
            path,
            target(#[trigger] ops.drop_last()[i]),
        ) by {
            assert(ops.drop_last()[i] == ops[i]);
        }
        lemma_untouched(m, ops.drop_last(), path, id);
        assert(leads_to(path, target(ops[ops.len() - 1])));
        lemma_entry_step(apply_ops(m, ops.drop_last()), ops.last(), id);
    }
}

/// Recording a rectangle leaves every record in place and adds the one it
/// is about.
pub proof fn lemma_recording_keeps(m: Map<Seq<u32>, Layout>, op: CacheOp, nodes: Seq<Seq<u32>>)
    requires
        !(op is Remove),
        all_recorded(m, nodes),
    ensures
        all_recorded(apply_op(m, op), nodes),
        apply_op(m, op).dom().contains(target(op)),
{
    assert forall|i: int| 0 <= i < nodes.len() implies apply_op(m, op).dom().contains(
        #[trigger] nodes[i],
    ) by {
        assert(m.dom().contains(nodes[i]));
    }
}

/// Changes below a node are changes below whatever that node lies below.
pub proof fn lemma_writes_below_child(ops: Seq<CacheOp>, path: Seq<u32>, index: u32)
    requires
        writes_below(ops, path.push(index)),
    ensures
        writes_below(ops, path),
{
    assert forall|i: int| 0 <= i < ops.len() implies leads_to(path, target(#[trigger] ops[i])) by {
        lemma_leads_to_child(path, index, target(ops[i]));
    }
}

/// Nodes below a node are nodes below whatever that node lies below.
pub proof fn lemma_nodes_below_child(nodes: Seq<Seq<u32>>, path: Seq<u32>, index: u32)
    requires
        nodes_below(nodes, path.push(index)),
    ensures
        nodes_below(nodes, path),
{
    assert forall|i: int| 0 <= i < nodes.len() implies leads_to(path, #[trigger] nodes[i]) by {
        lemma_leads_to_child(path, index, nodes[i]);
    }
}

/// Changes below a node, followed by a change to the node itself, are
/// changes below the node; and so for the nodes entered.
pub proof fn lemma_wrapped_below(
    inner: Seq<CacheOp>,
    own: CacheOp,
    nodes: Seq<Seq<u32>>,
    path: Seq<u32>,
)
    requires
        writes_below(inner, path),
        nodes_below(nodes, path),
        target(own) == path,
    ensures
        writes_below(inner.push(own), path),
        nodes_below(seq![path] + nodes, path),
{
    lemma_leads_to_self(path);
    assert forall|i: int| 0 <= i < inner.push(own).len() implies leads_to(
        path,
        target(#[trigger] inner.push(own)[i]),
    ) by {
        if i < inner.len() {
            assert(inner.push(own)[i] == inner[i]);
        }
    }
    assert forall|i: int| 0 <= i < (seq![path] + nodes).len() implies leads_to(
        path,
        #[trigger] (seq![path] + nodes)[i],
    ) by {
        if i > 0 {
            assert((seq![path] + nodes)[i] == nodes[i - 1]);
        }
    }
}

/// Where the changes below a node leave a record for every node entered
/// below it, so do those changes followed by the recording of a rectangle
/// of the node itself, which then has a record too.
pub proof fn lemma_wrapped_recorded(
    m: Map<Seq<u32>, Layout>,
    inner: Seq<CacheOp>,
    own: CacheOp,
    nodes: Seq<Seq<u32>>,
    path: Seq<u32>,
)
    requires
        all_recorded(apply_ops(m, inner), nodes),
        !(own is Remove),
        target(own) == path,
    ensures
        all_recorded(apply_ops(m, inner.push(own)), seq![path] + nodes),
{
    assert(inner.push(own).drop_last() =~= inner);
    lemma_recording_keeps(apply_ops(m, inner), own, nodes);
    let after = apply_ops(m, inner.push(own));
    assert forall|i: int| 0 <= i < (seq![path] + nodes).len() implies after.dom().contains(
        #[trigger] (seq![path] + nodes)[i],
    ) by {
        if i > 0 {
            assert((seq![path] + nodes)[i] == nodes[i - 1]);
        }
    }
}

/// Two runs of changes below a node make one run of changes below it; and
/// so for the nodes entered.
pub proof fn lemma_below_concat(
    a: Seq<CacheOp>,
    b: Seq<CacheOp>,
    x: Seq<Seq<u32>>,
    y: Seq<Seq<u32>>,
    path: Seq<u32>,
)
    requires
        writes_below(a, path),
        writes_below(b, path),
        nodes_below(x, path),
        nodes_below(y, path),
    ensures
        writes_below(a + b, path),
        nodes_below(x + y, path),
{
    assert forall|i: int| 0 <= i < (a + b).len() implies leads_to(
        path,
        target(#[trigger] (a + b)[i]),
    ) by {
        if i < a.len() {
            assert((a + b)[i] == a[i]);
        } else {
            assert((a + b)[i] == b[i - a.len()]);
        }
    }
    assert forall|i: int| 0 <= i < (x + y).len() implies leads_to(path, #[trigger] (x + y)[i]) by {
        if i < x.len() {
            assert((x + y)[i] == x[i]);
        } else {
            assert((x + y)[i] == y[i - x.len()]);
        }
    }
}

} // verus!
