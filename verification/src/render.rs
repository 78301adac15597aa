//! Rectangles and the drawn-rectangle ledger.  The renderer (outside this
//! crate) records where each component landed; navigation and scrolling read
//! those rectangles back through `DrawnRects`.

use vstd::prelude::*;
use crate::keys::ComponentId;

verus! {

/// A rectangle in surface coordinates.  Coordinates are signed: a component
/// may be drawn partially or entirely off-screen.
#[derive(Clone, Copy, Debug, PartialEq, Eq, Structural)]
pub struct Rect {
    pub x: isize,
    pub y: isize,
    pub width: usize,
    pub height: usize,
}

/// Coordinates and sizes the ledger accepts: small enough that the scroll
/// arithmetic over them cannot overflow a machine word.
pub open spec fn rect_wf(r: Rect) -> bool {
    &&& -0x1000_0000 <= r.x <= 0x1000_0000
    &&& -0x1000_0000 <= r.y <= 0x1000_0000
    &&& r.width <= 0x1000_0000
    &&& r.height <= 0x1000_0000
}

impl Rect {
    /// The first column after the rectangle.
    pub fn end_x(&self) -> (r: isize)
        requires
            rect_wf(*self),
        ensures
            r == self.x + self.width,
    {
        self.x + (self.width as isize)
    }

    /// The first row below the rectangle.
    pub fn end_y(&self) -> (r: isize)
        requires
            rect_wf(*self),
        ensures
            r == self.y + self.height,
    {
        self.y + (self.height as isize)
    }
}

/// A ledger entry: where a component was last drawn, and when.
#[derive(Clone, Copy, Debug, PartialEq, Eq, Structural)]
pub struct DrawnRect {
    pub rect: Rect,
    pub timestamp: usize,
}

/// The rectangle recorded for `id`, if any: the first entry with that id.
/// The ledger keeps ids unique, so this is the only one.
pub open spec fn rect_of(entries: Seq<(ComponentId, DrawnRect)>, id: ComponentId) -> Option<
    DrawnRect,
>
    decreases entries.len(),
{
    if entries.len() == 0 {
        None
    } else if entries[0].0 == id {
        Some(entries[0].1)
    } else {
        rect_of(entries.drop_first(), id)
    }
}

/// The ledger of drawn rectangles, keyed by component id.  The last draw
/// for a given id wins: recording overwrites the earlier entry.
#[derive(Clone, Debug)]
pub struct DrawnRects {
    pub entries: Vec<(ComponentId, DrawnRect)>,
}

impl DrawnRects {
    /// No id occurs twice, and every rectangle is well formed.
    pub open spec fn wf(&self) -> bool {
        &&& forall|i: int, j: int|
            0 <= i < j < self.entries@.len() ==> (#[trigger] self.entries@[i]).0 != (
            #[trigger] self.entries@[j]).0
        &&& forall|i: int|
            0 <= i < self.entries@.len() ==> rect_wf((#[trigger] self.entries@[i]).1.rect)
    }

    /// An empty ledger.
    pub fn new() -> (r: Self)
        ensures
            r.wf(),
            r.entries@.len() == 0,
    {
        DrawnRects { entries: Vec::new() }
    }

    /// The rectangle recorded for `id`, if any.
    pub fn get(&self, id: ComponentId) -> (r: Option<DrawnRect>)
        ensures
            r == rect_of(self.entries@, id),
    {
        let ghost all = self.entries@;
        let mut i: usize = 0;
        proof {
            assert(all.skip(0) =~= all);
        }
        while i < self.entries.len()
            invariant
                0 <= i <= all.len(),
                all == self.entries@,
                rect_of(all, id) == rect_of(all.skip(i as int), id),
            decreases all.len() - i,
        {
            if self.entries[i].0 == id {
                proof {
                    assert(all.skip(i as int)[0] == all[i as int]);
                }
                return Some(self.entries[i].1);
            }
            proof {
                assert(all.skip(i as int)[0] == all[i as int]);
                assert(all.skip(i as int).drop_first() =~= all.skip(i + 1));
            }
            i += 1;
        }
        proof {
            assert(all.skip(all.len() as int) =~= Seq::<(ComponentId, DrawnRect)>::empty());
        }
        None
    }

    /// Records the rectangle for `id`, overwriting an earlier entry.
    pub fn put(&mut self, id: ComponentId, rect: DrawnRect)
        requires
            old(self).wf(),
            rect_wf(rect.rect),
        ensures
            final(self).wf(),
            rect_of(final(self).entries@, id) == Some(rect),
            forall|other: ComponentId|
                other != id ==> #[trigger] rect_of(final(self).entries@, other) == rect_of(
                    old(self).entries@,
                    other,
                ),
    {
        let ghost all = old(self).entries@;
        let n = self.entries.len();
        let mut idx: usize = n;
        let mut i: usize = 0;
        while i < n
            invariant
                0 <= i <= n,
                n == all.len(),
                all == self.entries@,
                idx == n || (idx < i && (all[idx as int]).0 == id),
                idx == n ==> forall|j: int| 0 <= j < i ==> (#[trigger] all[j]).0 != id,
            decreases n - i,
        {
            if idx == n && self.entries[i].0 == id {
                idx = i;
            }
            i += 1;
        }
        if idx < n {
            self.entries[idx] = (id, rect);
            proof {
                assert forall|j: int| 0 <= j < idx implies (#[trigger] all[j]).0 != id by {
                    assert((all[j]).0 != (all[idx as int]).0);
                }
                lemma_rect_of_update(all, idx as int, id, rect);
                assert(self.entries@ =~= all.update(idx as int, (id, rect)));
                assert(forall|j: int|
                    0 <= j < all.len() && j != idx ==> self.entries@[j] == all[j]);
                assert(self.entries@[idx as int] == (id, rect));
                assert forall|p: int, q: int| 0 <= p < q < self.entries@.len() implies (
                #[trigger] self.entries@[p]).0 != (#[trigger] self.entries@[q]).0 by {
                    assert((all[p]).0 != (all[q]).0);
                }
                assert forall|p: int| 0 <= p < self.entries@.len() implies rect_wf((
                #[trigger] self.entries@[p]).1.rect) by {
                    if p != idx {
                        assert(rect_wf((all[p]).1.rect));
                    }
                }
                assert(self.wf());
                assert forall|other: ComponentId| other != id implies #[trigger] rect_of(
                    self.entries@,
                    other,
                ) == rect_of(all, other) by {
                    assert(rect_of(all.update(idx as int, (id, rect)), other) == rect_of(
                        all,
                        other,
                    ));
                }
            }
        } else {
            self.entries.push((id, rect));
            proof {
                lemma_rect_of_append(all, id, rect);
                assert(self.entries@ =~= all.push((id, rect)));
                assert(forall|j: int| 0 <= j < all.len() ==> self.entries@[j] == all[j]);
                assert(self.entries@[all.len() as int] == (id, rect));
                assert forall|p: int, q: int| 0 <= p < q < self.entries@.len() implies (
                #[trigger] self.entries@[p]).0 != (#[trigger] self.entries@[q]).0 by {
                    if q < all.len() {
                        assert((all[p]).0 != (all[q]).0);
                    } else {
                        assert((all[p]).0 != id);
                    }
                }
                assert forall|p: int| 0 <= p < self.entries@.len() implies rect_wf((
                #[trigger] self.entries@[p]).1.rect) by {
                    if p < all.len() {
                        assert(rect_wf((all[p]).1.rect));
                    }
                }
                assert(self.wf());
                assert forall|other: ComponentId| other != id implies #[trigger] rect_of(
                    self.entries@,
                    other,
                ) == rect_of(all, other) by {
                    assert(rect_of(all.push((id, rect)), other) == rect_of(all, other));
                }
            }
        }
    }
}

/// Updating the one entry that holds `id` changes only that id's rectangle.
proof fn lemma_rect_of_update(
    entries: Seq<(ComponentId, DrawnRect)>,
    i: int,
    id: ComponentId,
    rect: DrawnRect,
)
    requires
        0 <= i < entries.len(),
        entries[i].0 == id,
        forall|j: int| 0 <= j < i ==> (#[trigger] entries[j]).0 != id,
    ensures
        rect_of(entries.update(i, (id, rect)), id) == Some(rect),
        forall|other: ComponentId|
            other != id ==> #[trigger] rect_of(entries.update(i, (id, rect)), other) == rect_of(
                entries,
                other,
            ),
    decreases entries.len(),
{
    let upd = entries.update(i, (id, rect));
    assert(upd[i] == (id, rect));
    assert(forall|j: int| 0 <= j < entries.len() && j != i ==> upd[j] == entries[j]);
    if i == 0 {
        assert(rect_of(upd, id) == Some(rect));
        assert forall|other: ComponentId| other != id implies #[trigger] rect_of(upd, other)
            == rect_of(entries, other) by {
            assert(upd.drop_first() =~= entries.drop_first());
        }
    } else {
        lemma_rect_of_update(entries.drop_first(), i - 1, id, rect);
        assert(upd.drop_first() =~= entries.drop_first().update(i - 1, (id, rect)));
        assert(upd[0] == entries[0]);
        assert(rect_of(upd, id) == rect_of(upd.drop_first(), id));
        assert forall|other: ComponentId| other != id implies #[trigger] rect_of(upd, other)
            == rect_of(entries, other) by {
            assert(rect_of(upd.drop_first(), other) == rect_of(entries.drop_first(), other));
        }
    }
}

/// Appending an entry with a fresh id leaves every other id's rectangle
/// unchanged and records the new one.
proof fn lemma_rect_of_append(
    entries: Seq<(ComponentId, DrawnRect)>,
    id: ComponentId,
    rect: DrawnRect,
)
    requires
        forall|j: int| 0 <= j < entries.len() ==> (#[trigger] entries[j]).0 != id,
    ensures
        rect_of(entries.push((id, rect)), id) == Some(rect),
        forall|other: ComponentId|
            other != id ==> #[trigger] rect_of(entries.push((id, rect)), other) == rect_of(
                entries,
                other,
            ),
    decreases entries.len(),
{
    let app = entries.push((id, rect));
    assert(app[entries.len() as int] == (id, rect));
    assert(forall|j: int| 0 <= j < entries.len() ==> app[j] == entries[j]);
    if entries.len() == 0 {
        assert(app[0] == (id, rect));
        assert(rect_of(app, id) == Some(rect));
        assert forall|other: ComponentId| other != id implies #[trigger] rect_of(app, other)
            == rect_of(entries, other) by {
            assert(app.drop_first() =~= Seq::<(ComponentId, DrawnRect)>::empty());
            assert(rect_of(app.drop_first(), other) is None);
            assert(rect_of(app, other) == rect_of(app.drop_first(), other));
        }
    } else {
        lemma_rect_of_append(entries.drop_first(), id, rect);
        assert(app[0] == entries[0]);
        assert(app.drop_first() =~= entries.drop_first().push((id, rect)));
        assert(rect_of(app, id) == Some(rect));
        assert forall|other: ComponentId| other != id implies #[trigger] rect_of(app, other)
            == rect_of(entries, other) by {
            assert(rect_of(app.drop_first(), other) == rect_of(entries.drop_first(), other));
        }
    }
}

} // verus!
