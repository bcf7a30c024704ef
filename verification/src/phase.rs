//! Ordered draw phases and their front-to-back sort.

use vstd::prelude::*;
use crate::ids::{DrawFunctionId, EntityId, PipelineId};

verus! {

/// One queued drawable awaiting sorted submission.
#[derive(PartialEq, Eq, Structural, Clone, Copy, Debug)]
pub struct PhaseItem {
    pub entity: EntityId,
    /// The draw function that will submit this item.
    pub draw_function: DrawFunctionId,
    /// The pipeline variant resolved for this item.
    pub pipeline: PipelineId,
    /// View-space sort distance plus the material's static depth bias, in the
    /// embedding renderer's fixed-point distance scale.
    pub distance: i64,
}

/// Ascending by distance: front to back, to maximize early depth rejection.
pub open spec fn spec_sorted(s: Seq<PhaseItem>) -> bool {
    forall|i: int, j: int| 0 <= i < j < s.len() ==> s[i].distance <= s[j].distance
}

/// Membership in one distance class, for stating stability: a stable sort
/// leaves the subsequence of each distance unchanged.
pub open spec fn distance_is(v: i64) -> spec_fn(PhaseItem) -> bool {
    |it: PhaseItem| it.distance == v
}

/// Filtering keeps nothing out of a sequence whose elements all fail the
/// predicate.
proof fn lemma_filter_none(s: Seq<PhaseItem>, p: spec_fn(PhaseItem) -> bool)
    requires
        forall|k: int| 0 <= k < s.len() ==> !p(#[trigger] s[k]),
    ensures
        s.filter(p) == Seq::<PhaseItem>::empty(),
    decreases s.len(),
{
    reveal_with_fuel(Seq::filter, 2);
    if s.len() > 0 {
        assert(forall|k: int| 0 <= k < s.drop_last().len() ==> !p(#[trigger] s.drop_last()[k]));
        lemma_filter_none(s.drop_last(), p);
        assert(!p(s.last()));
    }
}

/// Inserting an item at a position after which nothing matches its classes
/// appends it to the subsequence of each predicate it satisfies and leaves
/// every other subsequence unchanged.
proof fn lemma_filter_insert(s: Seq<PhaseItem>, pos: int, item: PhaseItem, p: spec_fn(PhaseItem) -> bool)
    requires
        0 <= pos <= s.len(),
        p(item) ==> forall|k: int| pos <= k < s.len() ==> !p(#[trigger] s[k]),
    ensures
        s.insert(pos, item).filter(p) == if p(item) {
            s.filter(p).push(item)
        } else {
            s.filter(p)
        },
{
    broadcast use vstd::seq_lib::group_filter_ensures;

    reveal_with_fuel(Seq::filter, 2);
    let a = s.take(pos);
    let b = s.skip(pos);
    let single = seq![item];
    assert(s =~= a + b);
    assert(s.insert(pos, item) =~= a + (single + b));
    assert(single.drop_last() =~= Seq::<PhaseItem>::empty());
    assert(single.filter(p) == if p(item) {
        Seq::<PhaseItem>::empty().push(item)
    } else {
        Seq::<PhaseItem>::empty()
    });
    assert((a + (single + b)).filter(p) =~= a.filter(p) + (single.filter(p) + b.filter(p)));
    assert((a + b).filter(p) =~= a.filter(p) + b.filter(p));
    if p(item) {
        assert(forall|k: int| 0 <= k < b.len() ==> !p(#[trigger] b[k]));
        lemma_filter_none(b, p);
        assert(s.insert(pos, item).filter(p) =~= a.filter(p).push(item));
        assert(s.filter(p) =~= a.filter(p));
    } else {
        assert(s.insert(pos, item).filter(p) =~= a.filter(p) + b.filter(p));
    }
}

/// An ordered collection of drawables for one view and one pass.
///
/// The phase is appended to during queuing, sorted once per frame, and
/// consumed by the external drawer.
pub struct RenderPhase {
    pub items: Vec<PhaseItem>,
}

impl RenderPhase {
    /// An empty phase.
    pub fn new() -> (r: Self)
        ensures
            r.items@.len() == 0,
    {
        RenderPhase { items: Vec::new() }
    }

    /// Appends one item; order is by later sorting, not by insertion.
    pub fn add(&mut self, item: PhaseItem)
        ensures
            final(self).items@ == old(self).items@.push(item),
    {
        self.items.push(item);
    }

    /// Sorts the phase front to back: ascending by distance, keeping exactly
    /// the queued items (as a multiset), and stably: items of equal distance
    /// keep their insertion order (the subsequence of every distance class
    /// is unchanged).
    pub fn sort(&mut self)
        ensures
            spec_sorted(final(self).items@),
            final(self).items@.to_multiset() == old(self).items@.to_multiset(),
            final(self).items@.len() == old(self).items@.len(),
            forall|v: i64|
                final(self).items@.filter(#[trigger] distance_is(v)) == old(self).items@.filter(
                    distance_is(v),
                ),
    {
        let n = self.items.len();
        let mut out: Vec<PhaseItem> = Vec::new();
        let mut i: usize = 0;
        proof {
            broadcast use vstd::seq_lib::group_to_multiset_ensures;

            assert(self.items@.take(0) =~= Seq::<PhaseItem>::empty());
            assert(out@.to_multiset() =~= self.items@.take(0).to_multiset());
            reveal_with_fuel(Seq::filter, 2);
            assert forall|v: i64| out@.filter(#[trigger] distance_is(v)) == self.items@.take(
                0,
            ).filter(distance_is(v)) by {
                assert(out@ =~= self.items@.take(0));
            }
        }
        while i < n
            invariant
                n == self.items@.len(),
                i <= n,
                self.items@ == old(self).items@,
                spec_sorted(out@),
                out@.len() == i,
                out@.to_multiset() == self.items@.take(i as int).to_multiset(),
                forall|v: i64|
                    out@.filter(#[trigger] distance_is(v)) == self.items@.take(i as int).filter(
                        distance_is(v),
                    ),
            decreases n - i,
        {
            let item = self.items[i];
            let pos = find_insert_position(&out, item.distance);
            let ghost out0 = out@;
            out.insert(pos, item);
            proof {
                broadcast use vstd::seq_lib::group_to_multiset_ensures;

                out0.insert_ensures(pos as int, item);
                assert forall|a: int, b: int|
                    0 <= a < b < out@.len() implies out@[a].distance <= out@[b].distance by {
                    if b < pos {
                        assert(out@[a] == out0[a] && out@[b] == out0[b]);
                    } else if a > pos {
                        assert(out@[a] == out0[a - 1] && out@[b] == out0[b - 1]);
                    } else if a < pos && b == pos {
                        assert(out@[a] == out0[a]);
                    } else if a < pos && b > pos {
                        assert(out@[a] == out0[a] && out@[b] == out0[b - 1]);
                    } else if a == pos && b > pos {
                        assert(out@[b] == out0[b - 1]);
                    }
                }
                assert(self.items@.take(i + 1) =~= self.items@.take(i as int).push(item));
                assert(self.items@.take(i + 1).to_multiset() == self.items@.take(
                    i as int,
                ).to_multiset().insert(item));

                // Stability: the item joins the end of its own distance
                // class; every other class is untouched.
                assert forall|v: i64| out@.filter(#[trigger] distance_is(v)) == self.items@.take(
                    i + 1,
                ).filter(distance_is(v)) by {
                    let p = distance_is(v);
                    if p(item) {
                        assert forall|k: int| pos <= k < out0.len() implies !p(
                            #[trigger] out0[k],
                        ) by {
                            assert(out0[k].distance > item.distance);
                        }
                    }
                    lemma_filter_insert(out0, pos as int, item, p);
                    reveal_with_fuel(Seq::filter, 2);
                    let taken = self.items@.take(i as int);
                    assert(taken.push(item).drop_last() =~= taken);
                    assert(taken.push(item).last() == item);
                    assert(taken.push(item).filter(p) == if p(item) {
                        taken.filter(p).push(item)
                    } else {
                        taken.filter(p)
                    });
                    assert(self.items@.take(i + 1).filter(p) == taken.push(item).filter(p));
                }
            }
            i += 1;
        }
        proof {
            assert(self.items@.take(n as int) =~= self.items@);
        }
        self.items = out;
    }
}

/// The position where an item of the given distance can be inserted into a
/// sorted list, keeping it sorted and after every equal distance already
/// present (so earlier insertions of equal distance stay first).
fn find_insert_position(out: &Vec<PhaseItem>, distance: i64) -> (pos: usize)
    requires
        spec_sorted(out@),
    ensures
        pos <= out@.len(),
        forall|k: int| 0 <= k < pos ==> out@[k].distance <= distance,
        forall|k: int| pos <= k < out@.len() ==> out@[k].distance > distance,
{
    let mut pos: usize = 0;
    while pos < out.len() && out[pos].distance <= distance
        invariant
            pos <= out@.len(),
            spec_sorted(out@),
            forall|k: int| 0 <= k < pos ==> out@[k].distance <= distance,
        decreases out@.len() - pos,
    {
        pos += 1;
    }
    assert forall|k: int| pos <= k < out@.len() implies out@[k].distance > distance by {
        if pos < out@.len() && k > pos {
            assert(out@[pos as int].distance <= out@[k].distance);
        }
    }
    pos
}

/// Front-to-back ordering: after sorting, an item strictly nearer than
/// another never comes after it. If the items at positions `i` and `j` have
/// distances with `items[i].distance < items[j].distance`, then `i < j`.
pub proof fn lemma_sorted_ordering(s: Seq<PhaseItem>, i: int, j: int)
    requires
        spec_sorted(s),
        0 <= i < s.len(),
        0 <= j < s.len(),
        s[i].distance < s[j].distance,
    ensures
        i < j,
{
    if i > j {
        assert(s[j].distance <= s[i].distance);
    }
}

} // verus!
