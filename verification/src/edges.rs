//! Relationship edges: rows keyed by a pair of ids that carry an `active`
//! flag. An edge is never deleted when the relationship ends; the flag is
//! cleared. Reading an edge that does not exist yet creates it, inactive.

use vstd::prelude::*;
use crate::rows::{lemma_filter_members, lemma_filter_pairwise, lemma_filter_take_next};

verus! {

/// One row of an edge table.
#[derive(Clone, Copy, Debug, PartialEq, Eq, Structural)]
pub struct Edge {
    pub source: i32,
    pub target: i32,
    pub active: bool,
}

/// A table of edges with the composite key `(source, target)`.
#[derive(Debug)]
pub struct EdgeTable {
    pub rows: Vec<Edge>,
}

/// The row at position `i` has the key `(source, target)`.
pub open spec fn key_at(rows: Seq<Edge>, source: int, target: int, i: int) -> bool {
    0 <= i < rows.len() && rows[i].source == source && rows[i].target == target
}

/// No two rows share a key.
pub open spec fn keys_distinct(rows: Seq<Edge>) -> bool {
    forall|i: int, j: int|
        0 <= i < j < rows.len() ==> !(#[trigger] rows[i].source == rows[j].source
            && rows[i].target == #[trigger] rows[j].target)
}

/// The edges as a map from key to flag.
pub open spec fn edge_map(rows: Seq<Edge>) -> Map<(int, int), bool> {
    Map::new(
        |k: (int, int)| exists|i: int| key_at(rows, k.0, k.1, i),
        |k: (int, int)| rows[choose|i: int| key_at(rows, k.0, k.1, i)].active,
    )
}

/// The number of active rows that point at `target`.
pub open spec fn active_into(rows: Seq<Edge>, target: int) -> nat
    decreases rows.len(),
{
    if rows.len() == 0 {
        0
    } else {
        let rest = active_into(rows.drop_last(), target);
        if rows.last().target == target && rows.last().active {
            rest + 1
        } else {
            rest
        }
    }
}

/// The rows after the flag of the edge with `e`'s key is written: the row is
/// overwritten in place where the key exists, appended otherwise.
pub open spec fn rows_after_write(rows: Seq<Edge>, e: Edge) -> Seq<Edge> {
    if exists|i: int| key_at(rows, e.source as int, e.target as int, i) {
        rows.update(choose|i: int| key_at(rows, e.source as int, e.target as int, i), e)
    } else {
        rows.push(e)
    }
}

/// Every row of `after` carries the key of the row of `before` at its
/// position, or the key `(source, target)`.
pub open spec fn keys_from(before: Seq<Edge>, after: Seq<Edge>, source: int, target: int) -> bool {
    forall|i: int|
        0 <= i < after.len() ==> (i < before.len() && (#[trigger] after[i]).source
            == before[i].source && after[i].target == before[i].target) || (after[i].source
            == source && after[i].target == target)
}

/// With distinct keys, the row found at any position with a key is the one
/// the map holds for that key.
pub proof fn lemma_edge_map_at(rows: Seq<Edge>, i: int)
    requires
        keys_distinct(rows),
        0 <= i < rows.len(),
    ensures
        edge_map(rows).contains_key((rows[i].source as int, rows[i].target as int)),
        edge_map(rows)[(rows[i].source as int, rows[i].target as int)] == rows[i].active,
{
    let k = (rows[i].source as int, rows[i].target as int);
    assert(key_at(rows, k.0, k.1, i));
    let j = choose|j: int| key_at(rows, k.0, k.1, j);
    if j < i {
        assert(rows[j].source == rows[i].source && rows[j].target == rows[i].target);
    } else if i < j {
        assert(rows[i].source == rows[j].source && rows[i].target == rows[j].target);
    }
}

/// Appending a row with a fresh key adds its key to the map.
pub proof fn lemma_edge_map_push(rows: Seq<Edge>, e: Edge)
    requires
        keys_distinct(rows),
        !edge_map(rows).contains_key((e.source as int, e.target as int)),
    ensures
        keys_distinct(rows.push(e)),
        edge_map(rows.push(e)) == edge_map(rows).insert(
            (e.source as int, e.target as int),
            e.active,
        ),
{
    let after = rows.push(e);
    let k = (e.source as int, e.target as int);
    assert forall|i: int, j: int| 0 <= i < j < after.len() implies !(#[trigger] after[i].source
        == after[j].source && after[i].target == #[trigger] after[j].target) by {
        if j == rows.len() {
            if after[i].source == e.source && after[i].target == e.target {
                assert(key_at(rows, k.0, k.1, i));
            }
        } else {
            assert(after[i] == rows[i] && after[j] == rows[j]);
        }
    }
    let want = edge_map(rows).insert(k, e.active);
    assert forall|q: (int, int)| edge_map(after).contains_key(q) <==> want.contains_key(
        q,
    ) by {
        if edge_map(after).contains_key(q) {
            let i = choose|i: int| key_at(after, q.0, q.1, i);
            if i < rows.len() {
                assert(key_at(rows, q.0, q.1, i));
            }
        }
        if want.contains_key(q) {
            if q == k {
                assert(key_at(after, q.0, q.1, rows.len() as int));
            } else {
                let i = choose|i: int| key_at(rows, q.0, q.1, i);
                assert(key_at(after, q.0, q.1, i));
            }
        }
    }
    assert forall|q: (int, int)| edge_map(after).contains_key(q) implies edge_map(after)[q]
        == want[q] by {
        let i = choose|i: int| key_at(after, q.0, q.1, i);
        lemma_edge_map_at(after, i);
        if i < rows.len() {
            assert(key_at(rows, q.0, q.1, i));
            lemma_edge_map_at(rows, i);
        }
    }
    assert(edge_map(after) =~= want);
}

/// Overwriting the flag of a row changes the map at that row's key only.
pub proof fn lemma_edge_map_update(rows: Seq<Edge>, i: int, active: bool)
    requires
        keys_distinct(rows),
        0 <= i < rows.len(),
    ensures
        keys_distinct(
            rows.update(i, (Edge { source: rows[i].source, target: rows[i].target, active })),
        ),
        edge_map(
            rows.update(i, (Edge { source: rows[i].source, target: rows[i].target, active })),
        ) == edge_map(rows).insert((rows[i].source as int, rows[i].target as int), active),
{
    let e = Edge { source: rows[i].source, target: rows[i].target, active };
    let after = rows.update(i, e);
    let k = (e.source as int, e.target as int);
    assert forall|a: int, b: int| 0 <= a < b < after.len() implies !(#[trigger] after[a].source
        == after[b].source && after[a].target == #[trigger] after[b].target) by {
        assert(after[a].source == rows[a].source && after[a].target == rows[a].target);
        assert(after[b].source == rows[b].source && after[b].target == rows[b].target);
    }
    let want = edge_map(rows).insert(k, active);
    assert forall|q: (int, int)| edge_map(after).contains_key(q) <==> want.contains_key(
        q,
    ) by {
        if edge_map(after).contains_key(q) {
            let j = choose|j: int| key_at(after, q.0, q.1, j);
            assert(key_at(rows, q.0, q.1, j));
        }
        if want.contains_key(q) {
            if q == k {
                assert(key_at(after, q.0, q.1, i));
            } else {
                let j = choose|j: int| key_at(rows, q.0, q.1, j);
                assert(key_at(after, q.0, q.1, j));
            }
        }
    }
    assert forall|q: (int, int)| edge_map(after).contains_key(q) implies edge_map(after)[q]
        == want[q] by {
        let j = choose|j: int| key_at(after, q.0, q.1, j);
        lemma_edge_map_at(after, j);
        assert(key_at(rows, q.0, q.1, j));
        lemma_edge_map_at(rows, j);
    }
    assert(edge_map(after) =~= want);
}

/// The test that an edge does not point at `target`.
pub open spec fn not_into(target: int) -> spec_fn(Edge) -> bool {
    |e: Edge| e.target != target
}

/// The keys that do not point at `target`.
pub open spec fn keys_not_into(target: int) -> Set<(int, int)> {
    Set::new(|k: (int, int)| k.1 != target)
}

/// The test that two edges differ in their key.
pub open spec fn keys_differ() -> spec_fn(Edge, Edge) -> bool {
    |a: Edge, b: Edge| !(a.source == b.source && a.target == b.target)
}

/// Dropping the rows that point at `target` drops their keys from the map
/// and leaves the other edges as they are.
pub proof fn lemma_edge_map_without(rows: Seq<Edge>, target: int)
    requires
        keys_distinct(rows),
    ensures
        keys_distinct(rows.filter(not_into(target))),
        edge_map(rows.filter(not_into(target))) == edge_map(rows).restrict(keys_not_into(target)),
{
    let kept = rows.filter(not_into(target));
    assert forall|i: int, j: int| 0 <= i < j < rows.len() implies keys_differ()(
        #[trigger] rows[i],
        #[trigger] rows[j],
    ) by {
        assert(!(rows[i].source == rows[j].source && rows[i].target == rows[j].target));
    }
    lemma_filter_pairwise(rows, not_into(target), keys_differ());
    assert forall|i: int, j: int| 0 <= i < j < kept.len() implies !(#[trigger] kept[i].source
        == kept[j].source && kept[i].target == #[trigger] kept[j].target) by {
        assert(keys_differ()(kept[i], kept[j]));
    }
    lemma_filter_members(rows, not_into(target));
    let want = edge_map(rows).restrict(keys_not_into(target));
    assert forall|q: (int, int)| edge_map(kept).contains_key(q) <==> want.contains_key(q) by {
        if edge_map(kept).contains_key(q) {
            let i = choose|i: int| key_at(kept, q.0, q.1, i);
            assert(not_into(target)(kept[i]) && rows.contains(kept[i]));
            let k = choose|k: int| 0 <= k < rows.len() && rows[k] == kept[i];
            assert(key_at(rows, q.0, q.1, k));
        }
        if want.contains_key(q) {
            let k = choose|k: int| key_at(rows, q.0, q.1, k);
            assert(not_into(target)(rows[k]));
            assert(kept.contains(rows[k]));
            let i = choose|i: int| 0 <= i < kept.len() && kept[i] == rows[k];
            assert(key_at(kept, q.0, q.1, i));
        }
    }
    assert forall|q: (int, int)| edge_map(kept).contains_key(q) implies edge_map(kept)[q]
        == want[q] by {
        let i = choose|i: int| key_at(kept, q.0, q.1, i);
        lemma_edge_map_at(kept, i);
        assert(rows.contains(kept[i]));
        let k = choose|k: int| 0 <= k < rows.len() && rows[k] == kept[i];
        lemma_edge_map_at(rows, k);
    }
    assert(edge_map(kept) =~= want);
}

/// The number that one row adds to the count of active edges into
/// `target`.
pub open spec fn counts_into(e: Edge, target: int) -> int {
    if e.target == target && e.active {
        1
    } else {
        0
    }
}

/// Where no row points at `target`, no active edge does.
pub proof fn lemma_count_none(rows: Seq<Edge>, target: int)
    requires
        forall|i: int| 0 <= i < rows.len() ==> (#[trigger] rows[i]).target != target,
    ensures
        active_into(rows, target) == 0,
    decreases rows.len(),
{
    if rows.len() > 0 {
        assert(rows[rows.len() - 1].target != target);
        assert forall|i: int| 0 <= i < rows.drop_last().len() implies (
        #[trigger] rows.drop_last()[i]).target != target by {
            assert(rows.drop_last()[i] == rows[i]);
        }
        lemma_count_none(rows.drop_last(), target);
    }
}

/// Appending a row adds what the row counts.
pub proof fn lemma_count_push(rows: Seq<Edge>, e: Edge, target: int)
    ensures
        active_into(rows.push(e), target) == active_into(rows, target) + counts_into(e, target),
{
    assert(rows.push(e).drop_last() =~= rows);
}

/// Overwriting a row takes away what the old row counted and adds what the
/// new one counts.
pub proof fn lemma_count_update(rows: Seq<Edge>, i: int, e: Edge, target: int)
    requires
        0 <= i < rows.len(),
    ensures
        active_into(rows.update(i, e), target) == active_into(rows, target) - counts_into(
            rows[i],
            target,
        ) + counts_into(e, target),
    decreases rows.len(),
{
    let after = rows.update(i, e);
    if i == rows.len() - 1 {
        assert(after.drop_last() =~= rows.drop_last());
    } else {
        assert(after.drop_last() =~= rows.drop_last().update(i, e));
        assert(after.last() == rows.last());
        lemma_count_update(rows.drop_last(), i, e, target);
    }
}

/// Writing the flag of an edge changes the count of active edges into a
/// target by what the edge counted before and counts after.
pub proof fn lemma_count_after_write(rows: Seq<Edge>, e: Edge, target: int)
    requires
        keys_distinct(rows),
    ensures
        active_into(rows_after_write(rows, e), target) == active_into(rows, target) + counts_into(
            e,
            target,
        ) - if e.target == target && edge_map(rows).contains_key(
            (e.source as int, e.target as int),
        ) && edge_map(rows)[(e.source as int, e.target as int)] {
            1int
        } else {
            0int
        },
{
    if exists|i: int| key_at(rows, e.source as int, e.target as int, i) {
        let i = choose|i: int| key_at(rows, e.source as int, e.target as int, i);
        lemma_edge_map_at(rows, i);
        lemma_count_update(rows, i, e, target);
    } else {
        lemma_count_push(rows, e, target);
        assert(!edge_map(rows).contains_key((e.source as int, e.target as int)));
    }
}

impl View for EdgeTable {
    type V = Map<(int, int), bool>;

    open spec fn view(&self) -> Map<(int, int), bool> {
        edge_map(self.rows@)
    }
}

impl EdgeTable {
    /// The table's invariant: the composite key is unique.
    pub open spec fn wf(&self) -> bool {
        keys_distinct(self.rows@)
    }

    /// Whether the edge exists and is active. A missing edge reads as
    /// inactive.
    pub open spec fn is_active(&self, source: int, target: int) -> bool {
        self@.contains_key((source, target)) && self@[(source, target)]
    }

    /// The number of active edges that point at `target`.
    pub open spec fn spec_count_active_into(&self, target: int) -> nat {
        active_into(self.rows@, target)
    }

    /// An empty table.
    pub fn new() -> (r: EdgeTable)
        ensures
            r.wf(),
            r@ == Map::<(int, int), bool>::empty(),
            r.rows@.len() == 0,
    {
        let r = EdgeTable { rows: Vec::new() };
        assert(r@ =~= Map::<(int, int), bool>::empty());
        r
    }

    /// Decides whether the table meets its invariant.
    pub fn is_consistent(&self) -> (r: bool)
        ensures
            r == self.wf(),
    {
        let mut j: usize = 0;
        while j < self.rows.len()
            invariant
                j <= self.rows@.len(),
                forall|a: int, b: int|
                    0 <= a < b < j ==> !(#[trigger] self.rows@[a].source == self.rows@[b].source
                        && self.rows@[a].target == #[trigger] self.rows@[b].target),
            decreases self.rows@.len() - j,
        {
            let mut i: usize = 0;
            while i < j
                invariant
                    i <= j < self.rows@.len(),
                    forall|a: int|
                        0 <= a < i ==> !(#[trigger] self.rows@[a].source == self.rows@[j as int].source
                            && self.rows@[a].target == self.rows@[j as int].target),
                decreases j - i,
            {
                if self.rows[i].source == self.rows[j].source && self.rows[i].target
                    == self.rows[j].target {
                    return false;
                }
                i += 1;
            }
            j += 1;
        }
        true
    }

    /// The position of the row with the given key, if there is one.
    pub fn position(&self, source: i32, target: i32) -> (r: Option<usize>)
        ensures
            match r {
                Some(i) => key_at(self.rows@, source as int, target as int, i as int),
                None => !self@.contains_key((source as int, target as int)) && forall|i: int|
                    !key_at(self.rows@, source as int, target as int, i),
            },
    {
        let mut i: usize = 0;
        while i < self.rows.len()
            invariant
                i <= self.rows.len(),
                forall|j: int| 0 <= j < i ==> !key_at(self.rows@, source as int, target as int, j),
            decreases self.rows.len() - i,
        {
            if self.rows[i].source == source && self.rows[i].target == target {
                return Some(i);
            }
            i += 1;
        }
        None
    }

    /// Reads an edge without creating it.
    pub fn get(&self, source: i32, target: i32) -> (r: Option<bool>)
        requires
            self.wf(),
        ensures
            r == self@.get((source as int, target as int)),
    {
        match self.position(source, target) {
            Some(i) => {
                proof {
                    lemma_edge_map_at(self.rows@, i as int);
                }
                Some(self.rows[i].active)
            },
            None => None,
        }
    }

    /// Reads an edge; if it does not exist yet it is created, inactive, so
    /// that later writes are plain updates.
    pub fn read_through(&mut self, source: i32, target: i32) -> (r: bool)
        requires
            old(self).wf(),
        ensures
            final(self).wf(),
            r == old(self).is_active(source as int, target as int),
            final(self)@ == if old(self)@.contains_key((source as int, target as int)) {
                old(self)@
            } else {
                old(self)@.insert((source as int, target as int), false)
            },
            final(self).rows@ == if old(self)@.contains_key((source as int, target as int)) {
                old(self).rows@
            } else {
                old(self).rows@.push((Edge { source, target, active: false }))
            },
            keys_from(old(self).rows@, final(self).rows@, source as int, target as int),
    {
        match self.position(source, target) {
            Some(i) => {
                proof {
                    lemma_edge_map_at(self.rows@, i as int);
                }
                self.rows[i].active
            },
            None => {
                proof {
                    lemma_edge_map_push(self.rows@, Edge { source, target, active: false });
                }
                self.rows.push(Edge { source, target, active: false });
                false
            },
        }
    }

    /// Writes the flag of an edge: the row is inserted if absent, updated in
    /// place otherwise.
    pub fn upsert(&mut self, source: i32, target: i32, active: bool)
        requires
            old(self).wf(),
        ensures
            final(self).wf(),
            final(self)@ == old(self)@.insert((source as int, target as int), active),
            final(self).is_active(source as int, target as int) == active,
            final(self).rows@ == rows_after_write(old(self).rows@, (Edge { source, target, active })),
            keys_from(old(self).rows@, final(self).rows@, source as int, target as int),
            old(self)@.contains_key((source as int, target as int)) && old(self)@[(
                source as int,
                target as int,
            )] == active ==> final(self).rows@ == old(self).rows@,
            forall|t: int| #[trigger]
                final(self).spec_count_active_into(t) == old(self).spec_count_active_into(t) + (
                if t == target && active {
                    1int
                } else {
                    0int
                }) - (if t == target && old(self).is_active(source as int, target as int) {
                    1int
                } else {
                    0int
                }),
    {
        match self.position(source, target) {
            Some(i) => {
                proof {
                    lemma_edge_map_update(self.rows@, i as int, active);
                    lemma_edge_map_at(self.rows@, i as int);
                    let e = Edge { source, target, active };
                    assert(key_at(self.rows@, e.source as int, e.target as int, i as int));
                    let j = choose|j: int| key_at(self.rows@, e.source as int, e.target as int, j);
                    if j < i {
                        assert(self.rows@[j as int].source == self.rows@[i as int].source
                            && self.rows@[j as int].target == self.rows@[i as int].target);
                    } else if i < j {
                        assert(self.rows@[i as int].source == self.rows@[j as int].source
                            && self.rows@[i as int].target == self.rows@[j as int].target);
                    }
                    if self.rows@[i as int].active == active {
                        assert(self.rows@.update(i as int, (Edge { source, target, active }))
                            =~= self.rows@);
                    }
                }
                self.rows.set(i, Edge { source, target, active });
            },
            None => {
                proof {
                    lemma_edge_map_push(self.rows@, Edge { source, target, active });
                    assert(!exists|i: int| key_at(self.rows@, source as int, target as int, i));
                }
                self.rows.push(Edge { source, target, active });
            },
        }
        proof {
            assert forall|t: int| #[trigger]
                self.spec_count_active_into(t) == old(self).spec_count_active_into(t) + (if t
                    == target && active {
                    1int
                } else {
                    0int
                }) - (if t == target && old(self).is_active(source as int, target as int) {
                    1int
                } else {
                    0int
                }) by {
                lemma_count_after_write(old(self).rows@, Edge { source, target, active }, t);
            }
        }
    }

    /// Removes every edge that points at `target`; the other rows keep
    /// their order.
    pub fn remove_into(&mut self, target: i32)
        requires
            old(self).wf(),
        ensures
            final(self).wf(),
            final(self).rows@ == old(self).rows@.filter(not_into(target as int)),
            final(self)@ == old(self)@.restrict(keys_not_into(target as int)),
    {
        let mut kept: Vec<Edge> = Vec::new();
        let mut i: usize = 0;
        proof {
            reveal(Seq::filter);
            assert(self.rows@.take(0).filter(not_into(target as int)) =~= Seq::<Edge>::empty());
        }
        while i < self.rows.len()
            invariant
                i <= self.rows@.len(),
                self.rows@ == old(self).rows@,
                kept@ == self.rows@.take(i as int).filter(not_into(target as int)),
            decreases self.rows@.len() - i,
        {
            proof {
                lemma_filter_take_next(self.rows@, i as int, not_into(target as int));
            }
            if self.rows[i].target != target {
                kept.push(self.rows[i]);
            }
            i += 1;
        }
        proof {
            assert(self.rows@.take(i as int) =~= self.rows@);
            lemma_edge_map_without(self.rows@, target as int);
        }
        self.rows = kept;
    }

    /// Counts the active edges that point at `target`.
    pub fn count_active_into(&self, target: i32) -> (r: usize)
        ensures
            r == self.spec_count_active_into(target as int),
    {
        let mut n: usize = 0;
        let mut i: usize = 0;
        while i < self.rows.len()
            invariant
                i <= self.rows.len(),
                n <= i,
                n == active_into(self.rows@.take(i as int), target as int),
            decreases self.rows.len() - i,
        {
            proof {
                assert(self.rows@.take(i + 1).drop_last() =~= self.rows@.take(i as int));
            }
            if self.rows[i].target == target && self.rows[i].active {
                n += 1;
            }
            i += 1;
        }
        proof {
            assert(self.rows@.take(i as int) =~= self.rows@);
        }
        n
    }
}

} // verus!
