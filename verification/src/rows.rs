//! Facts about the rows that a filter keeps, and about pages of rows.

use vstd::prelude::*;

verus! {

/// Filtering a sequence with one more row keeps that row or passes over it.
pub proof fn lemma_filter_push<A>(s: Seq<A>, x: A, keep: spec_fn(A) -> bool)
    ensures
        s.push(x).filter(keep) == if keep(x) {
            s.filter(keep).push(x)
        } else {
            s.filter(keep)
        },
{
    reveal(Seq::filter);
    assert(s.push(x).drop_last() =~= s);
}

/// Filtering the first `i + 1` rows extends the filter of the first `i`.
pub proof fn lemma_filter_take_next<A>(s: Seq<A>, i: int, keep: spec_fn(A) -> bool)
    requires
        0 <= i < s.len(),
    ensures
        s.take(i + 1).filter(keep) == if keep(s[i]) {
            s.take(i).filter(keep).push(s[i])
        } else {
            s.take(i).filter(keep)
        },
{
    assert(s.take(i + 1) =~= s.take(i).push(s[i]));
    lemma_filter_push(s.take(i), s[i], keep);
}

/// Every row that a filter keeps passes the test and is a row of the
/// sequence, and every row of the sequence that passes is kept.
pub proof fn lemma_filter_members<A>(s: Seq<A>, keep: spec_fn(A) -> bool)
    ensures
        forall|i: int|
            0 <= i < s.filter(keep).len() ==> keep(#[trigger] s.filter(keep)[i]) && s.contains(
                s.filter(keep)[i],
            ),
        forall|k: int| 0 <= k < s.len() && keep(s[k]) ==> s.filter(keep).contains(#[trigger] s[k]),
        s.filter(keep).len() <= s.len(),
    decreases s.len(),
{
    reveal(Seq::filter);
    let kept = s.filter(keep);
    if s.len() > 0 {
        let head = s.drop_last();
        let inner = head.filter(keep);
        lemma_filter_members(head, keep);
        assert forall|i: int| 0 <= i < kept.len() implies keep(#[trigger] kept[i]) && s.contains(
            kept[i],
        ) by {
            if i < inner.len() {
                assert(kept[i] == inner[i]);
                assert(head.contains(inner[i]));
                let k = choose|k: int| 0 <= k < head.len() && head[k] == inner[i];
                assert(s[k] == kept[i]);
            } else {
                assert(kept[i] == s[s.len() - 1]);
            }
        }
        assert forall|k: int| 0 <= k < s.len() && keep(s[k]) implies kept.contains(
            #[trigger] s[k],
        ) by {
            if k < head.len() {
                assert(head[k] == s[k]);
                assert(inner.contains(head[k]));
                let i = choose|i: int| 0 <= i < inner.len() && inner[i] == head[k];
                assert(kept[i] == s[k]);
            } else {
                assert(kept[kept.len() - 1] == s[k]);
            }
        }
    }
}

/// A relation that holds between each earlier and each later row of a
/// sequence holds between the rows that a filter keeps.
pub proof fn lemma_filter_pairwise<A>(
    s: Seq<A>,
    keep: spec_fn(A) -> bool,
    related: spec_fn(A, A) -> bool,
)
    requires
        forall|i: int, j: int| 0 <= i < j < s.len() ==> related(#[trigger] s[i], #[trigger] s[j]),
    ensures
        forall|i: int, j: int|
            0 <= i < j < s.filter(keep).len() ==> related(
                #[trigger] s.filter(keep)[i],
                #[trigger] s.filter(keep)[j],
            ),
    decreases s.len(),
{
    reveal(Seq::filter);
    let kept = s.filter(keep);
    if s.len() > 0 {
        let head = s.drop_last();
        let inner = head.filter(keep);
        assert forall|i: int, j: int| 0 <= i < j < head.len() implies related(
            #[trigger] head[i],
            #[trigger] head[j],
        ) by {
            assert(head[i] == s[i] && head[j] == s[j]);
        }
        lemma_filter_pairwise(head, keep, related);
        lemma_filter_members(head, keep);
        assert forall|i: int, j: int| 0 <= i < j < kept.len() implies related(
            #[trigger] kept[i],
            #[trigger] kept[j],
        ) by {
            if j < inner.len() {
                assert(kept[i] == inner[i] && kept[j] == inner[j]);
            } else {
                assert(kept[i] == inner[i]);
                assert(head.contains(inner[i]));
                let k = choose|k: int| 0 <= k < head.len() && head[k] == inner[i];
                assert(related(s[k], s[s.len() - 1]));
            }
        }
    }
}

/// The page of `rows` that starts `offset` rows in and holds `limit` rows at
/// most.
pub open spec fn page_of<A>(rows: Seq<A>, offset: int, limit: int) -> Seq<A>
    recommends
        0 <= offset,
        0 <= limit,
{
    let start = if offset < rows.len() {
        offset
    } else {
        rows.len() as int
    };
    let end = if start + limit < rows.len() {
        start + limit
    } else {
        rows.len() as int
    };
    rows.subrange(start, end)
}

/// The page of a sequence with one more row.
pub proof fn lemma_page_push<A>(rows: Seq<A>, x: A, offset: int, limit: int)
    requires
        0 <= offset,
        0 <= limit,
    ensures
        page_of(rows.push(x), offset, limit) == if offset <= rows.len() && page_of(
            rows,
            offset,
            limit,
        ).len() < limit {
            page_of(rows, offset, limit).push(x)
        } else {
            page_of(rows, offset, limit)
        },
{
    let grown = rows.push(x);
    if offset <= rows.len() && page_of(rows, offset, limit).len() < limit {
        assert(page_of(grown, offset, limit) =~= page_of(rows, offset, limit).push(x));
    } else {
        assert(page_of(grown, offset, limit) =~= page_of(rows, offset, limit));
    }
}

} // verus!
