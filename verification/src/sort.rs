//! Stable ordering of group links by chunk id.
//!
//! Link enumeration is unordered as far as the store promises anything;
//! ordering comes solely from the chunk id each link's tag carries. Because
//! concurrent allocation can hand two groups the same chunk id, the sort
//! must be stable — ties keep discovery order — or repeated calls against
//! an unchanged link set could paginate differently. The sort is specified
//! as a deterministic function, so every consumer gets the same order by
//! construction.

use crate::allocator::spec_link_chunk_id;
use crate::chunk::decode_chunk_tag;
use crate::store::LinkInfo;
use crate::store::LinkInfoView;
use vstd::prelude::*;

verus! {

/// Where a stable sort places a later-discovered link in an already sorted
/// list: after every link whose chunk id is not greater.
pub open spec fn spec_insert_link(s: Seq<LinkInfoView>, x: LinkInfoView) -> Seq<LinkInfoView>
    decreases s.len(),
{
    if s.len() == 0 {
        seq![x]
    } else if spec_link_chunk_id(s.last()) <= spec_link_chunk_id(x) {
        s.push(x)
    } else {
        spec_insert_link(s.drop_last(), x).push(s.last())
    }
}

/// The links sorted ascending by chunk id, stably: links with equal chunk
/// ids keep their discovery order.
pub open spec fn spec_sort_links(s: Seq<LinkInfoView>) -> Seq<LinkInfoView>
    decreases s.len(),
{
    if s.len() == 0 {
        s
    } else {
        spec_insert_link(spec_sort_links(s.drop_last()), s.last())
    }
}

/// Ascending by chunk id.
pub open spec fn spec_links_sorted(s: Seq<LinkInfoView>) -> bool {
    forall|i: int, j: int|
        0 <= i < j < s.len() ==> spec_link_chunk_id(s[i]) <= spec_link_chunk_id(s[j])
}

/// Inserting splits the sorted list at the first trailing run of strictly
/// greater chunk ids.
proof fn lemma_insert_link_at(s: Seq<LinkInfoView>, x: LinkInfoView, p: int)
    requires
        0 <= p <= s.len(),
        forall|k: int| p <= k < s.len() ==> spec_link_chunk_id(#[trigger] s[k]) > spec_link_chunk_id(x),
        p > 0 ==> spec_link_chunk_id(s[p - 1]) <= spec_link_chunk_id(x),
    ensures
        spec_insert_link(s, x) == s.subrange(0, p) + seq![x] + s.subrange(p, s.len() as int),
    decreases s.len(),
{
    if s.len() == 0 {
        assert(spec_insert_link(s, x) =~= s.subrange(0, p) + seq![x] + s.subrange(
            p,
            s.len() as int,
        ));
    } else if spec_link_chunk_id(s.last()) <= spec_link_chunk_id(x) {
        assert(p == s.len());
        assert(spec_insert_link(s, x) =~= s.subrange(0, p) + seq![x] + s.subrange(
            p,
            s.len() as int,
        ));
    } else {
        assert(p < s.len());
        let d = s.drop_last();
        lemma_insert_link_at(d, x, p);
        assert(spec_insert_link(s, x) =~= s.subrange(0, p) + seq![x] + s.subrange(
            p,
            s.len() as int,
        ));
    }
}

/// Inserting adds exactly the inserted link to the multiset of links.
pub proof fn lemma_insert_link_multiset(s: Seq<LinkInfoView>, x: LinkInfoView)
    ensures
        spec_insert_link(s, x).to_multiset() == s.to_multiset().insert(x),
        spec_insert_link(s, x).len() == s.len() + 1,
    decreases s.len(),
{
    broadcast use vstd::seq_lib::group_to_multiset_ensures;

    if s.len() == 0 {
        assert(seq![x] =~= Seq::<LinkInfoView>::empty().push(x));
        assert(Seq::<LinkInfoView>::empty().push(x).to_multiset() =~= Seq::<
            LinkInfoView,
        >::empty().to_multiset().insert(x));
    } else if spec_link_chunk_id(s.last()) <= spec_link_chunk_id(x) {
    } else {
        lemma_insert_link_multiset(s.drop_last(), x);
        assert(s.drop_last().push(s.last()) =~= s);
        assert(s.drop_last().to_multiset().insert(s.last()) == s.to_multiset());
        assert(spec_insert_link(s, x).to_multiset() == spec_insert_link(
            s.drop_last(),
            x,
        ).to_multiset().insert(s.last()));
        assert(s.drop_last().to_multiset().insert(x).insert(s.last()) == s.drop_last().to_multiset().insert(
            s.last(),
        ).insert(x));
    }
}

/// Inserting into a sorted list keeps it sorted.
proof fn lemma_insert_link_sorted(s: Seq<LinkInfoView>, x: LinkInfoView)
    requires
        spec_links_sorted(s),
    ensures
        spec_links_sorted(spec_insert_link(s, x)),
    decreases s.len(),
{
    if s.len() == 0 {
    } else if spec_link_chunk_id(s.last()) <= spec_link_chunk_id(x) {
        let r = s.push(x);
        assert forall|i: int, j: int| 0 <= i < j < r.len() implies spec_link_chunk_id(r[i])
            <= spec_link_chunk_id(r[j]) by {
            if j == r.len() - 1 {
                if i < s.len() - 1 {
                    assert(spec_link_chunk_id(s[i]) <= spec_link_chunk_id(s[s.len() - 1]));
                }
            }
        }
    } else {
        lemma_insert_link_sorted(s.drop_last(), x);
        let t = spec_insert_link(s.drop_last(), x);
        let r = t.push(s.last());
        assert forall|i: int, j: int| 0 <= i < j < r.len() implies spec_link_chunk_id(r[i])
            <= spec_link_chunk_id(r[j]) by {
            if j == r.len() - 1 {
                lemma_insert_link_multiset(s.drop_last(), x);
                if i < t.len() {
                    broadcast use vstd::seq_lib::group_to_multiset_ensures;

                    assert(t.to_multiset().contains(t[i]));
                    assert(s.drop_last().to_multiset().insert(x).contains(t[i]));
                    if t[i] == x {
                        assert(spec_link_chunk_id(t[i]) <= spec_link_chunk_id(s.last()));
                    } else {
                        assert(s.drop_last().to_multiset().contains(t[i]));
                        assert(s.drop_last().contains(t[i]));
                        let w = choose|w: int|
                            0 <= w < s.drop_last().len() && s.drop_last()[w] == t[i];
                        assert(s[w] == t[i]);
                        assert(spec_link_chunk_id(s[w]) <= spec_link_chunk_id(s.last()));
                    }
                }
            }
        }
    }
}

/// The sort returns a permutation of its input, sorted ascending by chunk
/// id.
pub proof fn lemma_sort_links_ensures(s: Seq<LinkInfoView>)
    ensures
        spec_sort_links(s).to_multiset() == s.to_multiset(),
        spec_sort_links(s).len() == s.len(),
        spec_links_sorted(spec_sort_links(s)),
    decreases s.len(),
{
    broadcast use vstd::seq_lib::group_to_multiset_ensures;

    if s.len() == 0 {
    } else {
        lemma_sort_links_ensures(s.drop_last());
        lemma_insert_link_multiset(spec_sort_links(s.drop_last()), s.last());
        lemma_insert_link_sorted(spec_sort_links(s.drop_last()), s.last());
        assert(s.drop_last().push(s.last()) =~= s);
        assert(s.drop_last().to_multiset().insert(s.last()) == s.to_multiset());
    }
}

/// Links with pairwise distinct ids keep, among equal chunk ids, the order
/// their ids give.
pub open spec fn spec_stable_by_link_id(s: Seq<LinkInfoView>) -> bool {
    forall|i: int, j: int|
        0 <= i < j < s.len() && spec_link_chunk_id(#[trigger] s[i]) == spec_link_chunk_id(
            #[trigger] s[j],
        ) ==> s[i].link_id < s[j].link_id
}

/// Inserting a link with a fresh, greater id keeps equal chunk ids ordered
/// by link id.
proof fn lemma_insert_link_stable(s: Seq<LinkInfoView>, x: LinkInfoView)
    requires
        spec_links_sorted(s),
        spec_stable_by_link_id(s),
        forall|i: int| 0 <= i < s.len() ==> (#[trigger] s[i]).link_id < x.link_id,
    ensures
        spec_stable_by_link_id(spec_insert_link(s, x)),
    decreases s.len(),
{
    if s.len() == 0 {
    } else if spec_link_chunk_id(s.last()) <= spec_link_chunk_id(x) {
        let r = s.push(x);
        assert forall|i: int, j: int|
            0 <= i < j < r.len() && spec_link_chunk_id(#[trigger] r[i]) == spec_link_chunk_id(
                #[trigger] r[j],
            ) implies r[i].link_id < r[j].link_id by {
            if j == r.len() - 1 {
                assert(r[i] == s[i]);
            }
        }
    } else {
        lemma_insert_link_stable(s.drop_last(), x);
        lemma_insert_link_sorted(s.drop_last(), x);
        lemma_insert_link_multiset(s.drop_last(), x);
        let t = spec_insert_link(s.drop_last(), x);
        let r = t.push(s.last());
        assert forall|i: int, j: int|
            0 <= i < j < r.len() && spec_link_chunk_id(#[trigger] r[i]) == spec_link_chunk_id(
                #[trigger] r[j],
            ) implies r[i].link_id < r[j].link_id by {
            if j == r.len() - 1 {
                broadcast use vstd::seq_lib::group_to_multiset_ensures;

                assert(t.to_multiset().contains(t[i]));
                assert(s.drop_last().to_multiset().insert(x).contains(t[i]));
                if t[i] == x {
                    assert(spec_link_chunk_id(s.last()) > spec_link_chunk_id(x));
                    assert(false);
                } else {
                    assert(s.drop_last().to_multiset().contains(t[i]));
                    assert(s.drop_last().contains(t[i]));
                    let w = choose|w: int|
                        0 <= w < s.drop_last().len() && s.drop_last()[w] == t[i];
                    assert(s[w] == t[i]);
                    assert(s[w].link_id < s[s.len() - 1].link_id);
                }
            }
        }
    }
}

/// Law: the sort is stable. When enumeration hands the links over with
/// strictly increasing link ids — as creation order does — links carrying
/// the same chunk id keep that order in the sorted list, so repeated
/// pagination against an unchanged link set is deterministic even under
/// the duplicate chunk ids concurrent allocation can produce.
pub proof fn lemma_sort_links_stable(s: Seq<LinkInfoView>)
    requires
        forall|i: int, j: int|
            0 <= i < j < s.len() ==> (#[trigger] s[i]).link_id < (#[trigger] s[j]).link_id,
    ensures
        spec_stable_by_link_id(spec_sort_links(s)),
    decreases s.len(),
{
    broadcast use vstd::seq_lib::group_to_multiset_ensures;

    if s.len() == 0 {
    } else {
        let dl = s.drop_last();
        let x = s.last();
        assert(forall|i: int, j: int|
            0 <= i < j < dl.len() ==> (#[trigger] dl[i]).link_id < (#[trigger] dl[j]).link_id);
        lemma_sort_links_stable(dl);
        lemma_sort_links_ensures(dl);
        let t = spec_sort_links(dl);
        assert forall|i: int| 0 <= i < t.len() implies (#[trigger] t[i]).link_id < x.link_id by {
            assert(t.to_multiset().contains(t[i]));
            assert(dl.to_multiset().contains(t[i]));
            assert(dl.contains(t[i]));
            let w = choose|w: int| 0 <= w < dl.len() && dl[w] == t[i];
            assert(s[w] == t[i]);
            assert(s[w].link_id < s[s.len() - 1].link_id);
        }
        lemma_insert_link_stable(t, x);
    }
}

/// Sorts enumerated links ascending by the chunk id their tags carry,
/// stably: links with equal chunk ids keep their enumeration order.
pub fn sort_links_by_chunk_id(links: Vec<LinkInfo>) -> (sorted: Vec<LinkInfo>)
    ensures
        sorted.deep_view() == spec_sort_links(links.deep_view()),
{
    let ghost lv: Seq<LinkInfoView> = links.deep_view();
    let mut sorted: Vec<LinkInfo> = Vec::new();
    let mut i: usize = 0;
    proof {
        assert(lv.take(0) =~= Seq::<LinkInfoView>::empty());
    }
    while i < links.len()
        invariant
            i <= links.len(),
            lv == links.deep_view(),
            lv.len() == links@.len(),
            sorted.deep_view() == spec_sort_links(lv.take(i as int)),
        decreases links.len() - i,
    {
        let x = links[i].clone();
        let key_x = decode_chunk_tag(x.tag.as_slice());
        let ghost sv: Seq<LinkInfoView> = sorted.deep_view();
        let mut j: usize = sorted.len();
        while j > 0 && decode_chunk_tag(sorted[j - 1].tag.as_slice()) > key_x
            invariant
                j <= sorted.len(),
                sv == sorted.deep_view(),
                sv.len() == sorted@.len(),
                key_x == spec_link_chunk_id(x@),
                forall|k: int|
                    j <= k < sv.len() ==> spec_link_chunk_id(#[trigger] sv[k]) > spec_link_chunk_id(
                        x@,
                    ),
            decreases j,
        {
            j = j - 1;
        }
        sorted.insert(j, x);
        proof {
            lemma_insert_link_at(sv, x@, j as int);
            assert(sorted.deep_view() =~= sv.subrange(0, j as int) + seq![x@] + sv.subrange(
                j as int,
                sv.len() as int,
            ));
            assert(sorted.deep_view() == spec_insert_link(sv, x@));
            assert(lv.take(i as int + 1).drop_last() =~= lv.take(i as int));
            assert(lv.take(i as int + 1).last() == lv[i as int]);
        }
        i = i + 1;
    }
    proof {
        assert(lv.take(links@.len() as int) =~= lv);
    }
    sorted
}

} // verus!
