//! The chunk allocator.
//!
//! Each group link at a path carries its group's chunk id in the link tag.
//! There is no stored counter: the next id is always recomputed from the
//! links present at allocation time, which trades a linear scan for
//! lock-freedom. Two writers that allocate concurrently can both observe the
//! same latest id and create two groups carrying the same id; that race is
//! accepted, and every consumer of chunk ids tolerates duplicates.

use crate::chunk::decode_chunk_tag;
use crate::chunk::spec_decode_chunk_tag;
use crate::paths::NodeHash;
use crate::store::CatalogStore;
use crate::store::LinkInfo;
use crate::store::LinkInfoView;
use crate::store::spec_links_at;
use vstd::prelude::*;

verus! {

/// The chunk id one enumerated link carries.
pub open spec fn spec_link_chunk_id(l: LinkInfoView) -> u32 {
    spec_decode_chunk_tag(l.tag)
}

/// The link carrying the greatest chunk id, the earliest-created one when
/// several carry it.
pub open spec fn spec_latest_link(links: Seq<LinkInfoView>) -> LinkInfoView
    recommends
        links.len() > 0,
    decreases links.len(),
{
    if links.len() <= 1 {
        links.first()
    } else {
        let prev = spec_latest_link(links.drop_last());
        if spec_link_chunk_id(links.last()) > spec_link_chunk_id(prev) {
            links.last()
        } else {
            prev
        }
    }
}

/// The greatest chunk id any of the links carries, or 0 with no links.
pub open spec fn spec_max_chunk_id(links: Seq<LinkInfoView>) -> u32 {
    if links.len() == 0 {
        0u32
    } else {
        spec_link_chunk_id(spec_latest_link(links))
    }
}

/// The next chunk id to allocate: 0 at a fresh path, otherwise one past the
/// greatest id observed, held at `u32::MAX` once the id space is exhausted.
pub open spec fn spec_next_chunk_id(links: Seq<LinkInfoView>) -> u32 {
    if links.len() == 0 {
        0u32
    } else if spec_max_chunk_id(links) == u32::MAX {
        u32::MAX
    } else {
        (spec_max_chunk_id(links) + 1) as u32
    }
}

/// Finds the link with the greatest chunk id among the live links of a
/// list, keeping the earliest among equals.
pub fn latest_link(links: &Vec<LinkInfo>) -> (r: Option<LinkInfo>)
    ensures
        links@.len() == 0 ==> r is None,
        links@.len() > 0 ==> r is Some && r->0@ == spec_latest_link(links.deep_view()),
{
    let ghost lv: Seq<LinkInfoView> = links.deep_view();
    if links.len() == 0 {
        return None;
    }
    let mut best: LinkInfo = links[0].clone();
    let mut best_id: u32 = decode_chunk_tag(best.tag.as_slice());
    proof {
        assert(lv.take(1).first() == lv[0]);
        assert(lv.take(1).len() == 1);
        assert(best@ == spec_latest_link(lv.take(1)));
    }
    let mut i: usize = 1;
    while i < links.len()
        invariant
            1 <= i <= links.len(),
            lv == links.deep_view(),
            lv.len() == links@.len(),
            best@ == spec_latest_link(lv.take(i as int)),
            best_id == spec_link_chunk_id(best@),
        decreases links.len() - i,
    {
        let cand = &links[i];
        let cand_id = decode_chunk_tag(cand.tag.as_slice());
        proof {
            assert(lv.take(i as int + 1).drop_last() =~= lv.take(i as int));
            assert(lv.take(i as int + 1).last() == lv[i as int]);
        }
        if cand_id > best_id {
            best = cand.clone();
            best_id = cand_id;
        }
        i = i + 1;
    }
    proof {
        assert(lv.take(links@.len() as int) =~= lv);
    }
    Some(best)
}

/// Computes the next chunk id at a path node: 0 when the node has no group
/// link, otherwise one past the greatest chunk id its links carry.
pub fn next_chunk_id(store: &CatalogStore, node: &NodeHash) -> (id: u32)
    ensures
        id == spec_next_chunk_id(spec_links_at(store@.links, node@)),
{
    let links = store.get_links(node);
    match latest_link(&links) {
        None => 0,
        Some(l) => {
            let max = decode_chunk_tag(l.tag.as_slice());
            if max == u32::MAX {
                u32::MAX
            } else {
                max + 1
            }
        },
    }
}

/// The chunk ids missing between consecutive entries of an ascending id
/// list: for each adjacent pair, every id strictly between the two.
pub open spec fn spec_missing_ids(ids: Seq<u32>) -> Seq<u32>
    decreases ids.len(),
{
    if ids.len() <= 1 {
        Seq::empty()
    } else {
        spec_missing_ids(ids.drop_last()) + spec_ids_between(ids[ids.len() - 2], ids.last())
    }
}

/// The ids strictly between two ids, in ascending order.
pub open spec fn spec_ids_between(lo: u32, hi: u32) -> Seq<u32> {
    if hi > lo {
        Seq::new((hi - lo - 1) as nat, |k: int| (lo + 1 + k) as u32)
    } else {
        Seq::empty()
    }
}

/// Lists the chunk ids missing from an ascending id list — the gaps a
/// partially failed batch leaves behind in a path's chunk sequence.
pub fn find_gaps_in_sequence(ids: &Vec<u32>) -> (gaps: Vec<u32>)
    ensures
        gaps@ == spec_missing_ids(ids@),
{
    let mut gaps: Vec<u32> = Vec::new();
    if ids.len() <= 1 {
        return gaps;
    }
    let mut i: usize = 1;
    while i < ids.len()
        invariant
            1 <= i <= ids.len(),
            gaps@ == spec_missing_ids(ids@.take(i as int)),
        decreases ids.len() - i,
    {
        let prev = ids[i - 1];
        let cur = ids[i];
        if cur > prev {
            let mut m: u32 = prev + 1;
            while m < cur
                invariant
                    prev < m <= cur,
                    gaps@ == spec_missing_ids(ids@.take(i as int)) + spec_ids_between(prev, cur).take(
                        m - prev - 1,
                    ),
                decreases cur - m,
            {
                gaps.push(m);
                proof {
                    assert(spec_ids_between(prev, cur).take(m - prev) =~= spec_ids_between(
                        prev,
                        cur,
                    ).take(m - prev - 1).push(m));
                }
                m = m + 1;
            }
            proof {
                assert(spec_ids_between(prev, cur).take(cur - prev - 1) =~= spec_ids_between(
                    prev,
                    cur,
                ));
            }
        } else {
            proof {
                assert(spec_ids_between(prev, cur) =~= Seq::<u32>::empty());
                assert(gaps@ =~= spec_missing_ids(ids@.take(i as int)) + spec_ids_between(prev, cur));
            }
        }
        proof {
            assert(ids@.take(i as int + 1).drop_last() =~= ids@.take(i as int));
            assert(ids@.take(i as int + 1).last() == ids@[i as int]);
            assert(ids@.take(i as int + 1)[i as int - 1] == ids@[i as int - 1]);
        }
        i = i + 1;
    }
    proof {
        assert(ids@.take(ids@.len() as int) =~= ids@);
    }
    gaps
}

} // verus!
