//! The laws the index stands on.
//!
//! Each proof function here states one property that holds of the crate's
//! specifications as a whole — path resolution is idempotent, sequential
//! allocation counts 0, 1, 2, …, pagination partitions the link set,
//! aggregation is blind to pagination order, and recategorization moves a
//! group's discoverability from its old paths to its new ones.

use crate::allocator::spec_latest_link;
use crate::allocator::spec_link_chunk_id;
use crate::allocator::spec_max_chunk_id;
use crate::allocator::spec_next_chunk_id;
use crate::indexer::spec_fanout_links;
use crate::paths::spec_node_hash;
use crate::query::spec_page;
use crate::query::spec_sorted_group_links;
use crate::query::spec_targets;
use crate::query::spec_total_products;
use crate::recategorize::spec_unlink;
use crate::sort::spec_sort_links;
use crate::store::LinkEntryView;
use crate::store::LinkInfoView;
use crate::store::StoreView;
use crate::store::lemma_links_at_characterization;
use crate::store::spec_links_at;
use vstd::prelude::*;

verus! {

/// Law: resolving the same path string twice yields the same node hash —
/// resolution depends on the string alone, so node creation is idempotent
/// and concurrent resolvers converge.
pub proof fn lemma_resolve_path_node_idempotent(path: Seq<char>, a: Seq<char>, b: Seq<char>)
    requires
        a == spec_node_hash(path),
        b == spec_node_hash(path),
    ensures
        a == b,
{
}

/// Law: the greatest chunk id at a path is attained by some link and
/// bounds every link's chunk id.
pub proof fn lemma_max_chunk_id_ensures(links: Seq<LinkInfoView>)
    requires
        links.len() > 0,
    ensures
        exists|j: int|
            0 <= j < links.len() && spec_link_chunk_id(#[trigger] links[j]) == spec_max_chunk_id(
                links,
            ),
        forall|j: int|
            0 <= j < links.len() ==> spec_link_chunk_id(#[trigger] links[j]) <= spec_max_chunk_id(
                links,
            ),
    decreases links.len(),
{
    if links.len() == 1 {
        assert(spec_link_chunk_id(links[0]) == spec_max_chunk_id(links));
    } else {
        lemma_max_chunk_id_ensures(links.drop_last());
        let prev = spec_latest_link(links.drop_last());
        if spec_link_chunk_id(links.last()) > spec_link_chunk_id(prev) {
            assert(spec_link_chunk_id(links[links.len() - 1]) == spec_max_chunk_id(links));
        } else {
            let j = choose|j: int|
                0 <= j < links.drop_last().len() && spec_link_chunk_id(
                    #[trigger] links.drop_last()[j],
                ) == spec_max_chunk_id(links.drop_last());
            assert(links[j] == links.drop_last()[j]);
            assert(spec_link_chunk_id(links[j]) == spec_max_chunk_id(links));
        }
        assert forall|j: int| 0 <= j < links.len() implies spec_link_chunk_id(#[trigger] links[j])
            <= spec_max_chunk_id(links) by {
            if j < links.len() - 1 {
                assert(links[j] == links.drop_last()[j]);
            }
        }
    }
}

/// Law: at a path whose links carry exactly the chunk ids 0 … n−1 in
/// creation order, the allocator hands out n — so the first group at a
/// fresh path receives 0, and the n-th sequential creation receives n−1.
pub proof fn lemma_sequential_allocation(links: Seq<LinkInfoView>, n: int)
    requires
        links.len() == n,
        0 <= n < u32::MAX,
        forall|i: int| 0 <= i < n ==> spec_link_chunk_id(#[trigger] links[i]) == i as u32,
    ensures
        spec_next_chunk_id(links) == n as u32,
{
    if n == 0 {
    } else {
        lemma_max_chunk_id_ensures(links);
        assert(spec_link_chunk_id(links[n - 1]) == (n - 1) as u32);
        assert(spec_max_chunk_id(links) >= (n - 1) as u32);
        let j = choose|j: int|
            0 <= j < links.len() && spec_link_chunk_id(#[trigger] links[j]) == spec_max_chunk_id(
                links,
            );
        assert(spec_max_chunk_id(links) == j as u32);
        assert(spec_max_chunk_id(links) == (n - 1) as u32);
    }
}

/// The concatenation of all pages of a sequence from `offset` on, the
/// offset stepped by `limit`.
pub open spec fn spec_concat_pages<T>(s: Seq<T>, limit: int, offset: int) -> Seq<T>
    decreases (if offset >= s.len() {
        0int
    } else {
        s.len() - offset
    })
        when 0 <= offset && 0 < limit
{
    if offset >= s.len() {
        Seq::empty()
    } else {
        spec_page(s, offset, limit) + spec_concat_pages(s, limit, offset + limit)
    }
}

/// Law: stepping through a sequence page by page reproduces its suffix
/// from the starting offset — no omissions, no duplicates.
pub proof fn lemma_pages_cover<T>(s: Seq<T>, limit: int, offset: int)
    requires
        0 < limit,
        0 <= offset,
    ensures
        spec_concat_pages(s, limit, offset) == s.skip(offset).take(
            if offset >= s.len() {
                0
            } else {
                s.len() - offset
            },
        ),
    decreases (if offset >= s.len() {
        0int
    } else {
        s.len() - offset
    }),
{
    if offset >= s.len() {
        assert(spec_concat_pages(s, limit, offset) =~= s.skip(offset).take(0));
    } else {
        lemma_pages_cover(s, limit, offset + limit);
        assert(spec_concat_pages(s, limit, offset) =~= s.skip(offset).take(s.len() - offset));
    }
}

/// Law: pagination is a partition. The union of all pages of the sorted
/// link list — offset 0 stepped by any positive limit — is the sorted
/// list itself, and that list is a permutation of the unsorted link set:
/// nothing is omitted, nothing is duplicated.
pub proof fn lemma_pagination_partition(links: Seq<LinkInfoView>, limit: int)
    requires
        0 < limit,
    ensures
        spec_concat_pages(spec_sort_links(links), limit, 0) == spec_sort_links(links),
        spec_sort_links(links).to_multiset() == links.to_multiset(),
{
    let sorted = spec_sort_links(links);
    lemma_pages_cover(sorted, limit, 0);
    assert(sorted.skip(0) =~= sorted);
    if sorted.len() > 0 {
        assert(sorted.take(sorted.len() as int) =~= sorted);
    } else {
        assert(sorted.take(0) =~= sorted);
    }
    crate::sort::lemma_sort_links_ensures(links);
}

/// Law: the aggregate product count over a path's raw link set equals the
/// summed count over the one full page that `list_group_links` serves at
/// offset 0 with the total group count as the limit — fetching every group
/// through pagination counts exactly what aggregation counts.
pub proof fn lemma_aggregate_equals_listed_sum(s: StoreView, path: Seq<char>)
    ensures
        spec_total_products(s, spec_targets(spec_links_at(s.links, spec_node_hash(path))))
            == spec_total_products(
            s,
            spec_targets(
                spec_page(
                    spec_sorted_group_links(s, path),
                    0,
                    spec_links_at(s.links, spec_node_hash(path)).len() as int,
                ),
            ),
        ),
{
    let links = spec_links_at(s.links, spec_node_hash(path));
    let sorted = spec_sorted_group_links(s, path);
    crate::sort::lemma_sort_links_ensures(links);
    assert(spec_page(sorted, 0, links.len() as int) =~= sorted);
    crate::query::lemma_total_products_sort(s, links);
}

/// Law: the listing order at a path is deterministic. Enumeration hands
/// links over in creation order — strictly increasing link ids — and the
/// sort is stable, so the sorted listing is ascending by chunk id and,
/// among the equal chunk ids concurrent allocation can produce, ascending
/// by creation; an unchanged link set always paginates the same way.
pub proof fn lemma_listing_order_deterministic(s: StoreView, path: Seq<char>)
    requires
        s.links.len() <= u64::MAX,
    ensures
        crate::sort::spec_links_sorted(spec_sorted_group_links(s, path)),
        crate::sort::spec_stable_by_link_id(spec_sorted_group_links(s, path)),
{
    let links = spec_links_at(s.links, spec_node_hash(path));
    lemma_links_at_characterization(s.links, spec_node_hash(path));
    crate::sort::lemma_sort_links_ensures(links);
    crate::sort::lemma_sort_links_stable(links);
}

/// Law: after a recategorization — the old group unlinked from its old
/// paths, the new group fanned out at its new paths — no old path holds a
/// live link to the old group any more.
pub proof fn lemma_recategorized_group_left_old_paths(
    links: Seq<LinkEntryView>,
    old_paths: Seq<Seq<char>>,
    old_hash: u64,
    new_paths: Seq<Seq<char>>,
    new_hash: u64,
    chunk_id: u32,
    p: Seq<char>,
)
    requires
        old_paths.contains(p),
        new_hash != old_hash,
        links.len() + new_paths.len() <= u64::MAX,
    ensures
        ({
            let after = spec_unlink(links, old_paths, old_hash) + spec_fanout_links(
                new_paths,
                new_hash,
                chunk_id,
            );
            forall|j: int|
                0 <= j < spec_links_at(after, spec_node_hash(p)).len() ==> (#[trigger] spec_links_at(
                    after,
                    spec_node_hash(p),
                )[j]).target != old_hash
        }),
{
    let after = spec_unlink(links, old_paths, old_hash) + spec_fanout_links(
        new_paths,
        new_hash,
        chunk_id,
    );
    let found = spec_links_at(after, spec_node_hash(p));
    lemma_links_at_characterization(after, spec_node_hash(p));
    assert forall|j: int| 0 <= j < found.len() implies (#[trigger] found[j]).target
        != old_hash by {
        let i = found[j].link_id as int;
        assert(after[i].target == found[j].target && !after[i].deleted);
        if i < links.len() {
            assert(after[i] == spec_unlink(links, old_paths, old_hash)[i]);
            if links[i].target == old_hash && after[i].base == spec_node_hash(p) {
                assert(old_paths.contains(links[i].base));
                assert(after[i].deleted);
            }
        } else {
            assert(after[i] == spec_fanout_links(new_paths, new_hash, chunk_id)[i - links.len()]);
            assert(after[i].target == new_hash);
        }
    }
}

/// Law: a freshly written group is discoverable only at the paths its
/// fan-out named. When every pre-existing link's target lies below the new
/// record's hash — as every link the library itself wrote does, since a
/// record's hash is past every earlier one — no path outside the new paths
/// holds a link to the new group.
pub proof fn lemma_recategorized_group_only_at_new_paths(
    links: Seq<LinkEntryView>,
    old_paths: Seq<Seq<char>>,
    old_hash: u64,
    new_paths: Seq<Seq<char>>,
    new_hash: u64,
    chunk_id: u32,
    p: Seq<char>,
)
    requires
        forall|i: int| 0 <= i < links.len() ==> (#[trigger] links[i]).target < new_hash,
        !new_paths.contains(p),
        links.len() + new_paths.len() <= u64::MAX,
    ensures
        ({
            let after = spec_unlink(links, old_paths, old_hash) + spec_fanout_links(
                new_paths,
                new_hash,
                chunk_id,
            );
            forall|j: int|
                0 <= j < spec_links_at(after, spec_node_hash(p)).len() ==> (#[trigger] spec_links_at(
                    after,
                    spec_node_hash(p),
                )[j]).target != new_hash
        }),
{
    let after = spec_unlink(links, old_paths, old_hash) + spec_fanout_links(
        new_paths,
        new_hash,
        chunk_id,
    );
    let found = spec_links_at(after, spec_node_hash(p));
    lemma_links_at_characterization(after, spec_node_hash(p));
    assert forall|j: int| 0 <= j < found.len() implies (#[trigger] found[j]).target
        != new_hash by {
        let i = found[j].link_id as int;
        assert(after[i].target == found[j].target && after[i].base == spec_node_hash(p));
        if i < links.len() {
            assert(after[i].target == links[i].target);
        } else {
            let w = i - links.len();
            assert(after[i] == spec_fanout_links(new_paths, new_hash, chunk_id)[w]);
            assert(after[i].base == spec_node_hash(new_paths[w]));
            assert(new_paths[w] == p);
            assert(new_paths.contains(p));
        }
    }
}

/// Law: after a recategorization, every new path holds a live link to the
/// new group — the new group is discoverable exactly where its new
/// categorization says.
pub proof fn lemma_recategorized_group_at_new_paths(
    links: Seq<LinkEntryView>,
    old_paths: Seq<Seq<char>>,
    old_hash: u64,
    new_paths: Seq<Seq<char>>,
    new_hash: u64,
    chunk_id: u32,
    w: int,
)
    requires
        0 <= w < new_paths.len(),
        links.len() + new_paths.len() <= u64::MAX,
    ensures
        ({
            let after = spec_unlink(links, old_paths, old_hash) + spec_fanout_links(
                new_paths,
                new_hash,
                chunk_id,
            );
            exists|j: int|
                0 <= j < spec_links_at(after, spec_node_hash(new_paths[w])).len()
                    && (#[trigger] spec_links_at(after, spec_node_hash(new_paths[w]))[j]).target
                    == new_hash
        }),
{
    let after = spec_unlink(links, old_paths, old_hash) + spec_fanout_links(
        new_paths,
        new_hash,
        chunk_id,
    );
    let node = spec_node_hash(new_paths[w]);
    let found = spec_links_at(after, node);
    lemma_links_at_characterization(after, node);
    let i = links.len() + w;
    assert(after[i] == spec_fanout_links(new_paths, new_hash, chunk_id)[w]);
    assert(after[i].base == node && !after[i].deleted);
    let j = choose|j: int| 0 <= j < found.len() && (#[trigger] found[j].link_id) as int == i;
    assert(found[j].target == after[i].target);
}

} // verus!
