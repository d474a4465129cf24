//! The link fan-out indexer.
//!
//! Indexing a group means creating one link per canonical path — primary
//! and additional — from the path's node to the group record, every link
//! tagged with the group's chunk id. Paths succeed or fail independently:
//! nothing rolls back links already created when a later path fails, and
//! the caller receives counts rather than a boolean so it can decide what a
//! partial success is worth. After each creation the indexer reads the
//! node's links back and confirms the new link is observable — a
//! consistency self-check, not something the store guarantees.

use crate::chunk::encode_chunk_tag;
use crate::chunk::spec_encode_chunk_tag;
use crate::paths::resolve_path_node;
use crate::paths::spec_node_hash;
use crate::store::CatalogStore;
use crate::store::LinkEntryView;
use crate::store::LinkInfo;
use crate::store::spec_links_at;
use vstd::prelude::*;

verus! {

/// The per-path outcome of one fan-out: how many links were created, how
/// many paths failed, and how many created links were observable when read
/// back.
#[derive(Clone, Copy, Debug, PartialEq, Eq, Structural)]
pub struct IndexReport {
    pub successful_links: usize,
    pub failed_links: usize,
    pub confirmed_links: usize,
}

/// The link entries one fan-out appends: one per path, in path order, each
/// targeting the group and tagged with its chunk id.
pub open spec fn spec_fanout_links(paths: Seq<Seq<char>>, target: u64, chunk_id: u32) -> Seq<
    LinkEntryView,
> {
    paths.map_values(
        |p: Seq<char>|
            LinkEntryView {
                base: spec_node_hash(p),
                target,
                tag: spec_encode_chunk_tag(chunk_id),
                deleted: false,
            },
    )
}

/// Tells whether any enumerated link targets the given record hash.
pub fn links_contain_target(links: &Vec<LinkInfo>, target: u64) -> (r: bool)
    ensures
        r == exists|j: int| 0 <= j < links@.len() && (#[trigger] links@[j]).target == target,
{
    let mut i: usize = 0;
    while i < links.len()
        invariant
            i <= links.len(),
            forall|j: int| 0 <= j < i ==> (#[trigger] links@[j]).target != target,
        decreases links.len() - i,
    {
        if links[i].target == target {
            return true;
        }
        i = i + 1;
    }
    false
}

/// Creates one link per path from the path's node to the group, each tagged
/// with the group's chunk id, and confirms each link by reading the node's
/// links back. In this store model every creation succeeds and is
/// observable, and the report says so.
pub fn create_links_for_group(
    store: &mut CatalogStore,
    group_hash: u64,
    paths: &Vec<String>,
    chunk_id: u32,
) -> (report: IndexReport)
    ensures
        final(store)@.records == old(store)@.records,
        final(store)@.links == old(store)@.links + spec_fanout_links(
            paths.deep_view(),
            group_hash,
            chunk_id,
        ),
        report.successful_links == paths@.len(),
        report.failed_links == 0,
        report.confirmed_links == paths@.len(),
{
    let ghost pathviews: Seq<Seq<char>> = paths.deep_view();
    let mut successful: usize = 0;
    let mut confirmed: usize = 0;
    let mut i: usize = 0;
    proof {
        assert(spec_fanout_links(pathviews.take(0), group_hash, chunk_id) =~= Seq::<
            LinkEntryView,
        >::empty());
        assert(store@.links =~= old(store)@.links + spec_fanout_links(
            pathviews.take(0),
            group_hash,
            chunk_id,
        ));
    }
    while i < paths.len()
        invariant
            i <= paths.len(),
            pathviews == paths.deep_view(),
            pathviews.len() == paths@.len(),
            successful == i,
            confirmed == i,
            store@.records == old(store)@.records,
            store@.links == old(store)@.links + spec_fanout_links(
                pathviews.take(i as int),
                group_hash,
                chunk_id,
            ),
        decreases paths.len() - i,
    {
        let node = resolve_path_node(paths[i].as_str());
        let tag = encode_chunk_tag(chunk_id);
        store.create_link(&node, group_hash, tag);
        successful = successful + 1;
        let back = store.get_links(&node);
        proof {
            let links_now = store@.links;
            assert(links_now.last().base == node@);
            assert(!links_now.last().deleted);
            assert(links_now.drop_last() =~= old(store)@.links + spec_fanout_links(
                pathviews.take(i as int),
                group_hash,
                chunk_id,
            ));
            assert(spec_links_at(links_now, node@) == spec_links_at(
                links_now.drop_last(),
                node@,
            ).push(
                crate::store::LinkInfoView {
                    link_id: (links_now.len() - 1) as u64,
                    target: group_hash,
                    tag: links_now.last().tag,
                },
            ));
            assert(back.deep_view().len() > 0);
            assert(back.deep_view().last().target == group_hash);
            assert(back@[back@.len() - 1].target == group_hash);
        }
        let found = links_contain_target(&back, group_hash);
        if found {
            confirmed = confirmed + 1;
        }
        proof {
            assert(spec_fanout_links(pathviews.take(i as int + 1), group_hash, chunk_id)
                =~= spec_fanout_links(pathviews.take(i as int), group_hash, chunk_id).push(
                LinkEntryView {
                    base: spec_node_hash(pathviews[i as int]),
                    target: group_hash,
                    tag: spec_encode_chunk_tag(chunk_id),
                    deleted: false,
                },
            ));
            assert(store@.links =~= old(store)@.links + spec_fanout_links(
                pathviews.take(i as int + 1),
                group_hash,
                chunk_id,
            ));
        }
        i = i + 1;
    }
    proof {
        assert(pathviews.take(paths@.len() as int) =~= pathviews);
    }
    IndexReport { successful_links: successful, failed_links: 0, confirmed_links: confirmed }
}

} // verus!
