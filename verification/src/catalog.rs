//! Creating and reading product groups.
//!
//! A group record is immutable: it is written once, linked from every path
//! its categorizations name, and never updated in place. Writing the record
//! and creating its links are separate store writes with no transaction
//! around them; a group whose links were never created is simply
//! unreachable by path traversal until someone re-runs the indexing.

use crate::allocator::spec_latest_link;
use crate::allocator::spec_link_chunk_id;
use crate::allocator::latest_link;
use crate::chunk::decode_chunk_tag;
use crate::error::CatalogError;
use crate::indexer::create_links_for_group;
use crate::indexer::spec_fanout_links;
use crate::paths::NodeHash;
use crate::paths::all_paths;
use crate::product::Categorization;
use crate::product::CategorizationView;
use crate::product::CreateProductGroupInput;
use crate::product::CreateProductGroupInputView;
use crate::product::PRODUCTS_PER_GROUP;
use crate::product::ProductGroup;
use crate::product::ProductGroupView;
use crate::product::clone_opt_string;
use crate::product::normalize_group;
use crate::product::spec_normalize_group;
use crate::paths::spec_all_paths;
use crate::store::CatalogStore;
use crate::store::RecordPayload;
use crate::store::RecordPayloadView;
use crate::store::StoreView;
use crate::store::spec_links_at;
use crate::store::spec_record_at;
use vstd::prelude::*;

verus! {

/// The group record a creation input describes, field for field.
pub open spec fn spec_group_of_input(input: CreateProductGroupInputView) -> ProductGroupView {
    ProductGroupView {
        category: input.category,
        subcategory: input.subcategory,
        product_type: input.product_type,
        products: input.products,
        chunk_id: input.chunk_id,
        additional_categorizations: input.additional_categorizations,
    }
}

/// The primary categorization stored on a group.
pub open spec fn spec_group_primary(g: ProductGroupView) -> CategorizationView {
    CategorizationView {
        category: g.category,
        subcategory: g.subcategory,
        product_type: g.product_type,
    }
}

/// The canonical paths a group is indexed under, derived from the
/// categorizations stored on the group itself.
pub open spec fn spec_group_paths(g: ProductGroupView) -> Seq<Seq<char>> {
    spec_all_paths(spec_group_primary(g), g.additional_categorizations)
}

/// Writes a new immutable group record and links it at every path its
/// categorizations name, each link tagged with the group's chunk id.
///
/// An empty product list is rejected before anything is written. On success
/// the returned hash addresses the new record, and the store has gained
/// exactly that record and its fan-out links.
pub fn create_product_group(store: &mut CatalogStore, input: CreateProductGroupInput) -> (r:
    Result<u64, CatalogError>)
    requires
        input.products@.len() <= PRODUCTS_PER_GROUP,
    ensures
        ({
            let g = spec_group_of_input(input@);
            if input.products@.len() == 0 {
                r == Result::<u64, CatalogError>::Err(CatalogError::EmptyGroup)
                    && final(store)@.records == old(store)@.records
                    && final(store)@.links == old(store)@.links
            } else {
                r is Ok && (r->Ok_0 as int) == old(store)@.records.len()
                    && final(store)@.records == old(store)@.records.push(
                    RecordPayloadView::Group(g),
                ) && final(store)@.links == old(store)@.links + spec_fanout_links(
                    spec_group_paths(g),
                    r->Ok_0,
                    g.chunk_id,
                )
            }
        }),
{
    if input.products.len() == 0 {
        return Err(CatalogError::EmptyGroup);
    }
    let primary = Categorization {
        category: input.category.clone(),
        subcategory: clone_opt_string(&input.subcategory),
        product_type: clone_opt_string(&input.product_type),
    };
    let paths = all_paths(&primary, &input.additional_categorizations);
    let chunk_id = input.chunk_id;
    let CreateProductGroupInput {
        category,
        subcategory,
        product_type,
        products,
        chunk_id: _,
        additional_categorizations,
    } = input;
    let group = ProductGroup {
        category,
        subcategory,
        product_type,
        products,
        chunk_id,
        additional_categorizations,
    };
    let ghost g: ProductGroupView = group@;
    proof {
        assert(g == spec_group_of_input(input@));
        assert(primary@ == spec_group_primary(g));
        assert(paths.deep_view() == spec_group_paths(g));
    }
    let group_hash = store.create_record(RecordPayload::Group(group));
    create_links_for_group(store, group_hash, &paths, chunk_id);
    Ok(group_hash)
}

/// Reads any record by hash. Kept alongside [`get_group`] because callers
/// of the raw read do not care whether the record is a group.
pub fn get_product_group(store: &CatalogStore, hash: u64) -> (r: Option<RecordPayload>)
    ensures
        match r {
            Some(p) => spec_record_at(store@, hash) == Some(p@),
            None => spec_record_at(store@, hash) is None,
        },
{
    match store.get_record(hash) {
        Some(p) => Some(p.clone()),
        None => None,
    }
}

/// Reads any record by hash. Products have no records of their own — they
/// live inside groups — so this is the same raw read as
/// [`get_product_group`], kept under the name its callers use.
pub fn get_product(store: &CatalogStore, hash: u64) -> (r: Option<RecordPayload>)
    ensures
        match r {
            Some(p) => spec_record_at(store@, hash) == Some(p@),
            None => spec_record_at(store@, hash) is None,
        },
{
    get_product_group(store, hash)
}

/// Reads a product group, telling an unknown hash (`NotFound`) apart from a
/// record that exists but is not a group (`DeserializationError`): callers
/// sometimes tolerate the latter where the former is a real fault.
pub fn get_group(store: &CatalogStore, hash: u64) -> (r: Result<ProductGroup, CatalogError>)
    ensures
        match spec_record_at(store@, hash) {
            None => r == Result::<ProductGroup, CatalogError>::Err(CatalogError::NotFound),
            Some(p) => match p {
                RecordPayloadView::Group(g) => r is Ok && r->Ok_0@ == g,
                RecordPayloadView::Opaque(_) => r == Result::<ProductGroup, CatalogError>::Err(
                    CatalogError::DeserializationError,
                ),
            },
        },
{
    match store.get_record(hash) {
        None => Err(CatalogError::NotFound),
        Some(RecordPayload::Group(g)) => Ok(g.clone()),
        Some(RecordPayload::Opaque(_)) => Err(CatalogError::DeserializationError),
    }
}

/// The latest group at a node: the target of the link carrying the
/// greatest chunk id (earliest such link when several tie), normalized, or
/// nothing when the node has no links or that target is not a readable
/// group.
pub open spec fn spec_latest_group(s: StoreView, node: Seq<char>) -> Option<
    (u64, ProductGroupView, u32),
> {
    let links = spec_links_at(s.links, node);
    if links.len() == 0 {
        None
    } else {
        let l = spec_latest_link(links);
        match spec_record_at(s, l.target) {
            Some(RecordPayloadView::Group(g)) => Some(
                (l.target, spec_normalize_group(g), spec_link_chunk_id(l)),
            ),
            _ => None,
        }
    }
}

/// The latest group found at a path node, with its hash and chunk id.
#[derive(Debug)]
pub struct LatestGroup {
    pub group_hash: u64,
    pub group: ProductGroup,
    pub chunk_id: u32,
}

/// Finds the group behind the link with the greatest chunk id at a node.
///
/// A missing or malformed target record yields `None` rather than an
/// error: this lookup feeds allocation and display, where a partial answer
/// beats aborting. The group read back is normalized.
pub fn get_latest_group_for_path(store: &CatalogStore, node: &NodeHash) -> (r: Option<LatestGroup>)
    ensures
        match r {
            Some(lg) => spec_latest_group(store@, node@) == Some(
                (lg.group_hash, lg.group@, lg.chunk_id),
            ),
            None => spec_latest_group(store@, node@) is None,
        },
{
    let links = store.get_links(node);
    match latest_link(&links) {
        None => None,
        Some(l) => {
            let chunk_id = decode_chunk_tag(l.tag.as_slice());
            match store.get_record(l.target) {
                Some(RecordPayload::Group(g)) => {
                    let group = normalize_group(g.clone());
                    Some(LatestGroup { group_hash: l.target, group, chunk_id })
                },
                _ => None,
            }
        },
    }
}

} // verus!
