//! The catalog query engine.
//!
//! Everything here reads one path's link set, orders it by chunk id
//! (stably, so pagination is deterministic against an unchanged link set),
//! and serves pages, counts and group bodies from it. Aggregations absorb
//! missing or malformed group records — they are excluded, never fatal —
//! because a partial answer serves a listing better than an aborted one.

use crate::allocator::spec_link_chunk_id;
use crate::error::CatalogError;
use crate::paths::resolve_path_node;
use crate::paths::spec_node_hash;
use crate::paths::spec_specific_path;
use crate::paths::specific_path_string;
use crate::product::Product;
use crate::sort::spec_insert_link;
use crate::sort::spec_sort_links;
use crate::sort::sort_links_by_chunk_id;
use crate::store::CatalogStore;
use crate::store::FetchedRecord;
use crate::store::LinkInfo;
use crate::store::LinkInfoView;
use crate::store::RecordPayload;
use crate::store::RecordPayloadView;
use crate::store::StoreView;
use crate::store::spec_fetch_records;
use crate::store::spec_links_at;
use crate::store::spec_record_at;
use vstd::prelude::*;

verus! {

/// The page of a sequence at `offset`, at most `limit` long.
pub open spec fn spec_page<T>(s: Seq<T>, offset: int, limit: int) -> Seq<T> {
    let lo = if offset > s.len() {
        s.len() as int
    } else {
        offset
    };
    let hi = if offset + limit > s.len() {
        s.len() as int
    } else {
        offset + limit
    };
    s.subrange(lo, hi)
}

/// The target record hashes of a link list, in order.
pub open spec fn spec_targets(links: Seq<LinkInfoView>) -> Seq<u64> {
    links.map_values(|l: LinkInfoView| l.target)
}

/// The group links at a path, stably sorted ascending by chunk id.
pub open spec fn spec_sorted_group_links(s: StoreView, path: Seq<char>) -> Seq<LinkInfoView> {
    spec_sort_links(spec_links_at(s.links, spec_node_hash(path)))
}

/// How many products the group behind a hash holds: 0 when the hash has no
/// record or the record is not a group.
pub open spec fn spec_group_product_count(s: StoreView, hash: u64) -> nat {
    match spec_record_at(s, hash) {
        Some(RecordPayloadView::Group(g)) => g.products.len(),
        _ => 0,
    }
}

/// The total product count over a list of group hashes, with unreadable
/// groups counting 0.
pub open spec fn spec_total_products(s: StoreView, hashes: Seq<u64>) -> nat
    decreases hashes.len(),
{
    if hashes.len() == 0 {
        0
    } else {
        spec_total_products(s, hashes.drop_last()) + spec_group_product_count(s, hashes.last())
    }
}

/// A natural number clamped into `u64`.
pub open spec fn spec_clamp_u64(n: nat) -> u64 {
    if n > u64::MAX {
        u64::MAX
    } else {
        n as u64
    }
}

/// The default number of groups a category query serves per page.
pub fn default_limit() -> (limit: usize)
    ensures
        limit == 5,
{
    5
}

/// One page of group hashes at a path, with the pre-pagination group count
/// and whether more pages follow.
#[derive(Debug)]
pub struct GroupLinksPage {
    pub group_hashes: Vec<u64>,
    pub total_groups: usize,
    pub has_more: bool,
}

/// Collects the target hashes of one page of an already sorted link list.
fn page_targets(sorted: &Vec<LinkInfo>, offset: usize, limit: usize) -> (targets: Vec<u64>)
    ensures
        targets@ == spec_targets(spec_page(sorted.deep_view(), offset as int, limit as int)),
{
    let ghost sv: Seq<LinkInfoView> = sorted.deep_view();
    let len = sorted.len();
    let lo = if offset > len {
        len
    } else {
        offset
    };
    let remaining = len - lo;
    let take_n = if limit > remaining {
        remaining
    } else {
        limit
    };
    let mut targets: Vec<u64> = Vec::new();
    let mut k: usize = 0;
    while k < take_n
        invariant
            k <= take_n,
            lo + take_n <= len,
            sv == sorted.deep_view(),
            sv.len() == sorted@.len(),
            len == sv.len(),
            targets@.len() == k,
            forall|j: int| 0 <= j < k ==> targets@[j] == sv[lo + j].target,
        decreases take_n - k,
    {
        targets.push(sorted[lo + k].target);
        k = k + 1;
    }
    proof {
        assert(targets@ =~= spec_targets(spec_page(sv, offset as int, limit as int)));
    }
    targets
}

/// Lists one page of the groups indexed at a path: the link set is
/// enumerated, stably sorted ascending by chunk id, and the page at
/// `group_offset` of at most `group_limit` hashes is returned together
/// with the pre-pagination group count.
pub fn list_group_links(
    store: &CatalogStore,
    path: &str,
    group_offset: usize,
    group_limit: usize,
) -> (page: GroupLinksPage)
    ensures
        page.group_hashes@ == spec_targets(
            spec_page(
                spec_sorted_group_links(store@, path@),
                group_offset as int,
                group_limit as int,
            ),
        ),
        page.total_groups == spec_links_at(store@.links, spec_node_hash(path@)).len(),
        page.has_more == (group_offset + group_limit < spec_links_at(
            store@.links,
            spec_node_hash(path@),
        ).len()),
{
    let node = resolve_path_node(path);
    let links = store.get_links(&node);
    let total_groups = links.len();
    proof {
        crate::sort::lemma_sort_links_ensures(links.deep_view());
    }
    let sorted = sort_links_by_chunk_id(links);
    let group_hashes = page_targets(&sorted, group_offset, group_limit);
    let has_more = group_offset < total_groups && group_limit < total_groups - group_offset;
    GroupLinksPage { group_hashes, total_groups, has_more }
}

/// Collects the target hashes of every link in a list.
fn all_targets(links: &Vec<LinkInfo>) -> (targets: Vec<u64>)
    ensures
        targets@ == spec_targets(links.deep_view()),
{
    let ghost lv: Seq<LinkInfoView> = links.deep_view();
    let mut targets: Vec<u64> = Vec::new();
    let mut i: usize = 0;
    while i < links.len()
        invariant
            i <= links.len(),
            lv == links.deep_view(),
            lv.len() == links@.len(),
            targets@.len() == i,
            forall|j: int| 0 <= j < i ==> targets@[j] == lv[j].target,
        decreases links.len() - i,
    {
        targets.push(links[i].target);
        i = i + 1;
    }
    proof {
        assert(targets@ =~= spec_targets(lv));
    }
    targets
}

/// Sums the product counts behind a list of group hashes, clamping at
/// `u64::MAX`; a hash without a readable group contributes 0.
fn sum_counts_clamped(store: &CatalogStore, hashes: &Vec<u64>) -> (total: u64)
    ensures
        total == spec_clamp_u64(spec_total_products(store@, hashes@)),
{
    let mut total: u64 = 0;
    let mut i: usize = 0;
    proof {
        assert(hashes@.take(0) =~= Seq::<u64>::empty());
    }
    while i < hashes.len()
        invariant
            i <= hashes.len(),
            total == spec_clamp_u64(spec_total_products(store@, hashes@.take(i as int))),
        decreases hashes.len() - i,
    {
        let c: usize = match store.get_record(hashes[i]) {
            Some(RecordPayload::Group(g)) => g.products.len(),
            _ => 0,
        };
        proof {
            assert(hashes@.take(i as int + 1).drop_last() =~= hashes@.take(i as int));
            assert(hashes@.take(i as int + 1).last() == hashes@[i as int]);
            assert(c as nat == spec_group_product_count(store@, hashes@[i as int]));
        }
        let c64 = c as u64;
        if total > u64::MAX - c64 {
            total = u64::MAX;
        } else {
            total = total + c64;
        }
        i = i + 1;
    }
    proof {
        assert(hashes@.take(hashes@.len() as int) =~= hashes@);
    }
    total
}

/// Sums `len(products)` over every group linked at a path, fetching each
/// group body; a group that cannot be fetched or is not a group record is
/// excluded from the sum rather than failing the aggregation.
pub fn aggregate_product_count(store: &CatalogStore, path: &str) -> (total: u64)
    ensures
        total == spec_clamp_u64(
            spec_total_products(
                store@,
                spec_targets(spec_links_at(store@.links, spec_node_hash(path@))),
            ),
        ),
{
    let node = resolve_path_node(path);
    let links = store.get_links(&node);
    let targets = all_targets(&links);
    sum_counts_clamped(store, &targets)
}

/// Law: placing one link into a sorted link list adds exactly that link's
/// group to the total product count.
pub proof fn lemma_total_products_insert(s: StoreView, links: Seq<LinkInfoView>, x: LinkInfoView)
    ensures
        spec_total_products(s, spec_targets(spec_insert_link(links, x))) == spec_total_products(
            s,
            spec_targets(links),
        ) + spec_group_product_count(s, x.target),
    decreases links.len(),
{
    if links.len() == 0 {
        assert(spec_targets(spec_insert_link(links, x)) =~= seq![x.target]);
        assert(seq![x.target].drop_last() =~= Seq::<u64>::empty());
        assert(spec_targets(links) =~= Seq::<u64>::empty());
    } else if spec_link_chunk_id(links.last()) <= spec_link_chunk_id(x) {
        assert(spec_targets(links.push(x)) =~= spec_targets(links).push(x.target));
        assert(spec_targets(links).push(x.target).drop_last() =~= spec_targets(links));
    } else {
        let dl = links.drop_last();
        let y = links.last();
        lemma_total_products_insert(s, dl, x);
        assert(spec_targets(spec_insert_link(dl, x).push(y)) =~= spec_targets(
            spec_insert_link(dl, x),
        ).push(y.target));
        assert(spec_targets(spec_insert_link(dl, x)).push(y.target).drop_last() =~= spec_targets(
            spec_insert_link(dl, x),
        ));
        assert(spec_targets(links).drop_last() =~= spec_targets(dl));
        assert(spec_targets(links).last() == y.target);
    }
}

/// Law: the stable sort leaves the total product count over a path's links
/// unchanged — pagination order does not affect aggregation.
pub proof fn lemma_total_products_sort(s: StoreView, links: Seq<LinkInfoView>)
    ensures
        spec_total_products(s, spec_targets(spec_sort_links(links))) == spec_total_products(
            s,
            spec_targets(links),
        ),
    decreases links.len(),
{
    if links.len() == 0 {
    } else {
        lemma_total_products_sort(s, links.drop_last());
        lemma_total_products_insert(s, spec_sort_links(links.drop_last()), links.last());
        assert(spec_targets(links).drop_last() =~= spec_targets(links.drop_last()));
        assert(spec_targets(links).last() == links.last().target);
    }
}

/// What a category query asks for: the categorization triple naming the
/// path, and the group page wanted.
#[derive(Debug)]
pub struct GetProductsParams {
    pub category: String,
    pub subcategory: Option<String>,
    pub product_type: Option<String>,
    pub offset: usize,
    pub limit: usize,
}

/// The per-group product counts behind a list of group hashes, in order,
/// with unreadable groups skipped.
pub open spec fn spec_group_counts(s: StoreView, hashes: Seq<u64>) -> Seq<int>
    decreases hashes.len(),
{
    if hashes.len() == 0 {
        Seq::empty()
    } else {
        let prefix = spec_group_counts(s, hashes.drop_last());
        match spec_record_at(s, hashes.last()) {
            Some(RecordPayloadView::Group(g)) => prefix.push(g.products.len() as int),
            _ => prefix,
        }
    }
}

/// Lists the product count of every group at a path, in chunk-id order,
/// skipping groups that cannot be fetched or read; rejects a triple naming
/// a product type without a subcategory.
pub fn get_all_group_counts_for_path(store: &CatalogStore, params: &GetProductsParams) -> (r:
    Result<Vec<usize>, CatalogError>)
    ensures
        match spec_specific_path(
            params.category@,
            params.subcategory.deep_view(),
            params.product_type.deep_view(),
        ) {
            None => r == Result::<Vec<usize>, CatalogError>::Err(
                CatalogError::InvalidCategorization,
            ),
            Some(p) => r is Ok && r->Ok_0@.map_values(|c: usize| c as int) == spec_group_counts(
                store@,
                spec_targets(spec_sorted_group_links(store@, p)),
            ),
        },
{
    let path = match specific_path_string(
        params.category.as_str(),
        &params.subcategory,
        &params.product_type,
    ) {
        Ok(p) => p,
        Err(e) => {
            return Err(e);
        },
    };
    let node = resolve_path_node(path.as_str());
    let links = store.get_links(&node);
    let sorted = sort_links_by_chunk_id(links);
    let targets = all_targets(&sorted);
    let mut counts: Vec<usize> = Vec::new();
    let mut i: usize = 0;
    proof {
        assert(targets@.take(0) =~= Seq::<u64>::empty());
        assert(counts@.map_values(|c: usize| c as int) =~= spec_group_counts(
            store@,
            targets@.take(0),
        ));
    }
    while i < targets.len()
        invariant
            i <= targets.len(),
            counts@.map_values(|c: usize| c as int) == spec_group_counts(
                store@,
                targets@.take(i as int),
            ),
        decreases targets.len() - i,
    {
        proof {
            assert(targets@.take(i as int + 1).drop_last() =~= targets@.take(i as int));
            assert(targets@.take(i as int + 1).last() == targets@[i as int]);
        }
        match store.get_record(targets[i]) {
            Some(RecordPayload::Group(g)) => {
                counts.push(g.products.len());
                proof {
                    assert(counts@.map_values(|c: usize| c as int) =~= spec_group_counts(
                        store@,
                        targets@.take(i as int),
                    ).push(counts@.last() as int));
                }
            },
            _ => {},
        }
        i = i + 1;
    }
    proof {
        assert(targets@.take(targets@.len() as int) =~= targets@);
    }
    Ok(counts)
}

/// Reads the product count of the single group at a given chunk-order
/// offset of a path, answering 0 for an invalid triple, an offset past the
/// last group, or an unreadable group.
pub fn get_product_count_for_group(store: &CatalogStore, params: &GetProductsParams) -> (count:
    usize)
    ensures
        match spec_specific_path(
            params.category@,
            params.subcategory.deep_view(),
            params.product_type.deep_view(),
        ) {
            None => count == 0,
            Some(p) => {
                let sorted = spec_sorted_group_links(store@, p);
                if (params.offset as int) < sorted.len() {
                    count as nat == spec_group_product_count(
                        store@,
                        sorted[params.offset as int].target,
                    )
                } else {
                    count == 0
                }
            },
        },
{
    let path = match specific_path_string(
        params.category.as_str(),
        &params.subcategory,
        &params.product_type,
    ) {
        Ok(p) => p,
        Err(_) => {
            return 0;
        },
    };
    let node = resolve_path_node(path.as_str());
    let links = store.get_links(&node);
    let sorted = sort_links_by_chunk_id(links);
    if params.offset < sorted.len() {
        match store.get_record(sorted[params.offset].target) {
            Some(RecordPayload::Group(g)) => g.products.len(),
            _ => 0,
        }
    } else {
        0
    }
}

/// One page of the groups at a category path, together with the counts a
/// listing needs.
#[derive(Debug)]
pub struct CategorizedProducts {
    pub category: String,
    pub subcategory: Option<String>,
    pub product_type: Option<String>,
    pub product_groups: Vec<FetchedRecord>,
    pub total_groups: usize,
    pub total_products: u64,
    pub has_more: bool,
}

/// Serves one page of the groups at the path a categorization triple
/// names: links are stably sorted by chunk id, the page's group records
/// are fetched, and the page's product total is summed over the groups
/// that could be read. `total_groups` counts every link before
/// pagination; `has_more` says whether pages follow this one.
pub fn get_products_by_category(store: &CatalogStore, params: GetProductsParams) -> (r: Result<
    CategorizedProducts,
    CatalogError,
>)
    ensures
        match spec_specific_path(
            params.category@,
            params.subcategory.deep_view(),
            params.product_type.deep_view(),
        ) {
            None => r is Err && r->Err_0 == CatalogError::InvalidCategorization,
            Some(p) => r is Ok && ({
                let cp = r->Ok_0;
                let page = spec_page(
                    spec_sorted_group_links(store@, p),
                    params.offset as int,
                    params.limit as int,
                );
                &&& cp.product_groups.deep_view() == spec_fetch_records(
                    store@,
                    spec_targets(page),
                )
                &&& cp.total_groups == spec_links_at(store@.links, spec_node_hash(p)).len()
                &&& cp.total_products == spec_clamp_u64(
                    spec_total_products(store@, spec_targets(page)),
                )
                &&& cp.has_more == (params.offset + params.limit < spec_links_at(
                    store@.links,
                    spec_node_hash(p),
                ).len())
                &&& cp.category@ == params.category@
                &&& cp.subcategory.deep_view() == params.subcategory.deep_view()
                &&& cp.product_type.deep_view() == params.product_type.deep_view()
            }),
        },
{
    let path = match specific_path_string(
        params.category.as_str(),
        &params.subcategory,
        &params.product_type,
    ) {
        Ok(p) => p,
        Err(e) => {
            return Err(e);
        },
    };
    let node = resolve_path_node(path.as_str());
    let links = store.get_links(&node);
    let total_groups = links.len();
    let sorted = sort_links_by_chunk_id(links);
    let targets = page_targets(&sorted, params.offset, params.limit);
    let product_groups = store.concurrent_get_records(&targets);
    let total_products = sum_counts_clamped(store, &targets);
    let has_more = params.offset < total_groups && params.limit < total_groups - params.offset;
    let GetProductsParams { category, subcategory, product_type, offset: _, limit: _ } = params;
    Ok(
        CategorizedProducts {
            category,
            subcategory,
            product_type,
            product_groups,
            total_groups,
            total_products,
            has_more,
        },
    )
}

/// Serves every group at a main-category path in one unpaginated answer:
/// all group records in discovery order, with the total product count over
/// all of them and `has_more` always false.
pub fn get_all_category_products(store: &CatalogStore, category: String) -> (cp:
    CategorizedProducts)
    ensures
        ({
            let links = spec_links_at(
                store@.links,
                spec_node_hash(crate::paths::spec_main_path(category@)),
            );
            &&& cp.product_groups.deep_view() == spec_fetch_records(store@, spec_targets(links))
            &&& cp.total_groups == links.len()
            &&& cp.total_products == spec_clamp_u64(
                spec_total_products(store@, spec_targets(links)),
            )
            &&& cp.has_more == false
            &&& cp.category@ == category@
            &&& cp.subcategory is None
            &&& cp.product_type is None
        }),
{
    let path = crate::paths::main_path_string(category.as_str());
    let node = resolve_path_node(path.as_str());
    let links = store.get_links(&node);
    let total_groups = links.len();
    let targets = all_targets(&links);
    let product_groups = store.concurrent_get_records(&targets);
    let total_products = sum_counts_clamped(store, &targets);
    CategorizedProducts {
        category,
        subcategory: None,
        product_type: None,
        product_groups,
        total_groups,
        total_products,
        has_more: false,
    }
}

/// What a whole-path group fetch asks for: the categorization triple
/// naming the path.
#[derive(Debug)]
pub struct GetProductGroupsParams {
    pub category: String,
    pub subcategory: Option<String>,
    pub product_type: Option<String>,
}

/// Fetches every group record linked at the path a triple names, in
/// discovery order and without pagination; hashes the store does not know
/// are skipped. Rejects a product type given without a subcategory.
pub fn get_product_groups_by_path(store: &CatalogStore, params: &GetProductGroupsParams) -> (r:
    Result<Vec<FetchedRecord>, CatalogError>)
    ensures
        match spec_specific_path(
            params.category@,
            params.subcategory.deep_view(),
            params.product_type.deep_view(),
        ) {
            None => r is Err && r->Err_0 == CatalogError::InvalidCategorization,
            Some(p) => r is Ok && r->Ok_0.deep_view() == spec_fetch_records(
                store@,
                spec_targets(spec_links_at(store@.links, spec_node_hash(p))),
            ),
        },
{
    let path = match specific_path_string(
        params.category.as_str(),
        &params.subcategory,
        &params.product_type,
    ) {
        Ok(p) => p,
        Err(e) => {
            return Err(e);
        },
    };
    let node = resolve_path_node(path.as_str());
    let links = store.get_links(&node);
    let targets = all_targets(&links);
    Ok(store.concurrent_get_records(&targets))
}

/// Hands out every product stored in one group, in group order. Unlike the
/// aggregations, this is a single-entity read: a missing record or one of
/// the wrong shape is surfaced to the caller.
pub fn extract_products_from_group(store: &CatalogStore, group_hash: u64) -> (r: Result<
    Vec<Product>,
    CatalogError,
>)
    ensures
        match spec_record_at(store@, group_hash) {
            None => r is Err && r->Err_0 == CatalogError::NotFound,
            Some(p) => match p {
                RecordPayloadView::Group(g) => r is Ok && r->Ok_0.deep_view() == g.products,
                RecordPayloadView::Opaque(_) => r is Err && r->Err_0
                    == CatalogError::DeserializationError,
            },
        },
{
    match crate::catalog::get_group(store, group_hash) {
        Ok(g) => Ok(g.products),
        Err(e) => Err(e),
    }
}

/// What a paginated read of one group's products asks for.
#[derive(Debug)]
pub struct GroupProductsParams {
    pub group_hash: u64,
    pub offset: usize,
    pub limit: usize,
}

/// One page of a single group's products.
#[derive(Debug)]
pub struct PaginatedProducts {
    pub products: Vec<Product>,
    pub total: usize,
    pub has_more: bool,
}

/// Clones one page of a product list.
fn page_products(products: &Vec<Product>, offset: usize, limit: usize) -> (page: Vec<Product>)
    ensures
        page.deep_view() == spec_page(products.deep_view(), offset as int, limit as int),
{
    let ghost pv: Seq<crate::product::ProductView> = products.deep_view();
    let len = products.len();
    let lo = if offset > len {
        len
    } else {
        offset
    };
    let remaining = len - lo;
    let take_n = if limit > remaining {
        remaining
    } else {
        limit
    };
    let mut page: Vec<Product> = Vec::new();
    let mut k: usize = 0;
    while k < take_n
        invariant
            k <= take_n,
            lo + take_n <= len,
            pv == products.deep_view(),
            pv.len() == products@.len(),
            len == pv.len(),
            page@.len() == k,
            forall|j: int| 0 <= j < k ==> #[trigger] page@[j]@ == pv[lo + j],
        decreases take_n - k,
    {
        page.push(products[lo + k].clone());
        k = k + 1;
    }
    proof {
        assert(page.deep_view() =~= spec_page(pv, offset as int, limit as int));
    }
    page
}

/// Serves one page of a single group's products, with the group's total
/// product count and whether more products follow the page. A missing
/// record or one of the wrong shape is surfaced to the caller.
pub fn get_paginated_products_from_group(store: &CatalogStore, params: &GroupProductsParams) -> (r:
    Result<PaginatedProducts, CatalogError>)
    ensures
        match spec_record_at(store@, params.group_hash) {
            None => r is Err && r->Err_0 == CatalogError::NotFound,
            Some(p) => match p {
                RecordPayloadView::Group(g) => r is Ok && ({
                    let pp = r->Ok_0;
                    &&& pp.products.deep_view() == spec_page(
                        g.products,
                        params.offset as int,
                        params.limit as int,
                    )
                    &&& pp.total == g.products.len()
                    &&& pp.has_more == (params.offset + params.limit < g.products.len())
                }),
                RecordPayloadView::Opaque(_) => r is Err && r->Err_0
                    == CatalogError::DeserializationError,
            },
        },
{
    let group = match crate::catalog::get_group(store, params.group_hash) {
        Ok(g) => g,
        Err(e) => {
            return Err(e);
        },
    };
    let total = group.products.len();
    let products = page_products(&group.products, params.offset, params.limit);
    let has_more = params.offset < total && params.limit < total - params.offset;
    Ok(PaginatedProducts { products, total, has_more })
}

} // verus!
