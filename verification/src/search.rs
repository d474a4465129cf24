//! Resolving product references.
//!
//! A product is addressed as (group hash, index within the group). Search
//! results arrive as lists of such references; serving them fetches each
//! distinct group once — batched fetch, then distribute — rather than once
//! per reference, to bound store round-trips.

use crate::error::CatalogError;
use crate::product::Product;
use crate::product::ProductGroupView;
use crate::product::ProductView;
use crate::store::CatalogStore;
use crate::store::FetchedRecordView;
use crate::store::RecordPayload;
use crate::store::RecordPayloadView;
use crate::store::StoreView;
use crate::store::spec_fetch_records;
use crate::store::spec_record_at;
use vstd::prelude::*;

verus! {

/// One product reference: the group it lives in and its index there.
#[derive(Clone, Copy, Debug, PartialEq, Eq, Structural)]
pub struct ProductReference {
    pub group_hash: u64,
    pub index: usize,
}

/// The products served for a list of references.
#[derive(Debug)]
pub struct SearchResult {
    pub products: Vec<Product>,
    pub total: usize,
}

/// Resolves one product reference to its product: `NotFound` for an
/// unknown group hash, `DeserializationError` for a record that is not a
/// group, `IndexOutOfRange` for an index past the group's products.
pub fn resolve_product_reference(store: &CatalogStore, group_hash: u64, index: usize) -> (r:
    Result<Product, CatalogError>)
    ensures
        match spec_record_at(store@, group_hash) {
            None => r is Err && r->Err_0 == CatalogError::NotFound,
            Some(p) => match p {
                RecordPayloadView::Group(g) => if (index as int) < g.products.len() {
                    r is Ok && r->Ok_0@ == g.products[index as int]
                } else {
                    r is Err && r->Err_0 == CatalogError::IndexOutOfRange
                },
                RecordPayloadView::Opaque(_) => r is Err && r->Err_0
                    == CatalogError::DeserializationError,
            },
        },
{
    match store.get_record(group_hash) {
        None => Err(CatalogError::NotFound),
        Some(RecordPayload::Group(g)) => {
            if index < g.products.len() {
                Ok(g.products[index].clone())
            } else {
                Err(CatalogError::IndexOutOfRange)
            }
        },
        Some(RecordPayload::Opaque(_)) => Err(CatalogError::DeserializationError),
    }
}

/// The distinct group hashes of a reference list, in first-appearance
/// order.
pub open spec fn spec_unique_hashes(refs: Seq<ProductReference>) -> Seq<u64>
    decreases refs.len(),
{
    if refs.len() == 0 {
        Seq::empty()
    } else {
        let prefix = spec_unique_hashes(refs.drop_last());
        if prefix.contains(refs.last().group_hash) {
            prefix
        } else {
            prefix.push(refs.last().group_hash)
        }
    }
}

/// The products one fetched group serves: for each reference naming the
/// group, in reference order, its product — references whose index lies
/// past the group's products serve nothing.
pub open spec fn spec_products_of_group(
    g: ProductGroupView,
    refs: Seq<ProductReference>,
    hash: u64,
) -> Seq<ProductView>
    decreases refs.len(),
{
    if refs.len() == 0 {
        Seq::empty()
    } else {
        let prefix = spec_products_of_group(g, refs.drop_last(), hash);
        let r = refs.last();
        if r.group_hash == hash && (r.index as int) < g.products.len() {
            prefix.push(g.products[r.index as int])
        } else {
            prefix
        }
    }
}

/// The products a list of fetched records serves, record by record;
/// fetched records that are not groups serve nothing.
pub open spec fn spec_serve_fetched(
    fetched: Seq<FetchedRecordView>,
    refs: Seq<ProductReference>,
) -> Seq<ProductView>
    decreases fetched.len(),
{
    if fetched.len() == 0 {
        Seq::empty()
    } else {
        let prefix = spec_serve_fetched(fetched.drop_last(), refs);
        match fetched.last().payload {
            RecordPayloadView::Group(g) => prefix + spec_products_of_group(
                g,
                refs,
                fetched.last().hash,
            ),
            _ => prefix,
        }
    }
}

/// The products a reference list resolves to: each distinct group is
/// fetched once, in first-appearance order, and serves its references in
/// reference order; unknown groups, non-group records and out-of-range
/// indices serve nothing.
pub open spec fn spec_reference_products(s: StoreView, refs: Seq<ProductReference>) -> Seq<
    ProductView,
> {
    spec_serve_fetched(spec_fetch_records(s, spec_unique_hashes(refs)), refs)
}

/// Tells whether a hash list contains a hash.
fn contains_hash(hashes: &Vec<u64>, hash: u64) -> (r: bool)
    ensures
        r == hashes@.contains(hash),
{
    let mut i: usize = 0;
    while i < hashes.len()
        invariant
            i <= hashes.len(),
            forall|j: int| 0 <= j < i ==> hashes@[j] != hash,
        decreases hashes.len() - i,
    {
        if hashes[i] == hash {
            return true;
        }
        i = i + 1;
    }
    false
}

/// Collects the distinct group hashes of a reference list, in
/// first-appearance order.
fn unique_hashes(references: &Vec<ProductReference>) -> (hashes: Vec<u64>)
    ensures
        hashes@ == spec_unique_hashes(references@),
{
    let ghost refs: Seq<ProductReference> = references@;
    let mut hashes: Vec<u64> = Vec::new();
    let mut i: usize = 0;
    proof {
        assert(refs.take(0) =~= Seq::<ProductReference>::empty());
    }
    while i < references.len()
        invariant
            i <= references.len(),
            refs == references@,
            hashes@ == spec_unique_hashes(refs.take(i as int)),
        decreases references.len() - i,
    {
        let h = references[i].group_hash;
        if !contains_hash(&hashes, h) {
            hashes.push(h);
        }
        proof {
            assert(refs.take(i as int + 1).drop_last() =~= refs.take(i as int));
            assert(refs.take(i as int + 1).last() == refs[i as int]);
        }
        i = i + 1;
    }
    proof {
        assert(refs.take(references@.len() as int) =~= refs);
    }
    hashes
}

/// Serves the references naming one fetched group, in reference order.
fn serve_group(
    products: &mut Vec<Product>,
    group: &crate::product::ProductGroup,
    references: &Vec<ProductReference>,
    hash: u64,
)
    ensures
        final(products).deep_view() == old(products).deep_view() + spec_products_of_group(
            group@,
            references@,
            hash,
        ),
{
    let ghost base: Seq<ProductView> = products.deep_view();
    let ghost refs: Seq<ProductReference> = references@;
    let mut j: usize = 0;
    proof {
        assert(refs.take(0) =~= Seq::<ProductReference>::empty());
        assert(products.deep_view() =~= base + spec_products_of_group(group@, refs.take(0), hash));
    }
    while j < references.len()
        invariant
            j <= references.len(),
            refs == references@,
            products.deep_view() == base + spec_products_of_group(
                group@,
                refs.take(j as int),
                hash,
            ),
        decreases references.len() - j,
    {
        let r = &references[j];
        proof {
            assert(refs.take(j as int + 1).drop_last() =~= refs.take(j as int));
            assert(refs.take(j as int + 1).last() == refs[j as int]);
        }
        if r.group_hash == hash && r.index < group.products.len() {
            let p = group.products[r.index].clone();
            proof {
                assert(p@ == group@.products[r.index as int]);
            }
            products.push(p);
            proof {
                assert(products.deep_view() =~= (base + spec_products_of_group(
                    group@,
                    refs.take(j as int),
                    hash,
                )).push(p@));
                assert(spec_products_of_group(group@, refs.take(j as int + 1), hash)
                    == spec_products_of_group(group@, refs.take(j as int), hash).push(
                    group@.products[refs[j as int].index as int],
                ));
                assert(products.deep_view() =~= base + spec_products_of_group(
                    group@,
                    refs.take(j as int + 1),
                    hash,
                ));
            }
        } else {
            proof {
                assert(products.deep_view() =~= base + spec_products_of_group(
                    group@,
                    refs.take(j as int + 1),
                    hash,
                ));
            }
        }
        j = j + 1;
    }
    proof {
        assert(refs.take(references@.len() as int) =~= refs);
    }
}

/// Resolves a list of product references: each distinct group hash is
/// fetched once and serves all its references, in first-appearance group
/// order and reference order within a group. References to unknown
/// hashes, non-group records or out-of-range indices are skipped.
pub fn get_products_by_references(store: &CatalogStore, references: &Vec<ProductReference>) -> (r:
    SearchResult)
    ensures
        r.products.deep_view() == spec_reference_products(store@, references@),
        r.total == r.products@.len(),
{
    let hashes = unique_hashes(references);
    let fetched = store.concurrent_get_records(&hashes);
    let ghost fv: Seq<FetchedRecordView> = fetched.deep_view();
    let mut products: Vec<Product> = Vec::new();
    let mut i: usize = 0;
    proof {
        assert(fv.take(0) =~= Seq::<FetchedRecordView>::empty());
        assert(products.deep_view() =~= spec_serve_fetched(fv.take(0), references@));
    }
    while i < fetched.len()
        invariant
            i <= fetched.len(),
            fv == fetched.deep_view(),
            fv.len() == fetched@.len(),
            forall|j: int| 0 <= j < fv.len() ==> fv[j] == #[trigger] fetched@[j]@,
            products.deep_view() == spec_serve_fetched(fv.take(i as int), references@),
        decreases fetched.len() - i,
    {
        proof {
            assert(fv.take(i as int + 1).drop_last() =~= fv.take(i as int));
            assert(fv.take(i as int + 1).last() == fv[i as int]);
        }
        let rec = &fetched[i];
        match &rec.payload {
            RecordPayload::Group(g) => {
                serve_group(&mut products, g, references, rec.hash);
            },
            _ => {},
        }
        proof {
            assert(products.deep_view() =~= spec_serve_fetched(fv.take(i as int + 1), references@));
        }
        i = i + 1;
    }
    proof {
        assert(fv.take(fetched@.len() as int) =~= fv);
    }
    let total = products.len();
    SearchResult { products, total }
}

/// Resolves bare group hashes as references to each group's first product.
pub fn get_products_by_hashes(store: &CatalogStore, hashes: &Vec<u64>) -> (r: SearchResult)
    ensures
        r.products.deep_view() == spec_reference_products(
            store@,
            hashes@.map_values(|h: u64| ProductReference { group_hash: h, index: 0 }),
        ),
        r.total == r.products@.len(),
{
    let mut references: Vec<ProductReference> = Vec::new();
    let mut i: usize = 0;
    while i < hashes.len()
        invariant
            i <= hashes.len(),
            references@.len() == i,
            forall|j: int|
                0 <= j < i ==> references@[j] == (ProductReference {
                    group_hash: hashes@[j],
                    index: 0,
                }),
        decreases hashes.len() - i,
    {
        references.push(ProductReference { group_hash: hashes[i], index: 0 });
        i = i + 1;
    }
    proof {
        assert(references@ =~= hashes@.map_values(
            |h: u64| ProductReference { group_hash: h, index: 0 },
        ));
    }
    get_products_by_references(store, &references)
}

} // verus!
