//! The recategorizer.
//!
//! Moving a group to a new categorization never mutates the old record:
//! the links at the old paths are deleted (best effort, each on its own),
//! a brand-new group is written whose products carry the new
//! categorization and whose chunk id is copied unchanged from the old
//! group, and the new group is indexed at the new paths. The old record
//! stays in the store as an orphan once its links are gone; there is no
//! path back from orphaned.

use crate::catalog::get_group;
use crate::catalog::spec_group_paths;
use crate::error::CatalogError;
use crate::paths::all_paths;
use crate::paths::resolve_path_node;
use crate::product::Categorization;
use crate::product::clone_opt_string;
use crate::store::CatalogStore;
use crate::store::LinkEntryView;
use crate::store::LinkInfoView;
use crate::store::RecordPayloadView;
use crate::store::lemma_links_at_characterization;
use crate::store::spec_links_at;
use crate::store::spec_record_at;
use vstd::prelude::*;

verus! {

/// The link log after unlinking one group from a set of paths: every link
/// whose base is one of the paths and whose target is the group is marked
/// deleted; every other link is untouched.
pub open spec fn spec_unlink(
    links: Seq<LinkEntryView>,
    paths: Seq<Seq<char>>,
    target: u64,
) -> Seq<LinkEntryView> {
    Seq::new(
        links.len(),
        |i: int|
            {
                let l = links[i];
                if paths.contains(l.base) && l.target == target {
                    LinkEntryView { deleted: true, ..l }
                } else {
                    l
                }
            },
    )
}

/// Deletes every link pointing at a group from every path the group's own
/// stored categorizations name. Each link is deleted on its own; nothing
/// else at those paths is touched, and the group record itself is never
/// deleted — it becomes an orphan once its links are gone.
pub fn delete_links_to_product_group(store: &mut CatalogStore, group_hash: u64) -> (r: Result<
    (),
    CatalogError,
>)
    ensures
        final(store)@.records == old(store)@.records,
        match spec_record_at(old(store)@, group_hash) {
            None => r is Err && r->Err_0 == CatalogError::NotFound && final(store)@.links == old(
                store,
            )@.links,
            Some(p) => match p {
                RecordPayloadView::Opaque(_) => r is Err && r->Err_0
                    == CatalogError::DeserializationError && final(store)@.links == old(
                    store,
                )@.links,
                RecordPayloadView::Group(g) => if g.products.len() == 0 {
                    r is Err && r->Err_0 == CatalogError::EmptyGroup && final(store)@.links == old(
                        store,
                    )@.links
                } else {
                    r is Ok && final(store)@.links == spec_unlink(
                        old(store)@.links,
                        spec_group_paths(g),
                        group_hash,
                    )
                },
            },
        },
{
    let group = match get_group(store, group_hash) {
        Ok(g) => g,
        Err(e) => {
            return Err(e);
        },
    };
    if group.products.len() == 0 {
        return Err(CatalogError::EmptyGroup);
    }
    let primary = Categorization {
        category: group.category.clone(),
        subcategory: clone_opt_string(&group.subcategory),
        product_type: clone_opt_string(&group.product_type),
    };
    let paths = all_paths(&primary, &group.additional_categorizations);
    let ghost pv: Seq<Seq<char>> = paths.deep_view();
    proof {
        assert(pv == spec_group_paths(group@));
        assert(pv.take(0) =~= Seq::<Seq<char>>::empty());
        assert(store@.links =~= spec_unlink(old(store)@.links, pv.take(0), group_hash));
    }
    let mut k: usize = 0;
    while k < paths.len()
        invariant
            k <= paths.len(),
            pv == paths.deep_view(),
            pv.len() == paths@.len(),
            store@.records == old(store)@.records,
            store@.links == spec_unlink(old(store)@.links, pv.take(k as int), group_hash),
        decreases paths.len() - k,
    {
        let node = resolve_path_node(paths[k].as_str());
        let ghost s_k: Seq<LinkEntryView> = store@.links;
        let found = store.get_links(&node);
        let ghost lv: Seq<LinkInfoView> = found.deep_view();
        proof {
            store.lemma_view_bounds();
            lemma_links_at_characterization(s_k, node@);
        }
        let mut j: usize = 0;
        while j < found.len()
            invariant
                j <= found.len(),
                lv == found.deep_view(),
                lv.len() == found@.len(),
                lv == spec_links_at(s_k, node@),
                s_k.len() <= u64::MAX,
                store@.records == old(store)@.records,
                store@.links.len() == s_k.len(),
                forall|i: int|
                    0 <= i < s_k.len() ==> store@.links[i] == (
                    if exists|j2: int|
                        0 <= j2 < j && (#[trigger] lv[j2].link_id) as int == i && lv[j2].target
                            == group_hash {
                        LinkEntryView { deleted: true, ..s_k[i] }
                    } else {
                        s_k[i]
                    }),
            decreases found.len() - j,
        {
            proof {
                lemma_links_at_characterization(s_k, node@);
            }
            let li = &found[j];
            if li.target == group_hash {
                let ghost before: Seq<LinkEntryView> = store@.links;
                store.delete_link(li.link_id);
                proof {
                    let i0 = lv[j as int].link_id as int;
                    assert(0 <= i0 < s_k.len());
                    assert(forall|j2: int|
                        0 <= j2 < j ==> (#[trigger] lv[j2].link_id) < lv[j as int].link_id);
                    assert(before[i0] == s_k[i0]);
                    assert(store@.links == before.update(
                        i0,
                        LinkEntryView { deleted: true, ..before[i0] },
                    ));
                    assert forall|i: int| 0 <= i < s_k.len() implies store@.links[i] == (
                        if exists|j2: int|
                            0 <= j2 < j + 1 && (#[trigger] lv[j2].link_id) as int == i
                                && lv[j2].target == group_hash {
                            LinkEntryView { deleted: true, ..s_k[i] }
                        } else {
                            s_k[i]
                        }) by {
                        if i == i0 {
                            assert(lv[j as int].link_id as int == i && lv[j as int].target
                                == group_hash);
                        } else {
                            assert(forall|j2: int|
                                0 <= j2 < j + 1 && (#[trigger] lv[j2].link_id) as int == i ==> j2
                                    < j);
                        }
                    }
                }
            } else {
                proof {
                    assert forall|i: int| 0 <= i < s_k.len() implies store@.links[i] == (
                        if exists|j2: int|
                            0 <= j2 < j + 1 && (#[trigger] lv[j2].link_id) as int == i
                                && lv[j2].target == group_hash {
                            LinkEntryView { deleted: true, ..s_k[i] }
                        } else {
                            s_k[i]
                        }) by {
                        assert(lv[j as int].target != group_hash);
                    }
                }
            }
            j = j + 1;
        }
        proof {
            lemma_links_at_characterization(s_k, node@);
            let tk = pv.take(k as int);
            let tk1 = pv.take(k as int + 1);
            assert(tk1 =~= tk.push(pv[k as int]));
            let oldlinks = old(store)@.links;
            assert(s_k == spec_unlink(oldlinks, tk, group_hash));
            assert forall|i: int| 0 <= i < s_k.len() implies store@.links[i] == spec_unlink(
                oldlinks,
                tk1,
                group_hash,
            )[i] by {
                let l = oldlinks[i];
                assert(tk1.contains(l.base) == (tk.contains(l.base) || l.base == pv[k as int]))
                    by {
                    if tk.contains(l.base) {
                        let w = choose|w: int| 0 <= w < tk.len() && tk[w] == l.base;
                        assert(tk1[w] == l.base);
                    } else if l.base == pv[k as int] {
                        assert(tk1[k as int] == l.base);
                    } else {
                        if tk1.contains(l.base) {
                            let w = choose|w: int| 0 <= w < tk1.len() && tk1[w] == l.base;
                            if w < k {
                                assert(tk[w] == l.base);
                            }
                        }
                    }
                }
                if l.target == group_hash && !tk.contains(l.base) && l.base == pv[k as int]
                    && !l.deleted {
                    assert(s_k[i] == l);
                    assert(s_k[i].base == node@);
                    assert(exists|j2: int|
                        0 <= j2 < lv.len() && (#[trigger] lv[j2].link_id) as int == i);
                    let j2 = choose|j2: int|
                        0 <= j2 < lv.len() && (#[trigger] lv[j2].link_id) as int == i;
                    assert(lv[j2].target == s_k[i].target);
                }
            }
            assert(store@.links =~= spec_unlink(oldlinks, tk1, group_hash));
        }
        k = k + 1;
    }
    proof {
        assert(pv.take(paths@.len() as int) =~= pv);
    }
    Ok(())
}

/// The link log after unlinking, in turn, every fetched group from the
/// paths its own stored categorizations name; fetched records that are not
/// groups, or are empty groups, unlink nothing.
pub open spec fn spec_unlink_fetched(
    links: Seq<LinkEntryView>,
    fetched: Seq<crate::store::FetchedRecordView>,
) -> Seq<LinkEntryView>
    decreases fetched.len(),
{
    if fetched.len() == 0 {
        links
    } else {
        let prev = spec_unlink_fetched(links, fetched.drop_last());
        match fetched.last().payload {
            RecordPayloadView::Group(g) => if g.products.len() > 0 {
                spec_unlink(prev, spec_group_paths(g), fetched.last().hash)
            } else {
                prev
            },
            _ => prev,
        }
    }
}

/// What an in-place group update asks for: the triple naming the old path
/// whose groups are to be unlinked, and the new group to create.
#[derive(Debug)]
pub struct UpdateProductGroupInput {
    pub old_category: String,
    pub old_subcategory: Option<String>,
    pub old_product_type: Option<String>,
    pub new_group: crate::product::CreateProductGroupInput,
}

/// Replaces the groups at one path: a new group record is created and
/// indexed first, then every group found at the old path is unlinked from
/// all its paths, each unlinking a best effort whose failure does not
/// undo the rest. The old records stay behind as orphans.
pub fn update_product_group(store: &mut CatalogStore, input: UpdateProductGroupInput) -> (r:
    Result<u64, CatalogError>)
    requires
        input.new_group.products@.len() <= crate::product::PRODUCTS_PER_GROUP,
    ensures
        match crate::paths::spec_specific_path(
            input.old_category@,
            input.old_subcategory.deep_view(),
            input.old_product_type.deep_view(),
        ) {
            None => r is Err && r->Err_0 == CatalogError::InvalidCategorization && final(store)@
                == old(store)@,
            Some(p) => if input.new_group.products@.len() == 0 {
                r is Err && r->Err_0 == CatalogError::EmptyGroup && final(store)@ == old(store)@
            } else {
                ({
                    let g = crate::catalog::spec_group_of_input(input.new_group@);
                    let fetched = crate::store::spec_fetch_records(
                        old(store)@,
                        crate::query::spec_targets(
                            spec_links_at(old(store)@.links, crate::paths::spec_node_hash(p)),
                        ),
                    );
                    &&& r is Ok
                    &&& (r->Ok_0 as int) == old(store)@.records.len()
                    &&& final(store)@.records == old(store)@.records.push(
                        RecordPayloadView::Group(g),
                    )
                    &&& final(store)@.links == spec_unlink_fetched(
                        old(store)@.links + crate::indexer::spec_fanout_links(
                            spec_group_paths(g),
                            r->Ok_0,
                            g.chunk_id,
                        ),
                        fetched,
                    )
                })
            },
        },
{
    let params = crate::query::GetProductGroupsParams {
        category: input.old_category.clone(),
        subcategory: clone_opt_string(&input.old_subcategory),
        product_type: clone_opt_string(&input.old_product_type),
    };
    let existing = match crate::query::get_product_groups_by_path(store, &params) {
        Ok(v) => v,
        Err(e) => {
            proof {
                assert(store@ == old(store)@);
            }
            return Err(e);
        },
    };
    if input.new_group.products.len() == 0 {
        proof {
            assert(store@ == old(store)@);
        }
        return Err(CatalogError::EmptyGroup);
    }
    let ghost ev: Seq<crate::store::FetchedRecordView> = existing.deep_view();
    let new_hash = match crate::catalog::create_product_group(store, input.new_group) {
        Ok(h) => h,
        Err(e) => {
            return Err(e);
        },
    };
    let ghost mid_links: Seq<LinkEntryView> = store@.links;
    let ghost mid_records: Seq<RecordPayloadView> = store@.records;
    proof {
        let p = crate::paths::spec_specific_path(
            input.old_category@,
            input.old_subcategory.deep_view(),
            input.old_product_type.deep_view(),
        )->0;
        let hs = crate::query::spec_targets(
            spec_links_at(old(store)@.links, crate::paths::spec_node_hash(p)),
        );
        crate::store::lemma_fetch_records_characterization(old(store)@, hs);
        assert forall|j: int| 0 <= j < ev.len() implies crate::store::spec_record_at(
            store@,
            (#[trigger] ev[j]).hash,
        ) == Some(ev[j].payload) by {
            assert(crate::store::spec_record_at(old(store)@, ev[j].hash) == Some(ev[j].payload));
        }
    }
    let mut k: usize = 0;
    proof {
        assert(ev.take(0) =~= Seq::<crate::store::FetchedRecordView>::empty());
    }
    while k < existing.len()
        invariant
            k <= existing.len(),
            ev == existing.deep_view(),
            ev.len() == existing@.len(),
            forall|j: int| 0 <= j < ev.len() ==> ev[j] == #[trigger] existing@[j]@,
            forall|j: int|
                0 <= j < ev.len() ==> crate::store::spec_record_at(
                    store@,
                    (#[trigger] ev[j]).hash,
                ) == Some(ev[j].payload),
            store@.records == mid_records,
            store@.links == spec_unlink_fetched(mid_links, ev.take(k as int)),
        decreases existing.len() - k,
    {
        proof {
            assert(ev.take(k as int + 1).drop_last() =~= ev.take(k as int));
            assert(ev.take(k as int + 1).last() == ev[k as int]);
        }
        // failures here are tolerated: an unlinked-late group stays
        // reachable at its old path until a later pass removes it
        match delete_links_to_product_group(store, existing[k].hash) {
            Ok(()) => {},
            Err(_) => {},
        }
        proof {
            assert(store@.links =~= spec_unlink_fetched(mid_links, ev.take(k as int + 1)));
        }
        k = k + 1;
    }
    proof {
        assert(ev.take(existing@.len() as int) =~= ev);
    }
    Ok(new_hash)
}

/// The group a recategorization writes: the new primary categorization and
/// additional categorizations, every product relabeled to the new primary,
/// and the chunk id copied unchanged from the old group — it is not
/// reallocated.
pub open spec fn spec_recategorized_group(
    g: crate::product::ProductGroupView,
    primary: crate::product::CategorizationView,
    additional: Seq<crate::product::CategorizationView>,
) -> crate::product::ProductGroupView {
    crate::product::ProductGroupView {
        category: primary.category,
        subcategory: primary.subcategory,
        product_type: primary.product_type,
        products: g.products.map_values(
            |p: crate::product::ProductView|
                crate::product::ProductView {
                    category: primary.category,
                    subcategory: primary.subcategory,
                    product_type: primary.product_type,
                    ..p
                },
        ),
        chunk_id: g.chunk_id,
        additional_categorizations: additional,
    }
}

/// Moves a group's products to a new categorization: the links at every
/// old path are deleted, a brand-new group is written whose products carry
/// the new categorization and whose chunk id is copied unchanged, and the
/// new group is indexed at the new paths. The old record is never deleted;
/// once unlinked it is an orphan.
pub fn recategorize(
    store: &mut CatalogStore,
    group_hash: u64,
    new_primary: Categorization,
    new_additional: Vec<Categorization>,
) -> (r: Result<u64, CatalogError>)
    requires
        (match spec_record_at(store@, group_hash) {
            Some(p) => match p {
                RecordPayloadView::Group(g) => g.products.len()
                    <= crate::product::PRODUCTS_PER_GROUP,
                _ => true,
            },
            None => true,
        }),
    ensures
        match spec_record_at(old(store)@, group_hash) {
            None => r is Err && r->Err_0 == CatalogError::NotFound && final(store)@ == old(
                store,
            )@,
            Some(p) => match p {
                RecordPayloadView::Opaque(_) => r is Err && r->Err_0
                    == CatalogError::DeserializationError && final(store)@ == old(store)@,
                RecordPayloadView::Group(g) => if g.products.len() == 0 {
                    r is Err && r->Err_0 == CatalogError::EmptyGroup && final(store)@ == old(
                        store,
                    )@
                } else {
                    ({
                        let ng = spec_recategorized_group(
                            g,
                            new_primary@,
                            new_additional.deep_view(),
                        );
                        &&& r is Ok
                        &&& (r->Ok_0 as int) == old(store)@.records.len()
                        &&& ng.chunk_id == g.chunk_id
                        &&& final(store)@.records == old(store)@.records.push(
                            RecordPayloadView::Group(ng),
                        )
                        &&& final(store)@.links == spec_unlink(
                            old(store)@.links,
                            spec_group_paths(g),
                            group_hash,
                        ) + crate::indexer::spec_fanout_links(
                            spec_group_paths(ng),
                            r->Ok_0,
                            g.chunk_id,
                        )
                    })
                },
            },
        },
{
    let old_group = match get_group(store, group_hash) {
        Ok(g) => g,
        Err(e) => {
            return Err(e);
        },
    };
    if old_group.products.len() == 0 {
        return Err(CatalogError::EmptyGroup);
    }
    match delete_links_to_product_group(store, group_hash) {
        Ok(()) => {},
        Err(_) => {},
    }
    let ghost g: crate::product::ProductGroupView = old_group@;
    let mut new_products: Vec<crate::product::Product> = Vec::new();
    let mut i: usize = 0;
    while i < old_group.products.len()
        invariant
            i <= old_group.products.len(),
            g == old_group@,
            g.products.len() == old_group.products@.len(),
            forall|j: int| 0 <= j < g.products.len() ==> g.products[j] == #[trigger] old_group.products@[j]@,
            new_products@.len() == i,
            forall|j: int|
                0 <= j < i ==> #[trigger] new_products@[j]@ == (crate::product::ProductView {
                    category: new_primary.category@,
                    subcategory: new_primary.subcategory.deep_view(),
                    product_type: new_primary.product_type.deep_view(),
                    ..g.products[j]
                }),
        decreases old_group.products.len() - i,
    {
        let p = old_group.products[i].clone();
        let relabeled = crate::product::Product {
            category: new_primary.category.clone(),
            subcategory: clone_opt_string(&new_primary.subcategory),
            product_type: clone_opt_string(&new_primary.product_type),
            ..p
        };
        new_products.push(relabeled);
        i = i + 1;
    }
    let input = crate::product::CreateProductGroupInput {
        category: new_primary.category,
        subcategory: new_primary.subcategory,
        product_type: new_primary.product_type,
        products: new_products,
        chunk_id: old_group.chunk_id,
        additional_categorizations: new_additional,
    };
    proof {
        assert(input@.products =~= g.products.map_values(
            |p: crate::product::ProductView|
                crate::product::ProductView {
                    category: new_primary@.category,
                    subcategory: new_primary@.subcategory,
                    product_type: new_primary@.product_type,
                    ..p
                },
        ));
        assert(crate::catalog::spec_group_of_input(input@) == spec_recategorized_group(
            g,
            new_primary@,
            new_additional.deep_view(),
        ));
    }
    match crate::catalog::create_product_group(store, input) {
        Ok(h) => Ok(h),
        Err(e) => Err(e),
    }
}

} // verus!
