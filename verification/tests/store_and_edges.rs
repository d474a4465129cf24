use product_catalog::allocator::next_chunk_id;
use product_catalog::catalog::create_product_group;
use product_catalog::chunk::encode_chunk_tag;
use product_catalog::error::CatalogError;
use product_catalog::indexer::create_links_for_group;
use product_catalog::paths::resolve_path_node;
use product_catalog::product::{Categorization, CreateProductGroupInput, Product};
use product_catalog::query::{
    get_all_group_counts_for_path, get_products_by_category, list_group_links, GetProductsParams,
};
use product_catalog::recategorize::{recategorize, update_product_group, UpdateProductGroupInput};
use product_catalog::store::{CatalogStore, RecordPayload};

fn one_product_group(category: &str, name: &str, chunk_id: u32) -> CreateProductGroupInput {
    CreateProductGroupInput {
        category: category.to_string(),
        subcategory: None,
        product_type: None,
        products: vec![Product {
            category: category.to_string(),
            subcategory: None,
            product_type: None,
            name: name.to_string(),
            price_cents: 100,
            size: "each".to_string(),
            in_stock: true,
            image_url: None,
        }],
        chunk_id,
        additional_categorizations: Vec::new(),
    }
}

#[test]
fn fanout_reports_every_path_created_and_confirmed() {
    let mut store = CatalogStore::new();
    let h = store.create_record(RecordPayload::Opaque(vec![0]));
    let paths = vec![
        "categories/Produce".to_string(),
        "categories/Produce/subcategories/Fruit".to_string(),
        "categories/Snacks".to_string(),
    ];
    let report = create_links_for_group(&mut store, h, &paths, 3);
    assert_eq!(report.successful_links, 3);
    assert_eq!(report.confirmed_links, 3);
    assert_eq!(report.failed_links, 0);
    for p in &paths {
        let page = list_group_links(&store, p, 0, 10);
        assert_eq!(page.group_hashes, vec![h]);
    }
}

#[test]
fn duplicate_paths_create_duplicate_links() {
    let mut store = CatalogStore::new();
    // a coinciding primary and additional categorization lists its path
    // twice: two links are created, both tagged with the same chunk id
    let mut input = one_product_group("Produce", "apple", 0);
    input.additional_categorizations = vec![Categorization {
        category: "Produce".to_string(),
        subcategory: None,
        product_type: None,
    }];
    let h = create_product_group(&mut store, input).unwrap();
    let page = list_group_links(&store, "categories/Produce", 0, 10);
    assert_eq!(page.group_hashes, vec![h, h]);
    assert_eq!(page.total_groups, 2);
}

#[test]
fn batched_fetch_keeps_order_and_skips_unknown_hashes() {
    let mut store = CatalogStore::new();
    let a = store.create_record(RecordPayload::Opaque(vec![1]));
    let b = store.create_record(RecordPayload::Opaque(vec![2]));
    let fetched = store.concurrent_get_records(&vec![b, 99, a, b]);
    let hashes: Vec<u64> = fetched.iter().map(|r| r.hash).collect();
    assert_eq!(hashes, vec![b, a, b]);
    match &fetched[0].payload {
        RecordPayload::Opaque(bytes) => assert_eq!(bytes, &vec![2]),
        _ => panic!("expected opaque payload"),
    }
}

#[test]
fn deleted_links_stay_deleted_in_enumeration() {
    let mut store = CatalogStore::new();
    let node = resolve_path_node("categories/Produce");
    let id0 = store.create_link(&node, 10, encode_chunk_tag(0));
    let id1 = store.create_link(&node, 11, encode_chunk_tag(1));
    store.delete_link(id0);
    let links = store.get_links(&node);
    assert_eq!(links.len(), 1);
    assert_eq!(links[0].link_id, id1);
    assert_eq!(links[0].target, 11);
    // deleting an unknown id changes nothing
    store.delete_link(999);
    assert_eq!(store.get_links(&node).len(), 1);
}

#[test]
fn allocator_saturates_at_the_id_space_end() {
    let mut store = CatalogStore::new();
    let node = resolve_path_node("categories/Produce");
    store.create_link(&node, 5, encode_chunk_tag(u32::MAX));
    assert_eq!(next_chunk_id(&store, &node), u32::MAX);
}

#[test]
fn recategorize_surfaces_single_entity_errors() {
    let mut store = CatalogStore::new();
    let snacks = Categorization {
        category: "Snacks".to_string(),
        subcategory: None,
        product_type: None,
    };
    assert!(matches!(
        recategorize(&mut store, 12, snacks, Vec::new()),
        Err(CatalogError::NotFound)
    ));
    let opaque = store.create_record(RecordPayload::Opaque(vec![1]));
    let snacks2 = Categorization {
        category: "Snacks".to_string(),
        subcategory: None,
        product_type: None,
    };
    assert!(matches!(
        recategorize(&mut store, opaque, snacks2, Vec::new()),
        Err(CatalogError::DeserializationError)
    ));
}

#[test]
fn update_rejects_invalid_old_triple() {
    let mut store = CatalogStore::new();
    let input = UpdateProductGroupInput {
        old_category: "Produce".to_string(),
        old_subcategory: None,
        old_product_type: Some("Citrus".to_string()),
        new_group: one_product_group("Snacks", "chips", 0),
    };
    assert!(matches!(
        update_product_group(&mut store, input),
        Err(CatalogError::InvalidCategorization)
    ));
}

#[test]
fn empty_path_lists_nothing() {
    let store = CatalogStore::new();
    let page = list_group_links(&store, "categories/Nothing", 0, 10);
    assert!(page.group_hashes.is_empty());
    assert_eq!(page.total_groups, 0);
    assert!(!page.has_more);
    let params = GetProductsParams {
        category: "Nothing".to_string(),
        subcategory: None,
        product_type: None,
        offset: 0,
        limit: 5,
    };
    let cp = get_products_by_category(&store, params).unwrap();
    assert_eq!(cp.total_groups, 0);
    assert_eq!(cp.total_products, 0);
    assert!(cp.product_groups.is_empty());
}

#[test]
fn group_counts_skip_unreadable_targets() {
    let mut store = CatalogStore::new();
    create_product_group(&mut store, one_product_group("Produce", "apple", 0)).unwrap();
    let node = resolve_path_node("categories/Produce");
    // a stale link to a record that is not a group, and one to no record
    let opaque = store.create_record(RecordPayload::Opaque(vec![9]));
    store.create_link(&node, opaque, encode_chunk_tag(1));
    store.create_link(&node, 424242, encode_chunk_tag(2));
    let params = GetProductsParams {
        category: "Produce".to_string(),
        subcategory: None,
        product_type: None,
        offset: 0,
        limit: 10,
    };
    assert_eq!(get_all_group_counts_for_path(&store, &params).unwrap(), vec![1]);
    let page = list_group_links(&store, "categories/Produce", 0, 10);
    assert_eq!(page.total_groups, 3);
}
