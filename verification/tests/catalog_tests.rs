use product_catalog::allocator::{find_gaps_in_sequence, next_chunk_id};
use product_catalog::batch::create_product_batch;
use product_catalog::catalog::{
    create_product_group, get_group, get_latest_group_for_path, get_product, get_product_group,
};
use product_catalog::chunk::{decode_chunk_tag, encode_chunk_tag};
use product_catalog::error::CatalogError;
use product_catalog::paths::{get_paths, resolve_path_node};
use product_catalog::product::{
    Categorization, CreateProductGroupInput, CreateProductInput, Product,
};
use product_catalog::query::{
    aggregate_product_count, default_limit, extract_products_from_group,
    get_all_category_products, get_all_group_counts_for_path, get_paginated_products_from_group,
    get_product_count_for_group, get_product_groups_by_path, get_products_by_category,
    list_group_links, GetProductGroupsParams, GetProductsParams, GroupProductsParams,
};
use product_catalog::recategorize::{
    delete_links_to_product_group, recategorize, update_product_group, UpdateProductGroupInput,
};
use product_catalog::search::{
    get_products_by_hashes, get_products_by_references, resolve_product_reference,
    ProductReference,
};
use product_catalog::store::{CatalogStore, RecordPayload};

fn product(name: &str) -> Product {
    Product {
        category: "Produce".to_string(),
        subcategory: None,
        product_type: None,
        name: name.to_string(),
        price_cents: 250,
        size: "1 lb".to_string(),
        in_stock: true,
        image_url: None,
    }
}

fn categorization(category: &str, sub: Option<&str>, pt: Option<&str>) -> Categorization {
    Categorization {
        category: category.to_string(),
        subcategory: sub.map(|s| s.to_string()),
        product_type: pt.map(|s| s.to_string()),
    }
}

fn group_input(
    category: &str,
    sub: Option<&str>,
    pt: Option<&str>,
    names: &[&str],
    chunk_id: u32,
    additional: Vec<Categorization>,
) -> CreateProductGroupInput {
    CreateProductGroupInput {
        category: category.to_string(),
        subcategory: sub.map(|s| s.to_string()),
        product_type: pt.map(|s| s.to_string()),
        products: names.iter().map(|n| product(n)).collect(),
        chunk_id,
        additional_categorizations: additional,
    }
}

fn batch_input(
    name: &str,
    category: &str,
    sub: Option<&str>,
    pt: Option<&str>,
    additional: Vec<Categorization>,
) -> CreateProductInput {
    CreateProductInput {
        product: product(name),
        main_category: category.to_string(),
        subcategory: sub.map(|s| s.to_string()),
        product_type: pt.map(|s| s.to_string()),
        additional_categorizations: additional,
    }
}

fn create_sequential(store: &mut CatalogStore, category: &str, names: &[&str]) -> Vec<u64> {
    let path = format!("categories/{}", category);
    let mut hashes = Vec::new();
    for name in names {
        let node = resolve_path_node(&path);
        let chunk_id = next_chunk_id(store, &node);
        let input = group_input(category, None, None, &[name], chunk_id, Vec::new());
        hashes.push(create_product_group(store, input).unwrap());
    }
    hashes
}

#[test]
fn chunk_tag_encodes_little_endian() {
    let tag = encode_chunk_tag(0x0102_0304);
    assert_eq!(tag, vec![0x04, 0x03, 0x02, 0x01]);
}

#[test]
fn chunk_tag_round_trips() {
    for id in [0u32, 1, 41, 1000, u32::MAX] {
        assert_eq!(decode_chunk_tag(&encode_chunk_tag(id)), id);
    }
}

#[test]
fn short_chunk_tag_reads_as_zero() {
    assert_eq!(decode_chunk_tag(&[]), 0);
    assert_eq!(decode_chunk_tag(&[7, 7, 7]), 0);
}

#[test]
fn long_chunk_tag_reads_first_four_bytes() {
    assert_eq!(decode_chunk_tag(&[1, 0, 0, 0, 99, 99]), 1);
}

#[test]
fn resolve_path_node_is_idempotent() {
    let a = resolve_path_node("categories/Produce");
    let b = resolve_path_node("categories/Produce");
    assert!(a == b);
    let c = resolve_path_node("categories/Snacks");
    assert!(a != c);
}

#[test]
fn get_paths_expands_three_levels() {
    let input = batch_input("apple", "Produce", Some("Fruit"), Some("Citrus"), Vec::new());
    let paths = get_paths(&input);
    assert_eq!(
        paths,
        vec![
            "categories/Produce".to_string(),
            "categories/Produce/subcategories/Fruit".to_string(),
            "categories/Produce/subcategories/Fruit/types/Citrus".to_string(),
        ]
    );
}

#[test]
fn get_paths_appends_additional_categorizations() {
    let input = batch_input(
        "apple",
        "Produce",
        None,
        None,
        vec![categorization("Snacks", Some("Fruit Snacks"), None)],
    );
    let paths = get_paths(&input);
    assert_eq!(
        paths,
        vec![
            "categories/Produce".to_string(),
            "categories/Snacks".to_string(),
            "categories/Snacks/subcategories/Fruit Snacks".to_string(),
        ]
    );
}

#[test]
fn get_paths_ignores_type_without_subcategory() {
    let input = batch_input("apple", "Produce", None, Some("Citrus"), Vec::new());
    assert_eq!(get_paths(&input), vec!["categories/Produce".to_string()]);
}

#[test]
fn empty_group_is_rejected() {
    let mut store = CatalogStore::new();
    let input = group_input("Produce", None, None, &[], 0, Vec::new());
    assert_eq!(create_product_group(&mut store, input), Err(CatalogError::EmptyGroup));
    let page = list_group_links(&store, "categories/Produce", 0, 10);
    assert_eq!(page.total_groups, 0);
}

#[test]
fn group_of_two_products_is_listed_and_counted() {
    let mut store = CatalogStore::new();
    let input = group_input("Produce", None, None, &["apple", "pear"], 0, Vec::new());
    let h = create_product_group(&mut store, input).unwrap();
    let page = list_group_links(&store, "categories/Produce", 0, 10);
    assert_eq!(page.group_hashes, vec![h]);
    assert_eq!(page.total_groups, 1);
    assert!(!page.has_more);
    assert_eq!(aggregate_product_count(&store, "categories/Produce"), 2);
}

#[test]
fn sequential_creations_receive_counting_chunk_ids() {
    let mut store = CatalogStore::new();
    let node = resolve_path_node("categories/Produce");
    assert_eq!(next_chunk_id(&store, &node), 0);
    let hashes = create_sequential(&mut store, "Produce", &["a", "b", "c"]);
    assert_eq!(next_chunk_id(&store, &node), 3);
    for (i, h) in hashes.iter().enumerate() {
        match get_product_group(&store, *h) {
            Some(RecordPayload::Group(g)) => assert_eq!(g.chunk_id, i as u32),
            _ => panic!("expected a group record"),
        }
    }
}

#[test]
fn second_page_of_one_returns_second_group() {
    let mut store = CatalogStore::new();
    let hashes = create_sequential(&mut store, "Produce", &["a", "b", "c"]);
    let page = list_group_links(&store, "categories/Produce", 1, 1);
    assert_eq!(page.group_hashes, vec![hashes[1]]);
    assert_eq!(page.total_groups, 3);
    assert!(page.has_more);
}

#[test]
fn pages_partition_the_link_set() {
    let mut store = CatalogStore::new();
    let hashes = create_sequential(&mut store, "Produce", &["a", "b", "c", "d", "e"]);
    let mut union = Vec::new();
    let mut offset = 0;
    loop {
        let page = list_group_links(&store, "categories/Produce", offset, 2);
        if page.group_hashes.is_empty() {
            break;
        }
        union.extend(page.group_hashes.iter().copied());
        offset += 2;
    }
    let mut expected = hashes.clone();
    expected.sort_unstable();
    let mut got = union.clone();
    got.sort_unstable();
    assert_eq!(got, expected);
    assert_eq!(union.len(), hashes.len());
}

#[test]
fn aggregate_equals_sum_over_listed_groups() {
    let mut store = CatalogStore::new();
    create_sequential(&mut store, "Produce", &["a", "b"]);
    let node = resolve_path_node("categories/Produce");
    let chunk_id = next_chunk_id(&store, &node);
    let input = group_input("Produce", None, None, &["c", "d", "e"], chunk_id, Vec::new());
    create_product_group(&mut store, input).unwrap();
    let total = aggregate_product_count(&store, "categories/Produce");
    let page = list_group_links(&store, "categories/Produce", 0, usize::MAX);
    assert_eq!(page.group_hashes.len(), page.total_groups);
    let mut summed = 0u64;
    for h in &page.group_hashes {
        summed += extract_products_from_group(&store, *h).unwrap().len() as u64;
    }
    assert_eq!(total, summed);
    assert_eq!(total, 5);
}

#[test]
fn duplicate_chunk_ids_keep_creation_order() {
    let mut store = CatalogStore::new();
    // two concurrent writers both observed chunk id 0 and created groups
    // tagged 1; the sort must keep their creation order
    let h0 = create_product_group(
        &mut store,
        group_input("Produce", None, None, &["a"], 1, Vec::new()),
    )
    .unwrap();
    let h1 = create_product_group(
        &mut store,
        group_input("Produce", None, None, &["b"], 1, Vec::new()),
    )
    .unwrap();
    let h2 = create_product_group(
        &mut store,
        group_input("Produce", None, None, &["c"], 0, Vec::new()),
    )
    .unwrap();
    let page = list_group_links(&store, "categories/Produce", 0, 10);
    assert_eq!(page.group_hashes, vec![h2, h0, h1]);
}

#[test]
fn undersized_tag_sorts_as_chunk_zero() {
    let mut store = CatalogStore::new();
    let h1 = create_product_group(
        &mut store,
        group_input("Produce", None, None, &["a"], 4, Vec::new()),
    )
    .unwrap();
    let node = resolve_path_node("categories/Produce");
    let target = 77;
    store.create_link(&node, target, vec![9]);
    let page = list_group_links(&store, "categories/Produce", 0, 10);
    assert_eq!(page.group_hashes, vec![target, h1]);
    // the dangling target is skipped by aggregation rather than failing it
    assert_eq!(aggregate_product_count(&store, "categories/Produce"), 1);
}

#[test]
fn additional_categorization_makes_group_discoverable_twice() {
    let mut store = CatalogStore::new();
    let input = group_input(
        "Produce",
        None,
        None,
        &["apple", "pear"],
        0,
        vec![categorization("Snacks", None, None)],
    );
    let h = create_product_group(&mut store, input).unwrap();
    let produce = list_group_links(&store, "categories/Produce", 0, 10);
    let snacks = list_group_links(&store, "categories/Snacks", 0, 10);
    assert_eq!(produce.group_hashes, vec![h]);
    assert_eq!(snacks.group_hashes, vec![h]);
    assert_eq!(aggregate_product_count(&store, "categories/Produce"), 2);
    assert_eq!(aggregate_product_count(&store, "categories/Snacks"), 2);
}

#[test]
fn recategorize_moves_group_and_keeps_chunk_id() {
    let mut store = CatalogStore::new();
    create_sequential(&mut store, "Produce", &["x", "y"]);
    let node = resolve_path_node("categories/Produce");
    let chunk_id = next_chunk_id(&store, &node);
    assert_eq!(chunk_id, 2);
    let input = group_input(
        "Produce",
        None,
        None,
        &["apple", "pear"],
        chunk_id,
        vec![categorization("Snacks", None, None)],
    );
    let h = create_product_group(&mut store, input).unwrap();
    let new_hash = recategorize(
        &mut store,
        h,
        categorization("Snacks", None, None),
        Vec::new(),
    )
    .unwrap();
    assert_ne!(new_hash, h);
    // the old path no longer lists the old group
    let produce = list_group_links(&store, "categories/Produce", 0, 10);
    assert!(!produce.group_hashes.contains(&h));
    // the new group is under the new path, with the chunk id copied unchanged
    let snacks = list_group_links(&store, "categories/Snacks", 0, 10);
    assert!(snacks.group_hashes.contains(&new_hash));
    assert!(!snacks.group_hashes.contains(&h));
    let new_group = get_group(&store, new_hash).unwrap();
    assert_eq!(new_group.chunk_id, 2);
    assert_eq!(new_group.category, "Snacks");
    assert_eq!(new_group.products.len(), 2);
    assert!(new_group.products.iter().all(|p| p.category == "Snacks"));
    // the old record still exists, orphaned
    assert!(get_group(&store, h).is_ok());
}

#[test]
fn delete_links_unlinks_all_paths() {
    let mut store = CatalogStore::new();
    let input = group_input(
        "Produce",
        Some("Fruit"),
        None,
        &["apple"],
        0,
        vec![categorization("Snacks", None, None)],
    );
    let h = create_product_group(&mut store, input).unwrap();
    delete_links_to_product_group(&mut store, h).unwrap();
    for path in [
        "categories/Produce",
        "categories/Produce/subcategories/Fruit",
        "categories/Snacks",
    ] {
        let page = list_group_links(&store, path, 0, 10);
        assert!(page.group_hashes.is_empty());
    }
    // the record itself survives as an orphan
    assert!(get_group(&store, h).is_ok());
}

#[test]
fn delete_links_on_unknown_hash_is_not_found() {
    let mut store = CatalogStore::new();
    assert_eq!(
        delete_links_to_product_group(&mut store, 7),
        Err(CatalogError::NotFound)
    );
}

#[test]
fn update_product_group_replaces_groups_at_old_path() {
    let mut store = CatalogStore::new();
    let old_hash = create_product_group(
        &mut store,
        group_input("Produce", None, None, &["apple"], 0, Vec::new()),
    )
    .unwrap();
    let input = UpdateProductGroupInput {
        old_category: "Produce".to_string(),
        old_subcategory: None,
        old_product_type: None,
        new_group: group_input("Snacks", None, None, &["apple"], 0, Vec::new()),
    };
    let new_hash = update_product_group(&mut store, input).unwrap();
    let produce = list_group_links(&store, "categories/Produce", 0, 10);
    assert!(!produce.group_hashes.contains(&old_hash));
    let snacks = list_group_links(&store, "categories/Snacks", 0, 10);
    assert_eq!(snacks.group_hashes, vec![new_hash]);
}

#[test]
fn not_found_and_wrong_shape_are_distinct() {
    let mut store = CatalogStore::new();
    assert_eq!(get_group(&store, 0), Err(CatalogError::NotFound));
    let h = store.create_record(RecordPayload::Opaque(vec![1, 2, 3]));
    assert_eq!(get_group(&store, h), Err(CatalogError::DeserializationError));
    assert!(get_product_group(&store, h).is_some());
    assert!(get_product(&store, h).is_some());
    assert!(get_product(&store, h + 1).is_none());
}

#[test]
fn resolve_product_reference_checks_bounds() {
    let mut store = CatalogStore::new();
    let h = create_product_group(
        &mut store,
        group_input("Produce", None, None, &["apple", "pear"], 0, Vec::new()),
    )
    .unwrap();
    assert_eq!(resolve_product_reference(&store, h, 1).unwrap().name, "pear");
    assert_eq!(
        resolve_product_reference(&store, h, 2),
        Err(CatalogError::IndexOutOfRange)
    );
    assert_eq!(
        resolve_product_reference(&store, h + 1, 0),
        Err(CatalogError::NotFound)
    );
}

#[test]
fn references_into_one_group_are_served_from_one_fetch() {
    let mut store = CatalogStore::new();
    let h = create_product_group(
        &mut store,
        group_input("Produce", None, None, &["apple", "pear", "plum"], 0, Vec::new()),
    )
    .unwrap();
    let refs = vec![
        ProductReference { group_hash: h, index: 2 },
        ProductReference { group_hash: h, index: 0 },
        ProductReference { group_hash: h, index: 9 },
    ];
    let result = get_products_by_references(&store, &refs);
    let names: Vec<&str> = result.products.iter().map(|p| p.name.as_str()).collect();
    assert_eq!(names, vec!["plum", "apple"]);
    assert_eq!(result.total, 2);
}

#[test]
fn bare_hashes_resolve_to_first_products() {
    let mut store = CatalogStore::new();
    let h1 = create_product_group(
        &mut store,
        group_input("Produce", None, None, &["apple"], 0, Vec::new()),
    )
    .unwrap();
    let h2 = create_product_group(
        &mut store,
        group_input("Produce", None, None, &["pear"], 1, Vec::new()),
    )
    .unwrap();
    let result = get_products_by_hashes(&store, &vec![h1, h2]);
    let names: Vec<&str> = result.products.iter().map(|p| p.name.as_str()).collect();
    assert_eq!(names, vec!["apple", "pear"]);
}

#[test]
fn products_by_category_serves_one_page() {
    let mut store = CatalogStore::new();
    let hashes = create_sequential(&mut store, "Produce", &["a", "b", "c"]);
    let params = GetProductsParams {
        category: "Produce".to_string(),
        subcategory: None,
        product_type: None,
        offset: 1,
        limit: 2,
    };
    let cp = get_products_by_category(&store, params).unwrap();
    assert_eq!(cp.total_groups, 3);
    assert_eq!(cp.product_groups.len(), 2);
    assert_eq!(cp.product_groups[0].hash, hashes[1]);
    assert_eq!(cp.product_groups[1].hash, hashes[2]);
    assert_eq!(cp.total_products, 2);
    assert!(!cp.has_more);
    assert_eq!(cp.category, "Produce");
}

#[test]
fn type_without_subcategory_is_rejected() {
    let store = CatalogStore::new();
    let params = GetProductsParams {
        category: "Produce".to_string(),
        subcategory: None,
        product_type: Some("Citrus".to_string()),
        offset: 0,
        limit: 5,
    };
    assert!(matches!(
        get_products_by_category(&store, params),
        Err(CatalogError::InvalidCategorization)
    ));
    let params2 = GetProductGroupsParams {
        category: "Produce".to_string(),
        subcategory: None,
        product_type: Some("Citrus".to_string()),
    };
    assert!(matches!(
        get_product_groups_by_path(&store, &params2),
        Err(CatalogError::InvalidCategorization)
    ));
    let params3 = GetProductsParams {
        category: "Produce".to_string(),
        subcategory: None,
        product_type: Some("Citrus".to_string()),
        offset: 0,
        limit: 5,
    };
    assert_eq!(get_product_count_for_group(&store, &params3), 0);
}

#[test]
fn all_category_products_lists_everything_unpaginated() {
    let mut store = CatalogStore::new();
    create_sequential(&mut store, "Produce", &["a", "b"]);
    let cp = get_all_category_products(&store, "Produce".to_string());
    assert_eq!(cp.total_groups, 2);
    assert_eq!(cp.product_groups.len(), 2);
    assert_eq!(cp.total_products, 2);
    assert!(!cp.has_more);
    assert!(cp.subcategory.is_none());
}

#[test]
fn group_counts_follow_chunk_order() {
    let mut store = CatalogStore::new();
    let node = resolve_path_node("categories/Produce");
    let c0 = next_chunk_id(&store, &node);
    create_product_group(
        &mut store,
        group_input("Produce", None, None, &["a"], c0, Vec::new()),
    )
    .unwrap();
    let c1 = next_chunk_id(&store, &node);
    create_product_group(
        &mut store,
        group_input("Produce", None, None, &["b", "c"], c1, Vec::new()),
    )
    .unwrap();
    let params = GetProductsParams {
        category: "Produce".to_string(),
        subcategory: None,
        product_type: None,
        offset: 0,
        limit: 5,
    };
    assert_eq!(get_all_group_counts_for_path(&store, &params).unwrap(), vec![1, 2]);
    assert_eq!(get_product_count_for_group(&store, &params), 1);
    let at_one = GetProductsParams { offset: 1, ..params };
    assert_eq!(get_product_count_for_group(&store, &at_one), 2);
    let past_end = GetProductsParams { offset: 2, ..at_one };
    assert_eq!(get_product_count_for_group(&store, &past_end), 0);
}

#[test]
fn paginated_products_from_group_page_and_total() {
    let mut store = CatalogStore::new();
    let h = create_product_group(
        &mut store,
        group_input("Produce", None, None, &["a", "b", "c", "d"], 0, Vec::new()),
    )
    .unwrap();
    let pp = get_paginated_products_from_group(
        &store,
        &GroupProductsParams { group_hash: h, offset: 1, limit: 2 },
    )
    .unwrap();
    assert_eq!(pp.total, 4);
    assert!(pp.has_more);
    let names: Vec<&str> = pp.products.iter().map(|p| p.name.as_str()).collect();
    assert_eq!(names, vec!["b", "c"]);
    assert!(matches!(
        get_paginated_products_from_group(
            &store,
            &GroupProductsParams { group_hash: h + 1, offset: 0, limit: 1 },
        ),
        Err(CatalogError::NotFound)
    ));
}

#[test]
fn batch_groups_by_primary_categorization() {
    let mut store = CatalogStore::new();
    let inputs = vec![
        batch_input("apple", "Produce", None, None, Vec::new()),
        batch_input("chips", "Snacks", None, None, Vec::new()),
        batch_input("pear", "Produce", None, None, Vec::new()),
    ];
    let records = create_product_batch(&mut store, inputs);
    assert_eq!(records.len(), 2);
    assert_eq!(aggregate_product_count(&store, "categories/Produce"), 2);
    assert_eq!(aggregate_product_count(&store, "categories/Snacks"), 1);
    match &records[0].payload {
        RecordPayload::Group(g) => {
            assert_eq!(g.category, "Produce");
            assert_eq!(g.chunk_id, 0);
            let names: Vec<&str> = g.products.iter().map(|p| p.name.as_str()).collect();
            assert_eq!(names, vec!["apple", "pear"]);
        }
        _ => panic!("expected a group record"),
    }
}

#[test]
fn batch_normalizes_empty_optional_fields() {
    let mut store = CatalogStore::new();
    let mut a = batch_input("apple", "Produce", Some(""), None, Vec::new());
    a.product.subcategory = Some("".to_string());
    let b = batch_input("pear", "Produce", None, None, Vec::new());
    let records = create_product_batch(&mut store, vec![a, b]);
    assert_eq!(records.len(), 1);
    match &records[0].payload {
        RecordPayload::Group(g) => {
            assert!(g.subcategory.is_none());
            assert!(g.products.iter().all(|p| p.subcategory.is_none()));
        }
        _ => panic!("expected a group record"),
    }
}

#[test]
fn batch_chunks_oversized_groups() {
    let mut store = CatalogStore::new();
    let inputs: Vec<CreateProductInput> = (0..1001)
        .map(|i| batch_input(&format!("p{}", i), "Produce", None, None, Vec::new()))
        .collect();
    let records = create_product_batch(&mut store, inputs);
    assert_eq!(records.len(), 2);
    match (&records[0].payload, &records[1].payload) {
        (RecordPayload::Group(g0), RecordPayload::Group(g1)) => {
            assert_eq!(g0.products.len(), 1000);
            assert_eq!(g0.chunk_id, 0);
            assert_eq!(g1.products.len(), 1);
            assert_eq!(g1.chunk_id, 1);
        }
        _ => panic!("expected group records"),
    }
    assert_eq!(aggregate_product_count(&store, "categories/Produce"), 1001);
}

#[test]
fn batch_skips_type_without_subcategory() {
    let mut store = CatalogStore::new();
    let inputs = vec![batch_input("odd", "Produce", None, Some("Citrus"), Vec::new())];
    let records = create_product_batch(&mut store, inputs);
    assert!(records.is_empty());
    assert_eq!(aggregate_product_count(&store, "categories/Produce"), 0);
}

#[test]
fn empty_batch_creates_nothing() {
    let mut store = CatalogStore::new();
    let records = create_product_batch(&mut store, Vec::new());
    assert!(records.is_empty());
}

#[test]
fn latest_group_is_the_one_with_greatest_chunk_id() {
    let mut store = CatalogStore::new();
    create_sequential(&mut store, "Produce", &["a", "b", "c"]);
    let node = resolve_path_node("categories/Produce");
    let latest = get_latest_group_for_path(&store, &node).unwrap();
    assert_eq!(latest.chunk_id, 2);
    assert_eq!(latest.group.products[0].name, "c");
    let empty_node = resolve_path_node("categories/Nowhere");
    assert!(get_latest_group_for_path(&store, &empty_node).is_none());
}

#[test]
fn latest_group_is_normalized_when_read_back() {
    let mut store = CatalogStore::new();
    let mut raw = group_input("Produce", None, None, &["apple"], 0, Vec::new());
    raw.subcategory = Some("".to_string());
    raw.products[0].product_type = Some("".to_string());
    let h = create_product_group(&mut store, raw).unwrap();
    // creation stores the fields as given, so the group is linked under the
    // empty-subcategory path too; reading it back normalizes the fields
    let node = resolve_path_node("categories/Produce/subcategories/");
    let latest = get_latest_group_for_path(&store, &node).unwrap();
    assert_eq!(latest.group_hash, h);
    assert!(latest.group.subcategory.is_none());
    assert!(latest.group.products[0].product_type.is_none());
}

#[test]
fn find_gaps_lists_missing_chunk_ids() {
    assert_eq!(find_gaps_in_sequence(&vec![0, 1, 3, 7]), vec![2, 4, 5, 6]);
    assert_eq!(find_gaps_in_sequence(&vec![0, 1, 2]), Vec::<u32>::new());
    assert_eq!(find_gaps_in_sequence(&Vec::new()), Vec::<u32>::new());
    assert_eq!(find_gaps_in_sequence(&vec![5]), Vec::<u32>::new());
}

#[test]
fn default_limit_is_five() {
    assert_eq!(default_limit(), 5);
}

#[test]
fn error_messages_name_the_failure() {
    assert!(CatalogError::NotFound.message().contains("not found"));
    assert!(CatalogError::DeserializationError.message().contains("shape"));
    assert!(CatalogError::EmptyGroup.message().contains("empty"));
    assert!(CatalogError::IndexOutOfRange.message().contains("range"));
    assert!(CatalogError::InvalidCategorization.message().contains("subcategory"));
}
