//! The catalog's data model.
//!
//! A product is never a standalone record in the index: it lives inside an
//! immutable product group and is addressed as (group hash, index within the
//! group). A group carries one primary categorization, up to
//! [`PRODUCTS_PER_GROUP`] products, its chunk id, and the additional
//! categorizations under which the same group is also indexed.
//!
//! Optional categorization fields sometimes arrive as the empty string
//! instead of being absent; normalization maps those to `None` so that the
//! rest of the crate reasons over one canonical form.

use vstd::prelude::*;

verus! {

/// Upper bound on how many products one group may hold.
pub const PRODUCTS_PER_GROUP: usize = 1000;

/// One (category, subcategory?, product type?) triple.
///
/// The primary categorization of a group has this shape, and so does every
/// additional categorization under which the group is also discoverable.
#[derive(Debug, PartialEq)]
pub struct Categorization {
    pub category: String,
    pub subcategory: Option<String>,
    pub product_type: Option<String>,
}

/// The mathematical value of a [`Categorization`].
pub struct CategorizationView {
    pub category: Seq<char>,
    pub subcategory: Option<Seq<char>>,
    pub product_type: Option<Seq<char>>,
}

impl View for Categorization {
    type V = CategorizationView;

    open spec fn view(&self) -> CategorizationView {
        CategorizationView {
            category: self.category@,
            subcategory: self.subcategory.deep_view(),
            product_type: self.product_type.deep_view(),
        }
    }
}

impl DeepView for Categorization {
    type V = CategorizationView;

    open spec fn deep_view(&self) -> CategorizationView {
        self.view()
    }
}

impl Clone for Categorization {
    fn clone(&self) -> (r: Self)
        ensures
            r@ == self@,
    {
        Categorization {
            category: self.category.clone(),
            subcategory: clone_opt_string(&self.subcategory),
            product_type: clone_opt_string(&self.product_type),
        }
    }
}

/// A single catalog item. Price is kept in integer cents and the stock
/// status as a flag, so that every field has an exact mathematical value.
#[derive(Debug, PartialEq)]
pub struct Product {
    pub category: String,
    pub subcategory: Option<String>,
    pub product_type: Option<String>,
    pub name: String,
    pub price_cents: u64,
    pub size: String,
    pub in_stock: bool,
    pub image_url: Option<String>,
}

/// The mathematical value of a [`Product`].
pub struct ProductView {
    pub category: Seq<char>,
    pub subcategory: Option<Seq<char>>,
    pub product_type: Option<Seq<char>>,
    pub name: Seq<char>,
    pub price_cents: u64,
    pub size: Seq<char>,
    pub in_stock: bool,
    pub image_url: Option<Seq<char>>,
}

impl View for Product {
    type V = ProductView;

    open spec fn view(&self) -> ProductView {
        ProductView {
            category: self.category@,
            subcategory: self.subcategory.deep_view(),
            product_type: self.product_type.deep_view(),
            name: self.name@,
            price_cents: self.price_cents,
            size: self.size@,
            in_stock: self.in_stock,
            image_url: self.image_url.deep_view(),
        }
    }
}

impl DeepView for Product {
    type V = ProductView;

    open spec fn deep_view(&self) -> ProductView {
        self.view()
    }
}

impl Clone for Product {
    fn clone(&self) -> (r: Self)
        ensures
            r@ == self@,
    {
        Product {
            category: self.category.clone(),
            subcategory: clone_opt_string(&self.subcategory),
            product_type: clone_opt_string(&self.product_type),
            name: self.name.clone(),
            price_cents: self.price_cents,
            size: self.size.clone(),
            in_stock: self.in_stock,
            image_url: clone_opt_string(&self.image_url),
        }
    }
}

/// An immutable batch of products sharing one primary categorization.
///
/// Once written to the store a group is never mutated: recategorization
/// writes a brand-new group and re-links it, leaving the old record behind.
#[derive(Debug, PartialEq)]
pub struct ProductGroup {
    pub category: String,
    pub subcategory: Option<String>,
    pub product_type: Option<String>,
    pub products: Vec<Product>,
    pub chunk_id: u32,
    pub additional_categorizations: Vec<Categorization>,
}

/// The mathematical value of a [`ProductGroup`].
pub struct ProductGroupView {
    pub category: Seq<char>,
    pub subcategory: Option<Seq<char>>,
    pub product_type: Option<Seq<char>>,
    pub products: Seq<ProductView>,
    pub chunk_id: u32,
    pub additional_categorizations: Seq<CategorizationView>,
}

impl View for ProductGroup {
    type V = ProductGroupView;

    open spec fn view(&self) -> ProductGroupView {
        ProductGroupView {
            category: self.category@,
            subcategory: self.subcategory.deep_view(),
            product_type: self.product_type.deep_view(),
            products: self.products.deep_view(),
            chunk_id: self.chunk_id,
            additional_categorizations: self.additional_categorizations.deep_view(),
        }
    }
}

impl DeepView for ProductGroup {
    type V = ProductGroupView;

    open spec fn deep_view(&self) -> ProductGroupView {
        self.view()
    }
}

impl Clone for ProductGroup {
    fn clone(&self) -> (r: Self)
        ensures
            r@ == self@,
    {
        let r = ProductGroup {
            category: self.category.clone(),
            subcategory: clone_opt_string(&self.subcategory),
            product_type: clone_opt_string(&self.product_type),
            products: clone_products(&self.products),
            chunk_id: self.chunk_id,
            additional_categorizations: clone_categorizations(&self.additional_categorizations),
        };
        assert(r@ =~= self@);
        r
    }
}

/// One product together with the categorization it is to be indexed under.
#[derive(Debug)]
pub struct CreateProductInput {
    pub product: Product,
    pub main_category: String,
    pub subcategory: Option<String>,
    pub product_type: Option<String>,
    pub additional_categorizations: Vec<Categorization>,
}

/// The mathematical value of a [`CreateProductInput`].
pub struct CreateProductInputView {
    pub product: ProductView,
    pub main_category: Seq<char>,
    pub subcategory: Option<Seq<char>>,
    pub product_type: Option<Seq<char>>,
    pub additional_categorizations: Seq<CategorizationView>,
}

impl View for CreateProductInput {
    type V = CreateProductInputView;

    open spec fn view(&self) -> CreateProductInputView {
        CreateProductInputView {
            product: self.product@,
            main_category: self.main_category@,
            subcategory: self.subcategory.deep_view(),
            product_type: self.product_type.deep_view(),
            additional_categorizations: self.additional_categorizations.deep_view(),
        }
    }
}

impl DeepView for CreateProductInput {
    type V = CreateProductInputView;

    open spec fn deep_view(&self) -> CreateProductInputView {
        self.view()
    }
}

impl Clone for CreateProductInput {
    fn clone(&self) -> (r: Self)
        ensures
            r@ == self@,
    {
        let r = CreateProductInput {
            product: self.product.clone(),
            main_category: self.main_category.clone(),
            subcategory: clone_opt_string(&self.subcategory),
            product_type: clone_opt_string(&self.product_type),
            additional_categorizations: clone_categorizations(&self.additional_categorizations),
        };
        assert(r@ =~= self@);
        r
    }
}

/// Everything a new group is built from: its primary categorization, its
/// products, the chunk id it was allocated, and its additional
/// categorizations.
#[derive(Debug)]
pub struct CreateProductGroupInput {
    pub category: String,
    pub subcategory: Option<String>,
    pub product_type: Option<String>,
    pub products: Vec<Product>,
    pub chunk_id: u32,
    pub additional_categorizations: Vec<Categorization>,
}

/// The mathematical value of a [`CreateProductGroupInput`].
pub struct CreateProductGroupInputView {
    pub category: Seq<char>,
    pub subcategory: Option<Seq<char>>,
    pub product_type: Option<Seq<char>>,
    pub products: Seq<ProductView>,
    pub chunk_id: u32,
    pub additional_categorizations: Seq<CategorizationView>,
}

impl View for CreateProductGroupInput {
    type V = CreateProductGroupInputView;

    open spec fn view(&self) -> CreateProductGroupInputView {
        CreateProductGroupInputView {
            category: self.category@,
            subcategory: self.subcategory.deep_view(),
            product_type: self.product_type.deep_view(),
            products: self.products.deep_view(),
            chunk_id: self.chunk_id,
            additional_categorizations: self.additional_categorizations.deep_view(),
        }
    }
}

impl DeepView for CreateProductGroupInput {
    type V = CreateProductGroupInputView;

    open spec fn deep_view(&self) -> CreateProductGroupInputView {
        self.view()
    }
}

/// Clones an optional string field.
pub fn clone_opt_string(s: &Option<String>) -> (r: Option<String>)
    ensures
        r.deep_view() == s.deep_view(),
{
    match s {
        Some(v) => Some(v.clone()),
        None => None,
    }
}

/// Clones a product list element by element.
pub fn clone_products(products: &Vec<Product>) -> (r: Vec<Product>)
    ensures
        r.deep_view() == products.deep_view(),
{
    let mut r: Vec<Product> = Vec::new();
    let mut i: usize = 0;
    while i < products.len()
        invariant
            i <= products.len(),
            r@.len() == i,
            forall|j: int| 0 <= j < i ==> #[trigger] r@[j]@ == products@[j]@,
        decreases products.len() - i,
    {
        r.push(products[i].clone());
        i = i + 1;
    }
    proof {
        assert(r.deep_view() =~= products.deep_view());
    }
    r
}

/// Clones a categorization list element by element.
pub fn clone_categorizations(cats: &Vec<Categorization>) -> (r: Vec<Categorization>)
    ensures
        r.deep_view() == cats.deep_view(),
{
    let mut r: Vec<Categorization> = Vec::new();
    let mut i: usize = 0;
    while i < cats.len()
        invariant
            i <= cats.len(),
            r@.len() == i,
            forall|j: int| 0 <= j < i ==> #[trigger] r@[j]@ == cats@[j]@,
        decreases cats.len() - i,
    {
        r.push(cats[i].clone());
        i = i + 1;
    }
    proof {
        assert(r.deep_view() =~= cats.deep_view());
    }
    r
}

/// The canonical form of an optional categorization field: an empty string
/// means "absent".
pub open spec fn spec_normalize_opt(s: Option<Seq<char>>) -> Option<Seq<char>> {
    match s {
        Some(v) => if v.len() == 0 {
            None
        } else {
            Some(v)
        },
        None => None,
    }
}

/// Maps an optional field that arrived as the empty string to `None`.
pub fn normalize_opt_string(s: Option<String>) -> (r: Option<String>)
    ensures
        r.deep_view() == spec_normalize_opt(s.deep_view()),
{
    match s {
        Some(v) => if v.as_str().is_empty() {
            None
        } else {
            Some(v)
        },
        None => None,
    }
}

/// The canonical form of a product: optional categorization fields that
/// arrived as the empty string are absent.
pub open spec fn spec_normalize_product(p: ProductView) -> ProductView {
    ProductView {
        subcategory: spec_normalize_opt(p.subcategory),
        product_type: spec_normalize_opt(p.product_type),
        ..p
    }
}

/// Normalizes one product's optional categorization fields.
pub fn normalize_product(p: Product) -> (r: Product)
    ensures
        r@ == spec_normalize_product(p@),
{
    let Product { category, subcategory, product_type, name, price_cents, size, in_stock, image_url } = p;
    Product {
        category,
        subcategory: normalize_opt_string(subcategory),
        product_type: normalize_opt_string(product_type),
        name,
        price_cents,
        size,
        in_stock,
        image_url,
    }
}

/// The canonical form of a group: its own optional categorization fields
/// and those of every product it holds are normalized.
pub open spec fn spec_normalize_group(g: ProductGroupView) -> ProductGroupView {
    ProductGroupView {
        subcategory: spec_normalize_opt(g.subcategory),
        product_type: spec_normalize_opt(g.product_type),
        products: g.products.map_values(|p: ProductView| spec_normalize_product(p)),
        ..g
    }
}

/// Normalizes a group read back from the store.
pub fn normalize_group(g: ProductGroup) -> (r: ProductGroup)
    ensures
        r@ == spec_normalize_group(g@),
{
    let ghost gv: ProductGroupView = g@;
    let ProductGroup {
        category,
        subcategory,
        product_type,
        products,
        chunk_id,
        additional_categorizations,
    } = g;
    let ghost orig: Seq<ProductView> = products.deep_view();
    let mut normalized: Vec<Product> = Vec::new();
    let mut i: usize = 0;
    while i < products.len()
        invariant
            i <= products.len(),
            orig == products.deep_view(),
            orig.len() == products@.len(),
            forall|j: int| 0 <= j < orig.len() ==> orig[j] == #[trigger] products@[j]@,
            normalized@.len() == i,
            forall|j: int|
                0 <= j < i ==> #[trigger] normalized@[j]@ == spec_normalize_product(orig[j]),
        decreases products.len() - i,
    {
        normalized.push(normalize_product(products[i].clone()));
        i = i + 1;
    }
    let r = ProductGroup {
        category,
        subcategory: normalize_opt_string(subcategory),
        product_type: normalize_opt_string(product_type),
        products: normalized,
        chunk_id,
        additional_categorizations,
    };
    proof {
        assert(r@.products =~= orig.map_values(|p: ProductView| spec_normalize_product(p)));
        assert(r@ =~= spec_normalize_group(gv));
    }
    r
}

} // verus!
