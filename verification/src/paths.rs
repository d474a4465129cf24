//! The path resolver.
//!
//! A categorization names up to three nested category paths: the main
//! category, the subcategory under it, and the product type under that. Each
//! path has one canonical string, such as `categories/Produce` or
//! `categories/Produce/subcategories/Fruit/types/Citrus`, and every path
//! node's store address is derived from that string alone, so resolving the
//! same string always yields the same node: node creation needs no lock and
//! no setup step, and concurrent resolvers converge on one node.

use crate::error::CatalogError;
use crate::product::Categorization;
use crate::product::CategorizationView;
use crate::product::CreateProductInput;
use crate::product::CreateProductInputView;
use vstd::prelude::*;
use vstd::string::StringExecFns;

verus! {

/// The canonical string of a main-category path.
pub open spec fn spec_main_path(category: Seq<char>) -> Seq<char> {
    "categories/"@ + category
}

/// The canonical string of a subcategory path.
pub open spec fn spec_sub_path(category: Seq<char>, subcategory: Seq<char>) -> Seq<char> {
    spec_main_path(category) + "/subcategories/"@ + subcategory
}

/// The canonical string of a product-type path.
pub open spec fn spec_type_path(
    category: Seq<char>,
    subcategory: Seq<char>,
    product_type: Seq<char>,
) -> Seq<char> {
    spec_sub_path(category, subcategory) + "/types/"@ + product_type
}

/// Builds the canonical main-category path string.
pub fn main_path_string(category: &str) -> (p: String)
    ensures
        p@ == spec_main_path(category@),
{
    let mut p = String::from_str("categories/");
    p.append(category);
    p
}

/// Builds the canonical subcategory path string.
pub fn sub_path_string(category: &str, subcategory: &str) -> (p: String)
    ensures
        p@ == spec_sub_path(category@, subcategory@),
{
    let mut p = main_path_string(category);
    p.append("/subcategories/");
    p.append(subcategory);
    p
}

/// Builds the canonical product-type path string.
pub fn type_path_string(category: &str, subcategory: &str, product_type: &str) -> (p: String)
    ensures
        p@ == spec_type_path(category@, subcategory@, product_type@),
{
    let mut p = sub_path_string(category, subcategory);
    p.append("/types/");
    p.append(product_type);
    p
}

/// The deterministic store address of one path node.
///
/// The address is derived from the canonical path string alone, which gives
/// the injective, idempotent addressing the hierarchy relies on: identical
/// strings always resolve to the identical node, and nodes are never deleted.
pub struct NodeHash {
    key: String,
}

impl View for NodeHash {
    type V = Seq<char>;

    closed spec fn view(&self) -> Seq<char> {
        self.key@
    }
}

/// The node hash a canonical path string resolves to.
pub open spec fn spec_node_hash(path: Seq<char>) -> Seq<char> {
    path
}

impl NodeHash {
    /// The canonical path string this node stands for.
    pub fn as_str(&self) -> (s: &str)
        ensures
            s@ == self@,
    {
        self.key.as_str()
    }
}

impl Clone for NodeHash {
    fn clone(&self) -> (r: Self)
        ensures
            r@ == self@,
    {
        NodeHash { key: self.key.clone() }
    }
}

impl PartialEq for NodeHash {
    fn eq(&self, other: &Self) -> (r: bool) {
        self.key == other.key
    }
}

impl vstd::std_specs::cmp::PartialEqSpecImpl for NodeHash {
    open spec fn obeys_eq_spec() -> bool {
        true
    }

    open spec fn eq_spec(&self, other: &Self) -> bool {
        self@ == other@
    }
}

/// Resolves a canonical path string to its path node's store address.
///
/// Resolution is pure: it depends on the string alone, never on store state,
/// so it is idempotent and safe to call redundantly and concurrently.
pub fn resolve_path_node(path: &str) -> (node: NodeHash)
    ensures
        node@ == spec_node_hash(path@),
{
    NodeHash { key: String::from_str(path) }
}

/// The most specific canonical path a (category, subcategory?, product
/// type?) triple names, or nothing when the triple gives a product type
/// without a subcategory.
pub open spec fn spec_specific_path(
    category: Seq<char>,
    subcategory: Option<Seq<char>>,
    product_type: Option<Seq<char>>,
) -> Option<Seq<char>> {
    match (subcategory, product_type) {
        (Some(s), Some(t)) => Some(spec_type_path(category, s, t)),
        (Some(s), None) => Some(spec_sub_path(category, s)),
        (None, None) => Some(spec_main_path(category)),
        (None, Some(_)) => None,
    }
}

/// Builds the most specific canonical path string of a triple, rejecting a
/// product type given without a subcategory.
pub fn specific_path_string(
    category: &str,
    subcategory: &Option<String>,
    product_type: &Option<String>,
) -> (r: Result<String, CatalogError>)
    ensures
        match spec_specific_path(category@, subcategory.deep_view(), product_type.deep_view()) {
            Some(p) => r is Ok && r->Ok_0@ == p,
            None => r == Result::<String, CatalogError>::Err(CatalogError::InvalidCategorization),
        },
{
    match (subcategory, product_type) {
        (Some(s), Some(t)) => Ok(type_path_string(category, s.as_str(), t.as_str())),
        (Some(s), None) => Ok(sub_path_string(category, s.as_str())),
        (None, None) => Ok(main_path_string(category)),
        (None, Some(_)) => Err(CatalogError::InvalidCategorization),
    }
}

/// The canonical paths one categorization expands to: its main path, then —
/// when a subcategory is present — its subcategory path, then — when a
/// product type is present as well — its product-type path. A product type
/// without a subcategory adds no path.
pub open spec fn spec_expansion(c: CategorizationView) -> Seq<Seq<char>> {
    match c.subcategory {
        None => seq![spec_main_path(c.category)],
        Some(s) => match c.product_type {
            None => seq![spec_main_path(c.category), spec_sub_path(c.category, s)],
            Some(t) => seq![
                spec_main_path(c.category),
                spec_sub_path(c.category, s),
                spec_type_path(c.category, s, t),
            ],
        },
    }
}

/// Every canonical path of a primary categorization followed by those of the
/// additional categorizations, in input order. Paths are not deduplicated: a
/// coinciding primary and additional categorization list their paths twice.
pub open spec fn spec_all_paths(
    primary: CategorizationView,
    additional: Seq<CategorizationView>,
) -> Seq<Seq<char>>
    decreases additional.len(),
{
    if additional.len() == 0 {
        spec_expansion(primary)
    } else {
        spec_all_paths(primary, additional.drop_last()) + spec_expansion(additional.last())
    }
}

/// The primary categorization a product input is indexed under.
pub open spec fn spec_input_primary(input: CreateProductInputView) -> CategorizationView {
    CategorizationView {
        category: input.main_category,
        subcategory: input.subcategory,
        product_type: input.product_type,
    }
}

/// Appends one categorization's expansion to a path list.
fn push_expansion(paths: &mut Vec<String>, c: &Categorization)
    ensures
        final(paths).deep_view() == old(paths).deep_view() + spec_expansion(c@),
{
    paths.push(main_path_string(c.category.as_str()));
    match &c.subcategory {
        None => {},
        Some(s) => {
            paths.push(sub_path_string(c.category.as_str(), s.as_str()));
            match &c.product_type {
                None => {},
                Some(t) => {
                    paths.push(type_path_string(c.category.as_str(), s.as_str(), t.as_str()));
                },
            }
        },
    }
    proof {
        assert(paths.deep_view() =~= old(paths).deep_view() + spec_expansion(c@));
    }
}

/// Builds every canonical path of a primary categorization and a list of
/// additional categorizations, in order and without deduplication.
pub fn all_paths(primary: &Categorization, additional: &Vec<Categorization>) -> (paths: Vec<
    String,
>)
    ensures
        paths.deep_view() == spec_all_paths(primary@, additional.deep_view()),
{
    let ghost advs: Seq<CategorizationView> = additional.deep_view();
    let mut paths: Vec<String> = Vec::new();
    push_expansion(&mut paths, primary);
    proof {
        assert(paths.deep_view() =~= spec_expansion(primary@));
        assert(advs.take(0) =~= Seq::<CategorizationView>::empty());
    }
    let mut i: usize = 0;
    while i < additional.len()
        invariant
            i <= additional.len(),
            advs == additional.deep_view(),
            paths.deep_view() == spec_all_paths(primary@, advs.take(i as int)),
        decreases additional.len() - i,
    {
        push_expansion(&mut paths, &additional[i]);
        proof {
            assert(advs.take(i as int + 1).drop_last() =~= advs.take(i as int));
            assert(advs.take(i as int + 1).last() == advs[i as int]);
        }
        i = i + 1;
    }
    proof {
        assert(advs.take(additional@.len() as int) =~= advs);
    }
    paths
}

/// The canonical paths a product input is indexed under: the expansion of
/// its primary categorization, then of each additional categorization in
/// input order, without deduplication.
pub fn get_paths(input: &CreateProductInput) -> (paths: Vec<String>)
    ensures
        paths.deep_view() == spec_all_paths(
            spec_input_primary(input@),
            input.additional_categorizations.deep_view(),
        ),
{
    let primary = Categorization {
        category: input.main_category.clone(),
        subcategory: crate::product::clone_opt_string(&input.subcategory),
        product_type: crate::product::clone_opt_string(&input.product_type),
    };
    proof {
        assert(primary@ == spec_input_primary(input@));
    }
    all_paths(&primary, &input.additional_categorizations)
}

} // verus!
