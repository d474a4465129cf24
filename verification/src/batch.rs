//! Batch creation of product groups.
//!
//! A batch of product inputs is normalized, grouped by primary
//! categorization, split into chunks of at most
//! [`PRODUCTS_PER_GROUP`](crate::product::PRODUCTS_PER_GROUP) products,
//! and written as one immutable group per chunk. Each chunk's chunk id is
//! allocated from the links present at its path at that moment, so
//! sequential creation at one path yields 0, 1, 2, …; groups whose
//! categorization names a product type without a subcategory cannot name a
//! path and are skipped.

use crate::allocator::next_chunk_id;
use crate::allocator::spec_next_chunk_id;
use crate::catalog::create_product_group;
use crate::catalog::spec_group_of_input;
use crate::catalog::spec_group_paths;
use crate::indexer::spec_fanout_links;
use crate::paths::resolve_path_node;
use crate::paths::spec_node_hash;
use crate::paths::spec_specific_path;
use crate::paths::specific_path_string;
use crate::product::Categorization;
use crate::product::CategorizationView;
use crate::product::CreateProductGroupInput;
use crate::product::CreateProductInput;
use crate::product::CreateProductInputView;
use crate::product::PRODUCTS_PER_GROUP;
use crate::product::Product;
use crate::product::ProductGroupView;
use crate::product::ProductView;
use crate::product::clone_categorizations;
use crate::product::clone_opt_string;
use crate::product::normalize_opt_string;
use crate::product::spec_normalize_opt;
use crate::store::CatalogStore;
use crate::store::FetchedRecord;
use crate::store::RecordPayloadView;
use crate::store::StoreView;
use crate::store::spec_fetch_records;
use crate::store::spec_links_at;
use vstd::prelude::*;

verus! {

/// The canonical form of one batch input: optional categorization fields
/// that arrived as the empty string become absent, and the product's own
/// categorization is overwritten by the input's, which is the source of
/// truth for grouping.
pub open spec fn spec_normalize_input(iv: CreateProductInputView) -> CreateProductInputView {
    let sub = spec_normalize_opt(iv.subcategory);
    let pt = spec_normalize_opt(iv.product_type);
    CreateProductInputView {
        product: ProductView {
            category: iv.main_category,
            subcategory: sub,
            product_type: pt,
            ..iv.product
        },
        main_category: iv.main_category,
        subcategory: sub,
        product_type: pt,
        additional_categorizations: iv.additional_categorizations,
    }
}

/// Normalizes one batch input.
pub fn normalize_input(input: CreateProductInput) -> (r: CreateProductInput)
    ensures
        r@ == spec_normalize_input(input@),
{
    let CreateProductInput {
        product,
        main_category,
        subcategory,
        product_type,
        additional_categorizations,
    } = input;
    let subcategory = normalize_opt_string(subcategory);
    let product_type = normalize_opt_string(product_type);
    let product = Product {
        category: main_category.clone(),
        subcategory: clone_opt_string(&subcategory),
        product_type: clone_opt_string(&product_type),
        ..product
    };
    CreateProductInput {
        product,
        main_category,
        subcategory,
        product_type,
        additional_categorizations,
    }
}

/// The inputs of one primary categorization, gathered in input order.
#[derive(Debug)]
pub struct PrimaryGroup {
    pub category: String,
    pub subcategory: Option<String>,
    pub product_type: Option<String>,
    pub inputs: Vec<CreateProductInput>,
}

/// The mathematical value of a [`PrimaryGroup`].
pub struct PrimaryGroupView {
    pub category: Seq<char>,
    pub subcategory: Option<Seq<char>>,
    pub product_type: Option<Seq<char>>,
    pub inputs: Seq<CreateProductInputView>,
}

impl View for PrimaryGroup {
    type V = PrimaryGroupView;

    open spec fn view(&self) -> PrimaryGroupView {
        PrimaryGroupView {
            category: self.category@,
            subcategory: self.subcategory.deep_view(),
            product_type: self.product_type.deep_view(),
            inputs: self.inputs.deep_view(),
        }
    }
}

impl DeepView for PrimaryGroup {
    type V = PrimaryGroupView;

    open spec fn deep_view(&self) -> PrimaryGroupView {
        self.view()
    }
}

/// Whether an input's primary categorization matches a group's.
pub open spec fn spec_key_matches(g: PrimaryGroupView, iv: CreateProductInputView) -> bool {
    g.category == iv.main_category && g.subcategory == iv.subcategory && g.product_type
        == iv.product_type
}

/// The first group with an input's key, or the group count when none has
/// it.
pub open spec fn spec_find_group(groups: Seq<PrimaryGroupView>, iv: CreateProductInputView) -> int
    decreases groups.len(),
{
    if groups.len() == 0 {
        0
    } else if spec_key_matches(groups.first(), iv) {
        0
    } else {
        1 + spec_find_group(groups.drop_first(), iv)
    }
}

/// One input sorted into the group list: appended to the first group with
/// its key, or opening a new group at the end.
pub open spec fn spec_add_to_groups(
    groups: Seq<PrimaryGroupView>,
    iv: CreateProductInputView,
) -> Seq<PrimaryGroupView> {
    let idx = spec_find_group(groups, iv);
    if idx < groups.len() {
        groups.update(
            idx,
            PrimaryGroupView { inputs: groups[idx].inputs.push(iv), ..groups[idx] },
        )
    } else {
        groups.push(
            PrimaryGroupView {
                category: iv.main_category,
                subcategory: iv.subcategory,
                product_type: iv.product_type,
                inputs: seq![iv],
            },
        )
    }
}

/// The inputs grouped by primary categorization: groups appear in
/// first-appearance order and keep their inputs in input order.
pub open spec fn spec_group_inputs(inputs: Seq<CreateProductInputView>) -> Seq<PrimaryGroupView>
    decreases inputs.len(),
{
    if inputs.len() == 0 {
        Seq::empty()
    } else {
        spec_add_to_groups(spec_group_inputs(inputs.drop_last()), inputs.last())
    }
}

/// Tells whether two optional strings hold the same value.
pub fn opt_string_eq(a: &Option<String>, b: &Option<String>) -> (r: bool)
    ensures
        r == (a.deep_view() == b.deep_view()),
{
    match (a, b) {
        (Some(x), Some(y)) => *x == *y,
        (None, None) => true,
        _ => false,
    }
}

/// Finds the first group with an input's primary key.
fn find_group(groups: &Vec<PrimaryGroup>, input: &CreateProductInput) -> (idx: usize)
    ensures
        idx as int == spec_find_group(groups.deep_view(), input@),
        idx <= groups@.len(),
{
    let ghost gv: Seq<PrimaryGroupView> = groups.deep_view();
    let mut i: usize = 0;
    proof {
        assert(gv.skip(0) =~= gv);
    }
    while i < groups.len()
        invariant
            i <= groups.len(),
            gv == groups.deep_view(),
            gv.len() == groups@.len(),
            spec_find_group(gv, input@) == i as int + spec_find_group(
                gv.skip(i as int),
                input@,
            ),
            forall|j: int| 0 <= j < i ==> !spec_key_matches(gv[j], input@),
        decreases groups.len() - i,
    {
        let g = &groups[i];
        let matches = g.category == input.main_category && opt_string_eq(
            &g.subcategory,
            &input.subcategory,
        ) && opt_string_eq(&g.product_type, &input.product_type);
        proof {
            assert(gv.skip(i as int).first() == gv[i as int]);
            assert(gv.skip(i as int).drop_first() =~= gv.skip(i as int + 1));
        }
        if matches {
            proof {
                assert(spec_find_group(gv.skip(i as int), input@) == 0);
            }
            return i;
        }
        i = i + 1;
    }
    proof {
        assert(gv.skip(groups@.len() as int).len() == 0);
    }
    i
}

/// Sorts the normalized inputs into groups by primary categorization,
/// keeping first-appearance group order and input order within a group.
fn group_inputs(inputs: Vec<CreateProductInput>) -> (groups: Vec<PrimaryGroup>)
    ensures
        groups.deep_view() == spec_group_inputs(inputs.deep_view()),
{
    let ghost iv: Seq<CreateProductInputView> = inputs.deep_view();
    let mut groups: Vec<PrimaryGroup> = Vec::new();
    let mut i: usize = 0;
    proof {
        assert(iv.take(0) =~= Seq::<CreateProductInputView>::empty());
    }
    let n = inputs.len();
    let mut rest = inputs;
    let mut consumed: usize = 0;
    while consumed < n
        invariant
            consumed <= n,
            rest@.len() == n - consumed,
            iv.len() == n,
            forall|j: int| 0 <= j < rest@.len() ==> #[trigger] rest@[j]@ == iv[consumed + j],
            groups.deep_view() == spec_group_inputs(iv.take(consumed as int)),
        decreases n - consumed,
    {
        let input = rest.remove(0);
        proof {
            assert(input@ == iv[consumed as int]);
        }
        let idx = find_group(&groups, &input);
        let ghost gv: Seq<PrimaryGroupView> = groups.deep_view();
        if idx < groups.len() {
            groups[idx].inputs.push(input);
            proof {
                assert(groups@[idx as int].inputs.deep_view() =~= gv[idx as int].inputs.push(
                    iv[consumed as int],
                ));
                assert(groups.deep_view() =~= gv.update(
                    idx as int,
                    PrimaryGroupView {
                        inputs: gv[idx as int].inputs.push(iv[consumed as int]),
                        ..gv[idx as int]
                    },
                ));
            }
        } else {
            let mut g = PrimaryGroup {
                category: input.main_category.clone(),
                subcategory: clone_opt_string(&input.subcategory),
                product_type: clone_opt_string(&input.product_type),
                inputs: Vec::new(),
            };
            g.inputs.push(input);
            proof {
                assert(g@.inputs =~= seq![iv[consumed as int]]);
            }
            groups.push(g);
            proof {
                assert(groups.deep_view() =~= gv.push(
                    PrimaryGroupView {
                        category: iv[consumed as int].main_category,
                        subcategory: iv[consumed as int].subcategory,
                        product_type: iv[consumed as int].product_type,
                        inputs: seq![iv[consumed as int]],
                    },
                ));
            }
        }
        proof {
            assert(iv.take(consumed as int + 1).drop_last() =~= iv.take(consumed as int));
            assert(iv.take(consumed as int + 1).last() == iv[consumed as int]);
            assert(groups.deep_view() =~= spec_add_to_groups(gv, iv[consumed as int]));
        }
        consumed = consumed + 1;
    }
    proof {
        assert(iv.take(n as int) =~= iv);
    }
    groups
}

/// One planned group: the path its primary triple names, the triple
/// itself, the products of one chunk, and the additional categorizations
/// of the chunk's first input.
#[derive(Debug)]
pub struct GroupPlan {
    pub path: String,
    pub category: String,
    pub subcategory: Option<String>,
    pub product_type: Option<String>,
    pub products: Vec<Product>,
    pub additional_categorizations: Vec<Categorization>,
}

/// The mathematical value of a [`GroupPlan`].
pub struct GroupPlanView {
    pub path: Seq<char>,
    pub category: Seq<char>,
    pub subcategory: Option<Seq<char>>,
    pub product_type: Option<Seq<char>>,
    pub products: Seq<ProductView>,
    pub additional_categorizations: Seq<CategorizationView>,
}

impl View for GroupPlan {
    type V = GroupPlanView;

    open spec fn view(&self) -> GroupPlanView {
        GroupPlanView {
            path: self.path@,
            category: self.category@,
            subcategory: self.subcategory.deep_view(),
            product_type: self.product_type.deep_view(),
            products: self.products.deep_view(),
            additional_categorizations: self.additional_categorizations.deep_view(),
        }
    }
}

impl DeepView for GroupPlan {
    type V = GroupPlanView;

    open spec fn deep_view(&self) -> GroupPlanView {
        self.view()
    }
}

/// The chunk of one group starting at input `lo`.
pub open spec fn spec_chunk_plan_at(g: PrimaryGroupView, lo: int) -> GroupPlanView {
    let products = g.inputs.map_values(|x: CreateProductInputView| x.product);
    let hi = if lo + PRODUCTS_PER_GROUP <= products.len() {
        lo + PRODUCTS_PER_GROUP
    } else {
        products.len() as int
    };
    GroupPlanView {
        path: spec_specific_path(g.category, g.subcategory, g.product_type)->0,
        category: g.category,
        subcategory: g.subcategory,
        product_type: g.product_type,
        products: products.subrange(lo, hi),
        additional_categorizations: g.inputs[lo].additional_categorizations,
    }
}

/// The chunks of one group from input `lo` on, each of at most
/// [`PRODUCTS_PER_GROUP`] products, in order.
pub open spec fn spec_chunks_from(g: PrimaryGroupView, lo: int) -> Seq<GroupPlanView>
    decreases g.inputs.len() - lo,
{
    if lo < 0 || lo >= g.inputs.len() {
        Seq::empty()
    } else {
        let hi = if lo + PRODUCTS_PER_GROUP <= g.inputs.len() {
            lo + PRODUCTS_PER_GROUP as int
        } else {
            g.inputs.len() as int
        };
        seq![spec_chunk_plan_at(g, lo)] + spec_chunks_from(g, hi)
    }
}

/// The chunks one group contributes to the plan: none when its triple
/// names a product type without a subcategory and so no path.
pub open spec fn spec_group_chunks(g: PrimaryGroupView) -> Seq<GroupPlanView> {
    if g.subcategory is None && g.product_type is Some {
        Seq::empty()
    } else {
        spec_chunks_from(g, 0)
    }
}

/// The whole batch plan: every group's chunks, groups in first-appearance
/// order.
pub open spec fn spec_plan_of_groups(groups: Seq<PrimaryGroupView>) -> Seq<GroupPlanView>
    decreases groups.len(),
{
    if groups.len() == 0 {
        Seq::empty()
    } else {
        spec_plan_of_groups(groups.drop_last()) + spec_group_chunks(groups.last())
    }
}

/// The plan a batch of raw inputs yields: inputs normalized, grouped by
/// primary categorization, and chunked.
pub open spec fn spec_batch_plan(inputs: Seq<CreateProductInputView>) -> Seq<GroupPlanView> {
    spec_plan_of_groups(
        spec_group_inputs(inputs.map_values(|x: CreateProductInputView| spec_normalize_input(x))),
    )
}

/// Law: every planned group holds between 1 and [`PRODUCTS_PER_GROUP`]
/// products, and its path is the one its triple names.
pub proof fn lemma_chunks_wf(g: PrimaryGroupView, lo: int)
    ensures
        forall|j: int|
            0 <= j < spec_chunks_from(g, lo).len() ==> {
                let gp = #[trigger] spec_chunks_from(g, lo)[j];
                &&& 0 < gp.products.len() <= PRODUCTS_PER_GROUP
                &&& spec_specific_path(gp.category, gp.subcategory, gp.product_type) is Some
                    ==> gp.path == spec_specific_path(
                    gp.category,
                    gp.subcategory,
                    gp.product_type,
                )->0
                &&& gp.category == g.category
                &&& gp.subcategory == g.subcategory
                &&& gp.product_type == g.product_type
            },
    decreases g.inputs.len() - lo,
{
    if lo < 0 || lo >= g.inputs.len() {
    } else {
        let hi = if lo + PRODUCTS_PER_GROUP <= g.inputs.len() {
            lo + PRODUCTS_PER_GROUP as int
        } else {
            g.inputs.len() as int
        };
        lemma_chunks_wf(g, hi);
    }
}

/// Builds one chunk's plan from a group's inputs.
fn build_chunk(g: &PrimaryGroup, path: &String, lo: usize) -> (gp: GroupPlan)
    requires
        lo < g.inputs@.len(),
        path@ == spec_specific_path(g@.category, g@.subcategory, g@.product_type)->0,
    ensures
        gp@ == spec_chunk_plan_at(g@, lo as int),
        gp.products@.len() > 0,
        gp.products@.len() <= PRODUCTS_PER_GROUP,
{
    let ghost gv: PrimaryGroupView = g@;
    let len = g.inputs.len();
    let hi = if len - lo > PRODUCTS_PER_GROUP {
        lo + PRODUCTS_PER_GROUP
    } else {
        len
    };
    let mut products: Vec<Product> = Vec::new();
    let mut t: usize = lo;
    while t < hi
        invariant
            lo <= t <= hi <= g.inputs@.len(),
            gv == g@,
            gv.inputs.len() == g.inputs@.len(),
            forall|j: int| 0 <= j < gv.inputs.len() ==> gv.inputs[j] == #[trigger] g.inputs@[j]@,
            products@.len() == t - lo,
            forall|j: int| 0 <= j < t - lo ==> #[trigger] products@[j]@ == gv.inputs[lo + j].product,
        decreases hi - t,
    {
        products.push(g.inputs[t].product.clone());
        t = t + 1;
    }
    let gp = GroupPlan {
        path: path.clone(),
        category: g.category.clone(),
        subcategory: clone_opt_string(&g.subcategory),
        product_type: clone_opt_string(&g.product_type),
        products,
        additional_categorizations: clone_categorizations(&g.inputs[lo].additional_categorizations),
    };
    proof {
        assert(gp@.products =~= spec_chunk_plan_at(gv, lo as int).products);
        assert(gp@ == spec_chunk_plan_at(gv, lo as int));
    }
    gp
}

/// Flattens the grouped inputs into the batch plan: each group's chunks in
/// order, skipping groups whose triple names no path.
fn build_plan(groups: &Vec<PrimaryGroup>) -> (plan: Vec<GroupPlan>)
    ensures
        plan.deep_view() == spec_plan_of_groups(groups.deep_view()),
{
    let ghost gsv: Seq<PrimaryGroupView> = groups.deep_view();
    let mut plan: Vec<GroupPlan> = Vec::new();
    let mut k: usize = 0;
    proof {
        assert(gsv.take(0) =~= Seq::<PrimaryGroupView>::empty());
        assert(plan.deep_view() =~= spec_plan_of_groups(gsv.take(0)));
    }
    while k < groups.len()
        invariant
            k <= groups.len(),
            gsv == groups.deep_view(),
            gsv.len() == groups@.len(),
            plan.deep_view() == spec_plan_of_groups(gsv.take(k as int)),
        decreases groups.len() - k,
    {
        let g = &groups[k];
        let ghost gv: PrimaryGroupView = gsv[k as int];
        proof {
            assert(gv == g@);
            assert(gsv.take(k as int + 1).drop_last() =~= gsv.take(k as int));
            assert(gsv.take(k as int + 1).last() == gsv[k as int]);
        }
        match specific_path_string(g.category.as_str(), &g.subcategory, &g.product_type) {
            Err(_) => {
                proof {
                    assert(plan.deep_view() =~= spec_plan_of_groups(gsv.take(k as int + 1)));
                }
            },
            Ok(path) => {
                let ghost base: Seq<GroupPlanView> = plan.deep_view();
                let mut lo: usize = 0;
                while lo < g.inputs.len()
                    invariant
                        0 <= lo,
                        gv == g@,
                        gv.inputs.len() == g.inputs@.len(),
                        path@ == spec_specific_path(gv.category, gv.subcategory, gv.product_type)
                            ->0,
                        !(gv.subcategory is None && gv.product_type is Some),
                        plan.deep_view() + spec_chunks_from(gv, lo as int) == base
                            + spec_chunks_from(gv, 0),
                    decreases g.inputs@.len() - lo,
                {
                    let gp = build_chunk(g, &path, lo);
                    let len = g.inputs.len();
                    let hi = if len - lo > PRODUCTS_PER_GROUP {
                        lo + PRODUCTS_PER_GROUP
                    } else {
                        len
                    };
                    plan.push(gp);
                    proof {
                        assert(spec_chunks_from(gv, lo as int) =~= seq![
                            spec_chunk_plan_at(gv, lo as int),
                        ] + spec_chunks_from(gv, hi as int));
                        assert(plan.deep_view() + spec_chunks_from(gv, hi as int) =~= base
                            + spec_chunks_from(gv, 0));
                    }
                    lo = hi;
                }
                proof {
                    assert(spec_chunks_from(gv, lo as int) =~= Seq::<GroupPlanView>::empty());
                    assert(plan.deep_view() =~= base + spec_chunks_from(gv, 0));
                    assert(plan.deep_view() =~= spec_plan_of_groups(gsv.take(k as int + 1)));
                }
            },
        }
        k = k + 1;
    }
    proof {
        assert(gsv.take(groups@.len() as int) =~= gsv);
    }
    plan
}

/// Law: every entry of a plan holds between 1 and [`PRODUCTS_PER_GROUP`]
/// products, and its path is the valid path its triple names.
pub proof fn lemma_plan_wf(groups: Seq<PrimaryGroupView>)
    ensures
        forall|j: int|
            0 <= j < spec_plan_of_groups(groups).len() ==> {
                let gp = #[trigger] spec_plan_of_groups(groups)[j];
                &&& 0 < gp.products.len() <= PRODUCTS_PER_GROUP
                &&& spec_specific_path(gp.category, gp.subcategory, gp.product_type) is Some
                &&& gp.path == spec_specific_path(gp.category, gp.subcategory, gp.product_type)->0
            },
    decreases groups.len(),
{
    if groups.len() == 0 {
    } else {
        lemma_plan_wf(groups.drop_last());
        let g = groups.last();
        if g.subcategory is None && g.product_type is Some {
        } else {
            lemma_chunks_wf(g, 0);
        }
    }
}

/// The group record one planned group becomes under a given chunk id.
pub open spec fn spec_plan_group(gp: GroupPlanView, chunk_id: u32) -> ProductGroupView {
    ProductGroupView {
        category: gp.category,
        subcategory: gp.subcategory,
        product_type: gp.product_type,
        products: gp.products,
        chunk_id,
        additional_categorizations: gp.additional_categorizations,
    }
}

/// The store after writing one planned group: its chunk id is allocated
/// from the links present at its path at that moment, the record is
/// appended, and the fan-out links follow.
pub open spec fn spec_apply_one(s: StoreView, gp: GroupPlanView) -> StoreView {
    let chunk_id = spec_next_chunk_id(spec_links_at(s.links, spec_node_hash(gp.path)));
    let g = spec_plan_group(gp, chunk_id);
    StoreView {
        records: s.records.push(RecordPayloadView::Group(g)),
        links: s.links + spec_fanout_links(
            spec_group_paths(g),
            s.records.len() as u64,
            chunk_id,
        ),
    }
}

/// The store after writing a whole plan, in order.
pub open spec fn spec_apply_plan(s: StoreView, plan: Seq<GroupPlanView>) -> StoreView
    decreases plan.len(),
{
    if plan.len() == 0 {
        s
    } else {
        spec_apply_plan(spec_apply_one(s, plan.first()), plan.drop_first())
    }
}

/// Law: writing a plan and then one more group is writing the longer plan.
pub proof fn lemma_apply_plan_snoc(s: StoreView, plan: Seq<GroupPlanView>, gp: GroupPlanView)
    ensures
        spec_apply_plan(s, plan.push(gp)) == spec_apply_one(spec_apply_plan(s, plan), gp),
    decreases plan.len(),
{
    reveal_with_fuel(spec_apply_plan, 3);
    if plan.len() == 0 {
        assert(plan.push(gp).first() == gp);
        assert(plan.push(gp).drop_first() =~= Seq::<GroupPlanView>::empty());
    } else {
        assert(plan.push(gp).first() == plan.first());
        assert(plan.push(gp).drop_first() =~= plan.drop_first().push(gp));
        lemma_apply_plan_snoc(spec_apply_one(s, plan.first()), plan.drop_first(), gp);
    }
}

/// Creates product groups for a whole batch of inputs: inputs are
/// normalized, grouped by primary categorization in first-appearance
/// order, and written as one immutable group per chunk of at most
/// [`PRODUCTS_PER_GROUP`] products, each group's chunk id allocated from
/// its path at creation time and each group linked at all its paths. The
/// created group records are fetched back and returned in creation order.
pub fn create_product_batch(store: &mut CatalogStore, inputs: Vec<CreateProductInput>) -> (records:
    Vec<FetchedRecord>)
    ensures
        ({
            let plan = spec_batch_plan(inputs.deep_view());
            &&& final(store)@ == spec_apply_plan(old(store)@, plan)
            &&& records.deep_view() == spec_fetch_records(
                final(store)@,
                Seq::new(plan.len(), |i: int| (old(store)@.records.len() + i) as u64),
            )
        }),
{
    let ghost iv: Seq<CreateProductInputView> = inputs.deep_view();
    let n = inputs.len();
    let mut normalized: Vec<CreateProductInput> = Vec::new();
    let mut rest = inputs;
    let mut consumed: usize = 0;
    while consumed < n
        invariant
            consumed <= n,
            rest@.len() == n - consumed,
            iv.len() == n,
            forall|j: int| 0 <= j < rest@.len() ==> #[trigger] rest@[j]@ == iv[consumed + j],
            normalized@.len() == consumed,
            forall|j: int|
                0 <= j < consumed ==> #[trigger] normalized@[j]@ == spec_normalize_input(iv[j]),
        decreases n - consumed,
    {
        let input = rest.remove(0);
        proof {
            assert(input@ == iv[consumed as int]);
        }
        normalized.push(normalize_input(input));
        consumed = consumed + 1;
    }
    proof {
        assert(normalized.deep_view() =~= iv.map_values(
            |x: CreateProductInputView| spec_normalize_input(x),
        ));
    }
    let groups = group_inputs(normalized);
    let plan = build_plan(&groups);
    let ghost planv: Seq<GroupPlanView> = plan.deep_view();
    proof {
        assert(planv == spec_batch_plan(iv));
        lemma_plan_wf(groups.deep_view());
        assert(planv.take(0) =~= Seq::<GroupPlanView>::empty());
    }
    let mut hashes: Vec<u64> = Vec::new();
    let mut k: usize = 0;
    while k < plan.len()
        invariant
            k <= plan.len(),
            planv == plan.deep_view(),
            planv.len() == plan@.len(),
            forall|j: int|
                0 <= j < planv.len() ==> {
                    let gp = #[trigger] planv[j];
                    &&& 0 < gp.products.len() <= PRODUCTS_PER_GROUP
                    &&& spec_specific_path(gp.category, gp.subcategory, gp.product_type) is Some
                    &&& gp.path == spec_specific_path(
                        gp.category,
                        gp.subcategory,
                        gp.product_type,
                    )->0
                },
            store@ == spec_apply_plan(old(store)@, planv.take(k as int)),
            store@.records.len() == old(store)@.records.len() + k,
            hashes@.len() == k,
            forall|j: int|
                0 <= j < k ==> (#[trigger] hashes@[j]) as int == old(store)@.records.len() + j,
        decreases plan.len() - k,
    {
        let gp = &plan[k];
        let node = resolve_path_node(gp.path.as_str());
        let chunk_id = next_chunk_id(store, &node);
        let input = CreateProductGroupInput {
            category: gp.category.clone(),
            subcategory: clone_opt_string(&gp.subcategory),
            product_type: clone_opt_string(&gp.product_type),
            products: crate::product::clone_products(&gp.products),
            chunk_id,
            additional_categorizations: clone_categorizations(&gp.additional_categorizations),
        };
        let ghost before: StoreView = store@;
        proof {
            assert(spec_group_of_input(input@) == spec_plan_group(planv[k as int], chunk_id));
        }
        match create_product_group(store, input) {
            Ok(h) => {
                hashes.push(h);
            },
            Err(_) => {
                proof {
                    assert(false);
                }
            },
        }
        proof {
            assert(store@ == spec_apply_one(before, planv[k as int]));
            assert(planv.take(k as int + 1) =~= planv.take(k as int).push(planv[k as int]));
            lemma_apply_plan_snoc(old(store)@, planv.take(k as int), planv[k as int]);
        }
        k = k + 1;
    }
    proof {
        assert(planv.take(plan@.len() as int) =~= planv);
        assert(hashes@ =~= Seq::new(planv.len(), |i: int| (old(store)@.records.len() + i) as u64));
    }
    store.concurrent_get_records(&hashes)
}

} // verus!
