//! The five strategies for making a product, as the contracts state them:
//! what each strategy yields for a catalog, which of them a kind of site
//! admits, and what holds of the configurations that result.

use crate::catalog::{mining_required, resource_table, stocked, supplies};
use crate::domain::{FactoryConfigurationView, PlanetType, ProductTier, ProductView};
use crate::factory::FactoryErrorView;
use crate::keyed::{first_where, lemma_first_where, lemma_first_where_is, lemma_position, lookup};
use crate::text::{missing_from, with_member, with_members, without};
use vstd::prelude::*;

verus! {

/// What a strategy yields.
pub type Outcome = Result<FactoryConfigurationView, FactoryErrorView>;

/// The elements that `error_of` finds fault with.
pub open spec fn fails<T>(error_of: spec_fn(T) -> Option<FactoryErrorView>) -> spec_fn(T) -> bool {
    |x: T| error_of(x) is Some
}

/// The error of the first element of `items` that has one.
pub open spec fn first_error<T>(
    items: Seq<T>,
    error_of: spec_fn(T) -> Option<FactoryErrorView>,
) -> Option<FactoryErrorView> {
    match first_where(items, fails(error_of)) {
        Some(i) => error_of(items[i]),
        None => None,
    }
}

/// `first_error` gives the error of an element before which no element has one.
pub proof fn lemma_first_error_at<T>(
    items: Seq<T>,
    error_of: spec_fn(T) -> Option<FactoryErrorView>,
    i: int,
)
    requires
        0 <= i < items.len(),
        error_of(items[i]) is Some,
        forall|j: int| 0 <= j < i ==> error_of(#[trigger] items[j]) is None,
    ensures
        first_error(items, error_of) == error_of(items[i]),
{
    lemma_first_where_is(items, fails(error_of), i);
}

/// `first_error` gives none exactly where no element has an error.
pub proof fn lemma_first_error_none<T>(
    items: Seq<T>,
    error_of: spec_fn(T) -> Option<FactoryErrorView>,
)
    ensures
        first_error(items, error_of) is None <==> forall|j: int|
            0 <= j < items.len() ==> error_of(#[trigger] items[j]) is None,
{
    lemma_first_where(items, fails(error_of));
}

/// Why `name` is not a product of the tier `expected`, if it is not.
pub open spec fn tier_error(catalog: Seq<ProductView>, name: Seq<char>, expected: ProductTier)
    -> Option<FactoryErrorView> {
    match lookup(catalog, name) {
        None => Some(FactoryErrorView::ProductNotFound(name)),
        Some(p) => if p.tier == expected {
            None
        } else {
            Some(FactoryErrorView::InvalidProductTier { product: name, expected, actual: p.tier })
        },
    }
}

/// `tier_error` as a function of the name.
pub open spec fn tier_check(catalog: Seq<ProductView>, expected: ProductTier) -> spec_fn(
    Seq<char>,
) -> Option<FactoryErrorView> {
    |n: Seq<char>| tier_error(catalog, n, expected)
}

/// Why `name` is not a product of a tier below P4, if it is not.
pub open spec fn below_p4_error(catalog: Seq<ProductView>, name: Seq<char>) -> Option<
    FactoryErrorView,
> {
    match lookup(catalog, name) {
        None => Some(FactoryErrorView::ProductNotFound(name)),
        Some(p) => if p.tier != ProductTier::P4 {
            None
        } else {
            Some(
                FactoryErrorView::InvalidProductTier {
                    product: name,
                    expected: ProductTier::P3,
                    actual: p.tier,
                },
            )
        },
    }
}

/// `below_p4_error` as a function of the name.
pub open spec fn below_p4_check(catalog: Seq<ProductView>) -> spec_fn(Seq<char>) -> Option<
    FactoryErrorView,
> {
    |n: Seq<char>| below_p4_error(catalog, n)
}

/// The ingredients of the product `name`; none where the catalog lacks it.
pub open spec fn ingredients_of(catalog: Seq<ProductView>, name: Seq<char>) -> Seq<Seq<char>> {
    match lookup(catalog, name) {
        Some(p) => p.ingredients,
        None => Seq::empty(),
    }
}

/// The ingredients of each of `names` in turn, one list after another.
pub open spec fn all_ingredients(catalog: Seq<ProductView>, names: Seq<Seq<char>>) -> Seq<
    Seq<char>,
>
    decreases names.len(),
{
    if names.len() == 0 {
        Seq::empty()
    } else {
        all_ingredients(catalog, names.drop_last()) + ingredients_of(catalog, names.last())
    }
}

/// A P4 product made from imports alone: every ingredient is brought in.
pub open spec fn p2_to_p4_without_mining(catalog: Seq<ProductView>, output: Seq<char>) -> Outcome {
    if mining_required(output) {
        Err(FactoryErrorView::RequiresMining(output))
    } else {
        match tier_error(catalog, output, ProductTier::P4) {
            Some(e) => Err(e),
            None => {
                let ingredients = ingredients_of(catalog, output);
                match first_error(ingredients, below_p4_check(catalog)) {
                    Some(e) => Err(e),
                    None => Ok(
                        FactoryConfigurationView {
                            start_tier: ProductTier::P2,
                            end_tier: ProductTier::P4,
                            imported_inputs: with_members(Seq::empty(), ingredients),
                            mined_inputs: Seq::empty(),
                            outputs: seq![output],
                        },
                    ),
                }
            },
        }
    }
}

/// `acc` with each of `parts` added, each followed by its own ingredients.
pub open spec fn with_parts(
    catalog: Seq<ProductView>,
    acc: Seq<Seq<char>>,
    parts: Seq<Seq<char>>,
) -> Seq<Seq<char>>
    decreases parts.len(),
{
    if parts.len() == 0 {
        acc
    } else {
        with_members(
            with_member(with_parts(catalog, acc, parts.drop_last()), parts.last()),
            ingredients_of(catalog, parts.last()),
        )
    }
}

/// Everything that goes into the products `ingredients`, three levels deep,
/// as an ordered set: each ingredient, then each of its ingredients followed
/// by that one's own ingredients, each name at the place where it first comes up.
pub open spec fn collected_inputs(catalog: Seq<ProductView>, ingredients: Seq<Seq<char>>) -> Seq<
    Seq<char>,
>
    decreases ingredients.len(),
{
    if ingredients.len() == 0 {
        Seq::empty()
    } else {
        with_parts(
            catalog,
            with_member(
                collected_inputs(catalog, ingredients.drop_last()),
                ingredients.last(),
            ),
            ingredients_of(catalog, ingredients.last()),
        )
    }
}

/// Whether `name` is a raw material of the catalog.
pub open spec fn is_raw(catalog: Seq<ProductView>, name: Seq<char>) -> bool {
    match lookup(catalog, name) {
        Some(p) => p.tier == ProductTier::P0,
        None => false,
    }
}

/// Whether `name` is a basic product made from a single raw material.
pub open spec fn is_made_from_raw(catalog: Seq<ProductView>, name: Seq<char>) -> bool {
    match lookup(catalog, name) {
        Some(p) => p.tier == ProductTier::P1 && p.ingredients.len() == 1 && is_raw(
            catalog,
            p.ingredients[0],
        ),
        None => false,
    }
}

/// `is_raw` as a function of the name.
pub open spec fn raw_test(catalog: Seq<ProductView>) -> spec_fn(Seq<char>) -> bool {
    |n: Seq<char>| is_raw(catalog, n)
}

/// `is_made_from_raw` as a function of the name.
pub open spec fn made_from_raw_test(catalog: Seq<ProductView>) -> spec_fn(Seq<char>) -> bool {
    |n: Seq<char>| is_made_from_raw(catalog, n)
}

/// What is extracted on site for a P4 product: the input that leaves the
/// imports, and the raw material that is mined. A raw material among the
/// inputs is mined itself; where there is none, a basic product made from a
/// single raw material gives way to that raw material. Of several that
/// qualify, the one that comes first among the inputs is taken.
pub open spec fn mined_choice(catalog: Seq<ProductView>, inputs: Seq<Seq<char>>) -> Option<
    (Seq<char>, Seq<char>),
> {
    match first_where(inputs, raw_test(catalog)) {
        Some(i) => Some((inputs[i], inputs[i])),
        None => match first_where(inputs, made_from_raw_test(catalog)) {
            Some(i) => Some((inputs[i], ingredients_of(catalog, inputs[i])[0])),
            None => None,
        },
    }
}

/// A P4 product that needs extraction on site: one raw material is mined and
/// everything else that goes into the product is brought in.
pub open spec fn p2_to_p4_with_mining(catalog: Seq<ProductView>, output: Seq<char>) -> Outcome {
    if lookup(catalog, output) is None {
        Err(FactoryErrorView::ProductNotFound(output))
    } else if !mining_required(output) {
        Err(FactoryErrorView::DoesNotRequireMining(output))
    } else {
        match tier_error(catalog, output, ProductTier::P4) {
            Some(e) => Err(e),
            None => {
                let ingredients = ingredients_of(catalog, output);
                match first_error(ingredients, below_p4_check(catalog)) {
                    Some(e) => Err(e),
                    None => {
                        let inputs = collected_inputs(catalog, ingredients);
                        match mined_choice(catalog, inputs) {
                            None => Err(FactoryErrorView::NoMinableResource),
                            Some((replaced, mined)) => Ok(
                                FactoryConfigurationView {
                                    start_tier: ProductTier::P2,
                                    end_tier: ProductTier::P4,
                                    imported_inputs: without(inputs, replaced),
                                    mined_inputs: seq![mined],
                                    outputs: seq![output],
                                },
                            ),
                        }
                    },
                }
            },
        }
    }
}

/// A P2 product made on one site from raw materials: the ingredients of its
/// ingredients are all mined there.
pub open spec fn p0_to_p2(catalog: Seq<ProductView>, output: Seq<char>) -> Outcome {
    match tier_error(catalog, output, ProductTier::P2) {
        Some(e) => Err(e),
        None => {
            let basics = ingredients_of(catalog, output);
            match first_error(basics, tier_check(catalog, ProductTier::P1)) {
                Some(e) => Err(e),
                None => {
                    let raws = all_ingredients(catalog, basics);
                    match first_error(raws, tier_check(catalog, ProductTier::P0)) {
                        Some(e) => Err(e),
                        None => Ok(
                            FactoryConfigurationView {
                                start_tier: ProductTier::P0,
                                end_tier: ProductTier::P2,
                                imported_inputs: Seq::empty(),
                                mined_inputs: raws,
                                outputs: seq![output],
                            },
                        ),
                    }
                },
            }
        },
    }
}

/// Why `output` cannot be made as a P2 product from `imports`, if it cannot.
pub open spec fn import_error(
    catalog: Seq<ProductView>,
    imports: Seq<Seq<char>>,
    output: Seq<char>,
) -> Option<FactoryErrorView> {
    match tier_error(catalog, output, ProductTier::P2) {
        Some(e) => Some(e),
        None => {
            let missing = missing_from(
                with_members(Seq::empty(), ingredients_of(catalog, output)),
                imports,
            );
            if missing.len() == 0 {
                None
            } else {
                Some(FactoryErrorView::MissingIngredients { product: output, missing })
            }
        },
    }
}

/// `import_error` as a function of the output.
pub open spec fn import_check(catalog: Seq<ProductView>, imports: Seq<Seq<char>>) -> spec_fn(
    Seq<char>,
) -> Option<FactoryErrorView> {
    |n: Seq<char>| import_error(catalog, imports, n)
}

/// P2 products made from imported P1 products, which must cover the
/// ingredients of each output.
pub open spec fn p1_to_p2(
    catalog: Seq<ProductView>,
    imports: Seq<Seq<char>>,
    outputs: Seq<Seq<char>>,
) -> Outcome {
    match first_error(imports, tier_check(catalog, ProductTier::P1)) {
        Some(e) => Err(e),
        None => match first_error(outputs, import_check(catalog, imports)) {
            Some(e) => Err(e),
            None => Ok(
                FactoryConfigurationView {
                    start_tier: ProductTier::P1,
                    end_tier: ProductTier::P2,
                    imported_inputs: imports,
                    mined_inputs: Seq::empty(),
                    outputs,
                },
            ),
        },
    }
}

/// Why the raw material `pair.0` does not yield the basic product `pair.1`,
/// if it does not.
pub open spec fn extraction_error(catalog: Seq<ProductView>, pair: (Seq<char>, Seq<char>))
    -> Option<FactoryErrorView> {
    match tier_error(catalog, pair.0, ProductTier::P0) {
        Some(e) => Some(e),
        None => match tier_error(catalog, pair.1, ProductTier::P1) {
            Some(e) => Some(e),
            None => if ingredients_of(catalog, pair.1) == seq![pair.0] {
                None
            } else {
                Some(
                    FactoryErrorView::MissingIngredients {
                        product: pair.1,
                        missing: seq![pair.0],
                    },
                )
            },
        },
    }
}

/// `extraction_error` as a function of the pair.
pub open spec fn extraction_check(catalog: Seq<ProductView>) -> spec_fn(
    (Seq<char>, Seq<char>),
) -> Option<FactoryErrorView> {
    |pair: (Seq<char>, Seq<char>)| extraction_error(catalog, pair)
}

/// The raw materials paired with the outputs at the same positions.
pub open spec fn paired(mined_inputs: Seq<Seq<char>>, outputs: Seq<Seq<char>>) -> Seq<
    (Seq<char>, Seq<char>),
> {
    Seq::new(mined_inputs.len(), |i: int| (mined_inputs[i], outputs[i]))
}

/// Basic products extracted on site, each from the raw material at its position.
pub open spec fn p0_to_p1(
    catalog: Seq<ProductView>,
    mined_inputs: Seq<Seq<char>>,
    outputs: Seq<Seq<char>>,
) -> Outcome {
    if mined_inputs.len() != outputs.len() {
        Err(FactoryErrorView::InputOutputMismatch)
    } else {
        match first_error(paired(mined_inputs, outputs), extraction_check(catalog)) {
            Some(e) => Err(e),
            None => Ok(
                FactoryConfigurationView {
                    start_tier: ProductTier::P0,
                    end_tier: ProductTier::P1,
                    imported_inputs: Seq::empty(),
                    mined_inputs,
                    outputs,
                },
            ),
        }
    }
}

/// Why a site of the kind `planet_type` cannot supply `resource`, if it cannot.
pub open spec fn mining_error(planet_type: PlanetType, resource: Seq<char>) -> Option<
    FactoryErrorView,
> {
    match lookup(resource_table(), resource) {
        Some(entry) => if entry.1.contains(planet_type) {
            None
        } else {
            Some(FactoryErrorView::PlanetCannotMine { planet_type, resource })
        },
        None => Some(FactoryErrorView::ProductNotFound(resource)),
    }
}

/// `mining_error` as a function of the resource.
pub open spec fn mining_check(planet_type: PlanetType) -> spec_fn(Seq<char>) -> Option<
    FactoryErrorView,
> {
    |r: Seq<char>| mining_error(planet_type, r)
}

/// Why a site of the kind `planet_type` cannot supply all of `mined_inputs`,
/// if it cannot: the error of the first resource that has one.
pub open spec fn site_error(planet_type: PlanetType, mined_inputs: Seq<Seq<char>>) -> Option<
    FactoryErrorView,
> {
    first_error(mined_inputs, mining_check(planet_type))
}

/// The configuration of a strategy that applies, where a site of the kind
/// `planet_type` supplies what it mines.
pub open spec fn accepted(planet_type: PlanetType, result: Outcome) -> Seq<
    FactoryConfigurationView,
> {
    match result {
        Ok(c) => if site_error(planet_type, c.mined_inputs) is None {
            seq![c]
        } else {
            Seq::empty()
        },
        Err(_) => Seq::empty(),
    }
}

/// The import strategy for `target`, which is tried for products of tier
/// P2 with their own ingredients as the imports.
pub open spec fn import_configurations(
    catalog: Seq<ProductView>,
    planet_type: PlanetType,
    target: Seq<char>,
) -> Seq<FactoryConfigurationView> {
    match lookup(catalog, target) {
        Some(p) => if p.tier == ProductTier::P2 {
            accepted(planet_type, p1_to_p2(catalog, p.ingredients, seq![target]))
        } else {
            Seq::empty()
        },
        None => Seq::empty(),
    }
}

/// The extraction strategy for `target`, which is tried for products of tier
/// P1 with a single ingredient.
pub open spec fn extraction_configurations(
    catalog: Seq<ProductView>,
    planet_type: PlanetType,
    target: Seq<char>,
) -> Seq<FactoryConfigurationView> {
    match lookup(catalog, target) {
        Some(p) => if p.tier == ProductTier::P1 && p.ingredients.len() == 1 {
            accepted(planet_type, p0_to_p1(catalog, seq![p.ingredients[0]], seq![target]))
        } else {
            Seq::empty()
        },
        None => Seq::empty(),
    }
}

/// Every way of making `target` on a site of the kind `planet_type`: the
/// strategies that apply and whose mined resources the site supplies, in the
/// order of the five strategies.
pub open spec fn configurations(
    catalog: Seq<ProductView>,
    planet_type: PlanetType,
    target: Seq<char>,
) -> Seq<FactoryConfigurationView> {
    accepted(planet_type, p2_to_p4_without_mining(catalog, target)) + accepted(
        planet_type,
        p2_to_p4_with_mining(catalog, target),
    ) + accepted(planet_type, p0_to_p2(catalog, target)) + import_configurations(
        catalog,
        planet_type,
        target,
    ) + extraction_configurations(catalog, planet_type, target)
}

/// Whether a site of the kind `planet_type` supplies every one of `resources`.
pub open spec fn site_supplies(planet_type: PlanetType, resources: Seq<Seq<char>>) -> bool {
    forall|i: int| 0 <= i < resources.len() ==> supplies(planet_type, #[trigger] resources[i])
}

/// A site passes for a list of resources exactly where the resource table
/// lists every one of them under the kind of the site.
pub proof fn lemma_site_error(planet_type: PlanetType, resources: Seq<Seq<char>>)
    ensures
        site_error(planet_type, resources) is None <==> site_supplies(planet_type, resources),
{
    lemma_first_error_none(resources, mining_check(planet_type));
    if site_supplies(planet_type, resources) {
        assert forall|j: int| 0 <= j < resources.len() implies mining_check(planet_type)(
            #[trigger] resources[j],
        ) is None by {
            assert(supplies(planet_type, resources[j]));
        }
    }
    if site_error(planet_type, resources) is None {
        assert forall|i: int| 0 <= i < resources.len() implies supplies(
            planet_type,
            #[trigger] resources[i],
        ) by {
            assert(mining_check(planet_type)(resources[i]) is None);
        }
    }
}

/// A site passes for a single resource exactly where the resource table lists
/// the resource under the kind of the site.
pub proof fn lemma_single_resource(planet_type: PlanetType, resource: Seq<char>)
    ensures
        site_error(planet_type, seq![resource]) is None <==> supplies(planet_type, resource),
{
    lemma_site_error(planet_type, seq![resource]);
    assert(seq![resource][0] == resource);
}

/// The one way of making a basic product from its raw material.
pub open spec fn extraction(name: Seq<char>, resource: Seq<char>) -> FactoryConfigurationView {
    FactoryConfigurationView {
        start_tier: ProductTier::P0,
        end_tier: ProductTier::P1,
        imported_inputs: Seq::empty(),
        mined_inputs: seq![resource],
        outputs: seq![name],
    }
}

/// A basic product whose single ingredient is a raw material of the catalog
/// has one configuration on the kinds of site that supply the raw material,
/// and none on the others.
pub proof fn lemma_basic_product_configurations(
    catalog: Seq<ProductView>,
    planet_type: PlanetType,
    name: Seq<char>,
    resource: Seq<char>,
)
    requires
        lookup(catalog, name) is Some,
        lookup(catalog, name).unwrap().tier == ProductTier::P1,
        lookup(catalog, name).unwrap().ingredients == seq![resource],
        is_raw(catalog, resource),
    ensures
        configurations(catalog, planet_type, name) == if supplies(planet_type, resource) {
            seq![extraction(name, resource)]
        } else {
            Seq::empty()
        },
{
    let p = lookup(catalog, name).unwrap();
    assert(p.ingredients.len() == 1 && p.ingredients[0] == resource);
    assert(p2_to_p4_without_mining(catalog, name) is Err);
    assert(p2_to_p4_with_mining(catalog, name) is Err);
    assert(p0_to_p2(catalog, name) is Err);
    assert(import_configurations(catalog, planet_type, name) == Seq::<
        FactoryConfigurationView,
    >::empty());
    let pairs = paired(seq![resource], seq![name]);
    assert(pairs.len() == 1);
    assert(pairs[0] == (resource, name));
    assert(extraction_check(catalog)(pairs[0]) is None);
    lemma_first_error_none(pairs, extraction_check(catalog));
    assert(p0_to_p1(catalog, seq![resource], seq![name]) == Ok::<
        FactoryConfigurationView,
        FactoryErrorView,
    >(extraction(name, resource)));
    lemma_single_resource(planet_type, resource);
    assert(configurations(catalog, planet_type, name) =~= extraction_configurations(
        catalog,
        planet_type,
        name,
    ));
}

/// A basic product whose single ingredient is a raw material of the catalog
/// can be made on some kind of site exactly where some kind of site supplies
/// the raw material.
pub proof fn lemma_basic_product_producible(
    catalog: Seq<ProductView>,
    name: Seq<char>,
    resource: Seq<char>,
)
    requires
        lookup(catalog, name) is Some,
        lookup(catalog, name).unwrap().tier == ProductTier::P1,
        lookup(catalog, name).unwrap().ingredients == seq![resource],
        is_raw(catalog, resource),
    ensures
        (exists|t: PlanetType| configurations(catalog, t, name).len() > 0) <==> (exists|
            t: PlanetType,
        |
            supplies(t, resource)),
{
    if exists|t: PlanetType| configurations(catalog, t, name).len() > 0 {
        let t = choose|t: PlanetType| configurations(catalog, t, name).len() > 0;
        lemma_basic_product_configurations(catalog, t, name, resource);
        assert(supplies(t, resource));
    }
    if exists|t: PlanetType| supplies(t, resource) {
        let t = choose|t: PlanetType| supplies(t, resource);
        lemma_basic_product_configurations(catalog, t, name, resource);
        assert(configurations(catalog, t, name).len() > 0);
    }
}

/// Whether something goes into a configuration.
pub open spec fn has_inputs(config: FactoryConfigurationView) -> bool {
    config.imported_inputs.len() + config.mined_inputs.len() > 0
}

/// An ordered set to which members were added holds each of them.
pub proof fn lemma_with_members(s: Seq<Seq<char>>, xs: Seq<Seq<char>>)
    ensures
        forall|i: int| 0 <= i < xs.len() ==> with_members(s, xs).contains(#[trigger] xs[i]),
        forall|i: int| 0 <= i < s.len() ==> with_members(s, xs).contains(#[trigger] s[i]),
    decreases xs.len(),
{
    if xs.len() > 0 {
        let before = with_members(s, xs.drop_last());
        lemma_with_members(s, xs.drop_last());
        let after = with_member(before, xs.last());
        assert forall|y: Seq<char>| before.contains(y) implies after.contains(y) by {
            if !before.contains(xs.last()) {
                let i = choose|i: int| 0 <= i < before.len() && before[i] == y;
                assert(after[i] == y);
            }
        }
        assert(after.contains(xs.last())) by {
            if !before.contains(xs.last()) {
                assert(after[before.len() as int] == xs.last());
            }
        }
        assert forall|i: int| 0 <= i < xs.len() implies after.contains(#[trigger] xs[i]) by {
            if i < xs.len() - 1 {
                assert(xs.drop_last()[i] == xs[i]);
            }
        }
    }
}

/// In a stocked catalog something goes into every configuration.
pub proof fn lemma_configurations_have_inputs(
    catalog: Seq<ProductView>,
    planet_type: PlanetType,
    target: Seq<char>,
)
    requires
        stocked(catalog),
    ensures
        forall|i: int|
            0 <= i < configurations(catalog, planet_type, target).len() ==> has_inputs(
                #[trigger] configurations(catalog, planet_type, target)[i],
            ),
{
    lemma_position(catalog, target);
    let first = accepted(planet_type, p2_to_p4_without_mining(catalog, target));
    let second = accepted(planet_type, p2_to_p4_with_mining(catalog, target));
    let third = accepted(planet_type, p0_to_p2(catalog, target));
    let fourth = import_configurations(catalog, planet_type, target);
    let fifth = extraction_configurations(catalog, planet_type, target);
    assert forall|i: int| 0 <= i < first.len() implies has_inputs(#[trigger] first[i]) by {
        let ingredients = ingredients_of(catalog, target);
        lemma_with_members(Seq::empty(), ingredients);
        assert(with_members(Seq::empty(), ingredients).contains(ingredients[0]));
    }
    assert forall|i: int| 0 <= i < second.len() implies has_inputs(#[trigger] second[i]) by {
        assert(second[i].mined_inputs.len() == 1);
    }
    assert forall|i: int| 0 <= i < third.len() implies has_inputs(#[trigger] third[i]) by {
        let basics = ingredients_of(catalog, target);
        lemma_first_error_none(basics, tier_check(catalog, ProductTier::P1));
        let last = basics.last();
        assert(tier_check(catalog, ProductTier::P1)(basics[basics.len() - 1]) is None);
        lemma_position(catalog, last);
        assert(ingredients_of(catalog, last).len() > 0);
        assert(all_ingredients(catalog, basics).len() >= ingredients_of(catalog, last).len());
    }
    assert forall|i: int| 0 <= i < fourth.len() implies has_inputs(#[trigger] fourth[i]) by {}
    assert forall|i: int| 0 <= i < fifth.len() implies has_inputs(#[trigger] fifth[i]) by {
        assert(fifth[i].mined_inputs.len() == 1);
    }
}

} // verus!
