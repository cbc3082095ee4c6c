//! What a production plan is: the products that a target requires, the
//! search for an assignment of sites and operators, and what holds of the
//! plans that the search finds.

use crate::domain::{
    CharacterView, FactoryConfigurationView, PlanetAssignmentView, PlanetType, PlanetView,
    ProductView,
};
use crate::catalog::stocked;
use crate::strategy::{configurations, has_inputs, lemma_configurations_have_inputs};
use crate::keyed::{first_where, lookup};
use crate::repository::RepositoryErrorView;
use crate::text::distinct;
use vstd::prelude::*;

verus! {

/// A `SolverError` as the contracts see it.
pub enum SolverErrorView {
    RepositoryError(RepositoryErrorView),
    ProductNotFound(Seq<char>),
    NoSolutionFound(Seq<char>),
}

/// What a solve has to work with.
pub struct Inventory {
    pub catalog: Seq<ProductView>,
    pub sites: Seq<PlanetView>,
    pub operators: Seq<CharacterView>,
}

/// The kinds of site, in the order in which they are tried.
pub open spec fn planet_types() -> Seq<PlanetType> {
    seq![
        PlanetType::Barren,
        PlanetType::Gas,
        PlanetType::Ice,
        PlanetType::Lava,
        PlanetType::Oceanic,
        PlanetType::Plasma,
        PlanetType::Storm,
        PlanetType::Temperate,
    ]
}

/// The kinds of site on which `name` can be made.
pub open spec fn producible_on(catalog: Seq<ProductView>, name: Seq<char>) -> spec_fn(
    PlanetType,
) -> bool {
    |t: PlanetType| configurations(catalog, t, name).len() > 0
}

/// The first configuration for `name` on the first kind of site that has one.
pub open spec fn first_configuration(catalog: Seq<ProductView>, name: Seq<char>) -> Option<
    FactoryConfigurationView,
> {
    match first_where(planet_types(), producible_on(catalog, name)) {
        Some(i) => Some(configurations(catalog, planet_types()[i], name)[0]),
        None => None,
    }
}

/// The number of products of the catalog whose names `seen` lacks.
pub open spec fn unseen(catalog: Seq<ProductView>, seen: Seq<Seq<char>>) -> nat
    decreases catalog.len(),
{
    if catalog.len() == 0 {
        0
    } else {
        unseen(catalog.drop_last(), seen) + if seen.contains(catalog.last().name) {
            0nat
        } else {
            1nat
        }
    }
}

/// A name that is seen is never unseen again, and seeing the name of a product
/// for the first time leaves fewer unseen.
pub proof fn lemma_unseen_push(catalog: Seq<ProductView>, seen: Seq<Seq<char>>, name: Seq<char>)
    ensures
        unseen(catalog, seen.push(name)) <= unseen(catalog, seen),
        lookup(catalog, name) is Some && !seen.contains(name) ==> unseen(
            catalog,
            seen.push(name),
        ) < unseen(catalog, seen),
    decreases catalog.len(),
{
    let more = seen.push(name);
    assert(more[seen.len() as int] == name);
    assert forall|x: Seq<char>| seen.contains(x) implies more.contains(x) by {
        let i = choose|i: int| 0 <= i < seen.len() && seen[i] == x;
        assert(more[i] == x);
    }
    if catalog.len() > 0 {
        let rest = catalog.drop_last();
        lemma_unseen_push(rest, seen, name);
        crate::keyed::lemma_position(catalog, name);
        crate::keyed::lemma_position(rest, name);
        if lookup(catalog, name) is Some && !seen.contains(name) {
            if catalog.last().name == name {
            } else {
                let i = crate::keyed::position(catalog, name).unwrap();
                assert(rest[i] == catalog[i]);
                assert(lookup(rest, name) is Some);
            }
        }
    }
}

/// What is reported where no kind of site has a configuration for `name`.
pub open spec fn no_configuration_message(name: Seq<char>) -> Seq<char> {
    "No factory configuration found for product: "@ + name
}

/// What is reported where the search finds no plan for `target`.
pub open spec fn no_solution_message(target: Seq<char>) -> Seq<char> {
    "Could not find a complete solution for "@ + target
}

/// The products required once everything in `pending` has been followed up,
/// front first, where `seen` are required already. A name that is new is
/// added, and the imports of its first configuration are followed up before
/// the rest.
pub open spec fn required_from(
    catalog: Seq<ProductView>,
    pending: Seq<Seq<char>>,
    seen: Seq<Seq<char>>,
) -> Result<Seq<Seq<char>>, SolverErrorView>
    decreases unseen(catalog, seen), pending.len(),
{
    if pending.len() == 0 {
        Ok(seen)
    } else {
        let name = pending[0];
        let rest = pending.drop_first();
        if seen.contains(name) {
            required_from(catalog, rest, seen)
        } else if lookup(catalog, name) is None {
            Err(SolverErrorView::ProductNotFound(name))
        } else {
            match first_configuration(catalog, name) {
                None => Err(SolverErrorView::NoSolutionFound(no_configuration_message(name))),
                Some(c) => {
                    proof {
                        lemma_unseen_push(catalog, seen, name);
                    }
                    required_from(catalog, c.imported_inputs + rest, seen.push(name))
                },
            }
        }
    }
}

/// The products that have to be made for `target`: the target, then what the
/// first configuration of each required product imports, each name once and
/// in the order in which it is first reached.
pub open spec fn required_products(catalog: Seq<ProductView>, target: Seq<char>) -> Result<
    Seq<Seq<char>>,
    SolverErrorView,
> {
    required_from(catalog, seq![target], Seq::empty())
}

/// Whether some assignment of `plan` makes `product`.
pub open spec fn produced(plan: Seq<PlanetAssignmentView>, product: Seq<char>) -> bool {
    exists|i: int| 0 <= i < plan.len() && (#[trigger] plan[i]).output == product
}

/// Whether some assignment of `plan` uses the site `id`.
pub open spec fn site_used(plan: Seq<PlanetAssignmentView>, id: Seq<char>) -> bool {
    exists|i: int| 0 <= i < plan.len() && (#[trigger] plan[i]).planet == id
}

/// The number of assignments of `plan` that name `operator`.
pub open spec fn load(plan: Seq<PlanetAssignmentView>, operator: Seq<char>) -> nat
    decreases plan.len(),
{
    if plan.len() == 0 {
        0
    } else {
        load(plan.drop_last(), operator) + if plan.last().character == operator {
            1nat
        } else {
            0nat
        }
    }
}

/// Whether each of `imports` is made by `plan` or is still to be made.
pub open spec fn inputs_available(
    plan: Seq<PlanetAssignmentView>,
    products: Seq<Seq<char>>,
    imports: Seq<Seq<char>>,
) -> bool {
    forall|k: int|
        0 <= k < imports.len() ==> produced(plan, #[trigger] imports[k]) || products.contains(
            imports[k],
        )
}

/// The assignment of `site` and `operator` to making `product` under `config`.
pub open spec fn assignment(
    site: PlanetView,
    config: FactoryConfigurationView,
    operator: CharacterView,
    product: Seq<char>,
) -> PlanetAssignmentView {
    PlanetAssignmentView {
        character: operator.name,
        planet: site.id,
        planet_type: site.planet_type,
        imported_inputs: config.imported_inputs,
        mined_inputs: config.mined_inputs,
        output: product,
    }
}

/// Whether `operator` can take on one more site under `config`.
pub open spec fn eligible(
    plan: Seq<PlanetAssignmentView>,
    products: Seq<Seq<char>>,
    config: FactoryConfigurationView,
    operator: CharacterView,
) -> bool {
    load(plan, operator.name) < operator.planets && inputs_available(
        plan,
        products,
        config.imported_inputs,
    )
}

/// The configurations for the product at `position` on the site `s`.
pub open spec fn options(inv: Inventory, products: Seq<Seq<char>>, position: int, s: int) -> Seq<
    FactoryConfigurationView,
> {
    configurations(inv.catalog, inv.sites[s].planet_type, products[position])
}

/// The depth-first search for a plan. The products are taken in their order;
/// one that `plan` makes already is passed over. For the others the candidates
/// are gone through from the site `s`, its configuration `c` and the operator
/// `o` on: sites in their order, for each free site its configurations, for
/// each configuration the operators. The first candidate that is eligible and
/// from which the remaining products can be assigned is taken. The result is
/// the completed plan, or none where every candidate fails.
pub open spec fn search_from(
    inv: Inventory,
    products: Seq<Seq<char>>,
    position: int,
    plan: Seq<PlanetAssignmentView>,
    s: int,
    c: int,
    o: int,
) -> Option<Seq<PlanetAssignmentView>>
    decreases products.len() - position, inv.sites.len() - s, options(inv, products, position, s).len()
        - c, inv.operators.len() - o,
{
    if position < 0 || position >= products.len() {
        Some(plan)
    } else if produced(plan, products[position]) {
        search_from(inv, products, position + 1, plan, 0, 0, 0)
    } else if s < 0 || s >= inv.sites.len() {
        None
    } else if site_used(plan, inv.sites[s].id) || c < 0 || c >= options(
        inv,
        products,
        position,
        s,
    ).len() {
        search_from(inv, products, position, plan, s + 1, 0, 0)
    } else if o < 0 || o >= inv.operators.len() {
        search_from(inv, products, position, plan, s, c + 1, 0)
    } else {
        let config = options(inv, products, position, s)[c];
        let operator = inv.operators[o];
        let attempt = if eligible(plan, products, config, operator) {
            search_from(
                inv,
                products,
                position + 1,
                plan.push(assignment(inv.sites[s], config, operator, products[position])),
                0,
                0,
                0,
            )
        } else {
            None
        };
        match attempt {
            Some(found) => Some(found),
            None => search_from(inv, products, position, plan, s, c, o + 1),
        }
    }
}

/// The plan that the search finds for `products` from `position` on, where
/// `plan` holds the assignments made so far.
pub open spec fn search(
    inv: Inventory,
    products: Seq<Seq<char>>,
    position: int,
    plan: Seq<PlanetAssignmentView>,
) -> Option<Seq<PlanetAssignmentView>> {
    search_from(inv, products, position, plan, 0, 0, 0)
}

/// What a solve for `target` returns: the target must be in the catalog, the
/// required products must each have a configuration on some kind of site, and
/// the search must find a plan for them.
pub open spec fn solution(inv: Inventory, target: Seq<char>) -> Result<
    Seq<PlanetAssignmentView>,
    SolverErrorView,
> {
    if lookup(inv.catalog, target) is None {
        Err(SolverErrorView::ProductNotFound(target))
    } else {
        match required_products(inv.catalog, target) {
            Err(e) => Err(e),
            Ok(products) => match search(inv, products, 0, Seq::empty()) {
                Some(plan) => Ok(plan),
                None => Err(SolverErrorView::NoSolutionFound(no_solution_message(target))),
            },
        }
    }
}

/// No site is used by two assignments.
pub open spec fn sites_distinct(plan: Seq<PlanetAssignmentView>) -> bool {
    forall|i: int, j: int| 0 <= i < j < plan.len() ==> plan[i].planet != plan[j].planet
}

/// Some operator called `name` may supervise as many sites as `plan` has it
/// supervise.
pub open spec fn has_capacity(
    operators: Seq<CharacterView>,
    plan: Seq<PlanetAssignmentView>,
    name: Seq<char>,
) -> bool {
    exists|k: int|
        0 <= k < operators.len() && (#[trigger] operators[k]).name == name && load(plan, name)
            <= operators[k].planets
}

/// No operator that `plan` names supervises more sites than it may.
pub open spec fn within_capacity(
    operators: Seq<CharacterView>,
    plan: Seq<PlanetAssignmentView>,
) -> bool {
    forall|i: int|
        0 <= i < plan.len() ==> has_capacity(operators, plan, (#[trigger] plan[i]).character)
}

/// The assignment of the site `s` and the operator `o` to making `product`
/// under the configuration `c` of that site.
pub open spec fn candidate(inv: Inventory, product: Seq<char>, s: int, c: int, o: int)
    -> PlanetAssignmentView {
    assignment(
        inv.sites[s],
        configurations(inv.catalog, inv.sites[s].planet_type, product)[c],
        inv.operators[o],
        product,
    )
}

/// Whether the inventory has a site `s` with a configuration `c` for
/// `product`, and an operator `o`.
pub open spec fn is_candidate(inv: Inventory, product: Seq<char>, s: int, c: int, o: int) -> bool {
    &&& 0 <= s < inv.sites.len()
    &&& 0 <= c < configurations(inv.catalog, inv.sites[s].planet_type, product).len()
    &&& 0 <= o < inv.operators.len()
}

/// The assignment binds a site and an operator of the inventory under a
/// configuration that the site has for the output.
pub open spec fn from_inventory(inv: Inventory, a: PlanetAssignmentView) -> bool {
    exists|s: int, c: int, o: int|
        is_candidate(inv, a.output, s, c, o) && a == #[trigger] candidate(inv, a.output, s, c, o)
}

/// What holds of the assignments during a search for `products`.
pub open spec fn well_formed(
    inv: Inventory,
    products: Seq<Seq<char>>,
    plan: Seq<PlanetAssignmentView>,
) -> bool {
    &&& sites_distinct(plan)
    &&& within_capacity(inv.operators, plan)
    &&& forall|i: int| 0 <= i < plan.len() ==> from_inventory(inv, #[trigger] plan[i])
    &&& forall|i: int| 0 <= i < plan.len() ==> products.contains((#[trigger] plan[i]).output)
    &&& forall|i: int|
        0 <= i < plan.len() ==> inputs_available(
            plan,
            products,
            (#[trigger] plan[i]).imported_inputs,
        )
}

/// Every one of `products` is made by `plan`.
pub open spec fn complete(products: Seq<Seq<char>>, plan: Seq<PlanetAssignmentView>) -> bool {
    forall|k: int| 0 <= k < products.len() ==> produced(plan, #[trigger] products[k])
}

/// What one more assignment adds to the load of an operator.
pub proof fn lemma_load_push(
    plan: Seq<PlanetAssignmentView>,
    a: PlanetAssignmentView,
    operator: Seq<char>,
)
    ensures
        load(plan.push(a), operator) == load(plan, operator) + if a.character == operator {
            1nat
        } else {
            0nat
        },
{
    assert(plan.push(a).drop_last() =~= plan);
}

/// What a plan makes it still makes after one more assignment.
pub proof fn lemma_produced_push(
    plan: Seq<PlanetAssignmentView>,
    a: PlanetAssignmentView,
    product: Seq<char>,
)
    ensures
        produced(plan, product) ==> produced(plan.push(a), product),
        produced(plan.push(a), a.output),
{
    let longer = plan.push(a);
    assert(longer[plan.len() as int].output == a.output);
    if produced(plan, product) {
        let i = choose|i: int| 0 <= i < plan.len() && (#[trigger] plan[i]).output == product;
        assert(longer[i].output == product);
    }
}

/// An eligible candidate on a free site keeps the assignments well formed.
pub proof fn lemma_well_formed_push(
    inv: Inventory,
    products: Seq<Seq<char>>,
    position: int,
    plan: Seq<PlanetAssignmentView>,
    s: int,
    c: int,
    o: int,
)
    requires
        well_formed(inv, products, plan),
        0 <= position < products.len(),
        is_candidate(inv, products[position], s, c, o),
        !site_used(plan, inv.sites[s].id),
        eligible(plan, products, options(inv, products, position, s)[c], inv.operators[o]),
    ensures
        well_formed(inv, products, plan.push(candidate(inv, products[position], s, c, o))),
{
    let a = candidate(inv, products[position], s, c, o);
    let longer = plan.push(a);
    assert forall|i: int, j: int| 0 <= i < j < longer.len() implies longer[i].planet
        != longer[j].planet by {
        if j == plan.len() {
            assert(plan[i].planet != inv.sites[s].id);
        }
    }
    assert forall|i: int| 0 <= i < longer.len() implies has_capacity(
        inv.operators,
        longer,
        (#[trigger] longer[i]).character,
    ) by {
        let name = longer[i].character;
        lemma_load_push(plan, a, name);
        if name == a.character {
            assert(inv.operators[o].name == name);
        } else {
            assert(has_capacity(inv.operators, plan, plan[i].character));
            let k = choose|k: int|
                0 <= k < inv.operators.len() && (#[trigger] inv.operators[k]).name == name
                    && load(plan, name) <= inv.operators[k].planets;
            assert(inv.operators[k].name == name);
        }
    }
    assert forall|i: int| 0 <= i < longer.len() implies from_inventory(
        inv,
        #[trigger] longer[i],
    ) by {
        if i == plan.len() {
            assert(is_candidate(inv, a.output, s, c, o) && a == candidate(
                inv,
                a.output,
                s,
                c,
                o,
            ));
        } else {
            assert(from_inventory(inv, plan[i]));
        }
    }
    assert forall|i: int| 0 <= i < longer.len() implies products.contains(
        (#[trigger] longer[i]).output,
    ) by {
        if i < plan.len() {
            assert(products.contains(plan[i].output));
        }
    }
    assert forall|i: int| 0 <= i < longer.len() implies inputs_available(
        longer,
        products,
        (#[trigger] longer[i]).imported_inputs,
    ) by {
        let imports = longer[i].imported_inputs;
        if i < plan.len() {
            assert(inputs_available(plan, products, plan[i].imported_inputs));
        }
        assert(inputs_available(plan, products, imports));
        assert forall|k: int| 0 <= k < imports.len() implies produced(
            longer,
            #[trigger] imports[k],
        ) || products.contains(imports[k]) by {
            lemma_produced_push(plan, a, imports[k]);
        }
    }
}

/// A plan that the search finds is well formed and makes every product,
/// where the assignments it started from were well formed and made the
/// products before `position`.
pub proof fn lemma_search_from(
    inv: Inventory,
    products: Seq<Seq<char>>,
    position: int,
    plan: Seq<PlanetAssignmentView>,
    s: int,
    c: int,
    o: int,
)
    requires
        well_formed(inv, products, plan),
        0 <= position,
        forall|k: int| 0 <= k < position && k < products.len() ==> produced(
            plan,
            #[trigger] products[k],
        ),
    ensures
        match search_from(inv, products, position, plan, s, c, o) {
            Some(found) => well_formed(inv, products, found) && complete(products, found),
            None => true,
        },
    decreases products.len() - position, inv.sites.len() - s, options(inv, products, position, s).len()
        - c, inv.operators.len() - o,
{
    if position >= products.len() {
    } else if produced(plan, products[position]) {
        lemma_search_from(inv, products, position + 1, plan, 0, 0, 0);
    } else if s < 0 || s >= inv.sites.len() {
    } else if site_used(plan, inv.sites[s].id) || c < 0 || c >= options(
        inv,
        products,
        position,
        s,
    ).len() {
        lemma_search_from(inv, products, position, plan, s + 1, 0, 0);
    } else if o < 0 || o >= inv.operators.len() {
        lemma_search_from(inv, products, position, plan, s, c + 1, 0);
    } else {
        let config = options(inv, products, position, s)[c];
        let operator = inv.operators[o];
        if eligible(plan, products, config, operator) {
            let a = candidate(inv, products[position], s, c, o);
            lemma_well_formed_push(inv, products, position, plan, s, c, o);
            assert forall|k: int| 0 <= k < position + 1 && k < products.len() implies produced(
                plan.push(a),
                #[trigger] products[k],
            ) by {
                lemma_produced_push(plan, a, products[k]);
            }
            lemma_search_from(inv, products, position + 1, plan.push(a), 0, 0, 0);
        }
        lemma_search_from(inv, products, position, plan, s, c, o + 1);
    }
}

/// Whether the required product at `i` is in the catalog and has a first
/// configuration whose imports are all required.
pub open spec fn closed_at(catalog: Seq<ProductView>, required: Seq<Seq<char>>, i: int) -> bool {
    &&& lookup(catalog, required[i]) is Some
    &&& match first_configuration(catalog, required[i]) {
        Some(c) => forall|k: int|
            0 <= k < c.imported_inputs.len() ==> required.contains(#[trigger] c.imported_inputs[k]),
        None => false,
    }
}

/// What is required starts with what was seen and holds everything that was
/// pending; no name comes twice where none was seen twice; and every product
/// that was added is in the catalog and has a first configuration whose
/// imports are required too.
pub proof fn lemma_required_from(
    catalog: Seq<ProductView>,
    pending: Seq<Seq<char>>,
    seen: Seq<Seq<char>>,
)
    ensures
        match required_from(catalog, pending, seen) {
            Ok(required) => {
                &&& seen.len() <= required.len()
                &&& forall|i: int| 0 <= i < seen.len() ==> #[trigger] required[i] == seen[i]
                &&& forall|i: int|
                    0 <= i < pending.len() ==> required.contains(#[trigger] pending[i])
                &&& distinct(seen) ==> distinct(required)
                &&& forall|i: int|
                    seen.len() <= i < required.len() ==> closed_at(catalog, required, i)
            },
            Err(_) => true,
        },
    decreases unseen(catalog, seen), pending.len(),
{
    if pending.len() == 0 {
    } else {
        let name = pending[0];
        let rest = pending.drop_first();
        if seen.contains(name) {
            lemma_required_from(catalog, rest, seen);
            match required_from(catalog, rest, seen) {
                Ok(required) => {
                    assert forall|i: int| 0 <= i < pending.len() implies required.contains(
                        #[trigger] pending[i],
                    ) by {
                        if i > 0 {
                            assert(rest[i - 1] == pending[i]);
                        } else {
                            let j = choose|j: int| 0 <= j < seen.len() && seen[j] == name;
                            assert(required[j] == seen[j]);
                        }
                    }
                },
                Err(_) => {},
            }
        } else if lookup(catalog, name) is None {
        } else {
            match first_configuration(catalog, name) {
                None => {},
                Some(c) => {
                    lemma_unseen_push(catalog, seen, name);
                    let next = c.imported_inputs + rest;
                    let more = seen.push(name);
                    lemma_required_from(catalog, next, more);
                    match required_from(catalog, next, more) {
                        Ok(required) => {
                            assert forall|i: int| 0 <= i < seen.len() implies #[trigger] required[i]
                                == seen[i] by {
                                assert(required[i] == more[i]);
                            }
                            assert(required[seen.len() as int] == more[seen.len() as int]);
                            assert forall|i: int|
                                0 <= i < pending.len() implies required.contains(
                                #[trigger] pending[i],
                            ) by {
                                if i > 0 {
                                    assert(next[c.imported_inputs.len() + i - 1] == pending[i]);
                                }
                            }
                            assert(closed_at(catalog, required, seen.len() as int)) by {
                                assert forall|k: int|
                                    0 <= k < c.imported_inputs.len() implies required.contains(
                                    #[trigger] c.imported_inputs[k],
                                ) by {
                                    assert(next[k] == c.imported_inputs[k]);
                                }
                            }
                            if distinct(seen) {
                                assert(distinct(more));
                            }
                        },
                        Err(_) => {},
                    }
                },
            }
        }
    }
}

/// The products required for a target start with the target, hold no product
/// twice, and hold with each product what its first configuration imports;
/// each of them is in the catalog and can be made on some kind of site.
pub proof fn lemma_required_products(catalog: Seq<ProductView>, target: Seq<char>)
    ensures
        match required_products(catalog, target) {
            Ok(required) => {
                &&& required.len() > 0
                &&& required[0] == target
                &&& distinct(required)
                &&& forall|i: int| 0 <= i < required.len() ==> closed_at(catalog, required, i)
            },
            Err(_) => true,
        },
{
    let pending = seq![target];
    let seen = Seq::<Seq<char>>::empty();
    lemma_required_from(catalog, pending, seen);
    match required_from(catalog, pending, seen) {
        Ok(required) => {
            assert(pending[0] == target);
            assert(pending.drop_first() =~= Seq::<Seq<char>>::empty());
            assert(!seen.contains(target));
            let c = first_configuration(catalog, target).unwrap();
            lemma_unseen_push(catalog, seen, target);
            lemma_required_from(
                catalog,
                c.imported_inputs + pending.drop_first(),
                seen.push(target),
            );
            assert(seen.push(target)[0] == target);
        },
        Err(_) => {},
    }
}

/// What holds of a plan for `target`: no site is used twice, no operator
/// supervises more sites than it may, the target is made, each assignment
/// binds a site and an operator of the inventory under a configuration that
/// the site has for its output, and whatever an assignment imports is made by
/// an assignment of the plan.
pub open spec fn sound(inv: Inventory, target: Seq<char>, plan: Seq<PlanetAssignmentView>) -> bool {
    &&& sites_distinct(plan)
    &&& within_capacity(inv.operators, plan)
    &&& produced(plan, target)
    &&& forall|i: int| 0 <= i < plan.len() ==> from_inventory(inv, #[trigger] plan[i])
    &&& forall|i: int, k: int|
        0 <= i < plan.len() && 0 <= k < plan[i].imported_inputs.len() ==> produced(
            plan,
            #[trigger] plan[i].imported_inputs[k],
        )
}

/// Every plan that a solve returns is sound.
pub proof fn lemma_solution_sound(inv: Inventory, target: Seq<char>)
    ensures
        match solution(inv, target) {
            Ok(plan) => sound(inv, target, plan),
            Err(_) => true,
        },
{
    if lookup(inv.catalog, target) is Some {
        match required_products(inv.catalog, target) {
            Ok(products) => {
                let start = Seq::<PlanetAssignmentView>::empty();
                lemma_required_products(inv.catalog, target);
                assert(products.contains(target));
                lemma_search_from(inv, products, 0, start, 0, 0, 0);
                match search(inv, products, 0, start) {
                    Some(plan) => {
                        let t = choose|t: int| 0 <= t < products.len() && products[t] == target;
                        assert(produced(plan, products[t]));
                        assert forall|i: int, k: int|
                            0 <= i < plan.len() && 0 <= k
                                < plan[i].imported_inputs.len() implies produced(
                            plan,
                            #[trigger] plan[i].imported_inputs[k],
                        ) by {
                            let x = plan[i].imported_inputs[k];
                            assert(inputs_available(plan, products, plan[i].imported_inputs));
                            if !produced(plan, x) {
                                let j = choose|j: int| 0 <= j < products.len() && products[j] == x;
                                assert(produced(plan, products[j]));
                            }
                        }
                    },
                    None => {},
                }
            },
            Err(_) => {},
        }
    }
}

/// Something goes into every assignment of the plan.
pub open spec fn supplied(plan: Seq<PlanetAssignmentView>) -> bool {
    forall|i: int|
        0 <= i < plan.len() ==> (#[trigger] plan[i]).imported_inputs.len()
            + plan[i].mined_inputs.len() > 0
}

/// In a stocked catalog something goes into every assignment of a plan that
/// a solve returns.
pub proof fn lemma_solution_supplied(inv: Inventory, target: Seq<char>)
    requires
        stocked(inv.catalog),
    ensures
        match solution(inv, target) {
            Ok(plan) => supplied(plan),
            Err(_) => true,
        },
{
    lemma_solution_sound(inv, target);
    match solution(inv, target) {
        Ok(plan) => {
            assert forall|i: int| 0 <= i < plan.len() implies (#[trigger] plan[i]).imported_inputs.len()
                + plan[i].mined_inputs.len() > 0 by {
                assert(from_inventory(inv, plan[i]));
                let (s, c, o) = choose|s: int, c: int, o: int|
                    is_candidate(inv, plan[i].output, s, c, o) && plan[i] == #[trigger] candidate(
                        inv,
                        plan[i].output,
                        s,
                        c,
                        o,
                    );
                lemma_configurations_have_inputs(
                    inv.catalog,
                    inv.sites[s].planet_type,
                    plan[i].output,
                );
                assert(has_inputs(
                    configurations(inv.catalog, inv.sites[s].planet_type, plan[i].output)[c],
                ));
            }
        },
        Err(_) => {},
    }
}

/// Whether the candidate `choice`, a site with one of its configurations
/// and an operator, may be assigned to the product at `position`.
pub open spec fn allowed(
    inv: Inventory,
    products: Seq<Seq<char>>,
    position: int,
    plan: Seq<PlanetAssignmentView>,
    choice: (int, int, int),
) -> bool {
    &&& is_candidate(inv, products[position], choice.0, choice.1, choice.2)
    &&& !site_used(plan, inv.sites[choice.0].id)
    &&& eligible(
        plan,
        products,
        options(inv, products, position, choice.0)[choice.1],
        inv.operators[choice.2],
    )
}

/// Whether `choices` complete `plan`: they hold, in the order of the
/// products, one allowed candidate for each product from `position` on that
/// is not made when its turn comes.
pub open spec fn completes(
    inv: Inventory,
    products: Seq<Seq<char>>,
    position: int,
    plan: Seq<PlanetAssignmentView>,
    choices: Seq<(int, int, int)>,
) -> bool
    decreases products.len() - position,
{
    if position < 0 || position >= products.len() {
        choices.len() == 0
    } else if produced(plan, products[position]) {
        completes(inv, products, position + 1, plan, choices)
    } else {
        &&& choices.len() > 0
        &&& allowed(inv, products, position, plan, choices[0])
        &&& completes(
            inv,
            products,
            position + 1,
            plan.push(
                candidate(inv, products[position], choices[0].0, choices[0].1, choices[0].2),
            ),
            choices.drop_first(),
        )
    }
}

/// Whether `choice` comes at or after the site `s`, its configuration `c` and
/// the operator `o` in the order in which the search goes through the
/// candidates.
pub open spec fn at_or_after(choice: (int, int, int), s: int, c: int, o: int) -> bool {
    choice.0 > s || (choice.0 == s && (choice.1 > c || (choice.1 == c && choice.2 >= o)))
}

/// Where the search finds a plan, choices exist that complete the
/// assignments.
pub proof fn lemma_search_found(
    inv: Inventory,
    products: Seq<Seq<char>>,
    position: int,
    plan: Seq<PlanetAssignmentView>,
    s: int,
    c: int,
    o: int,
) -> (choices: Seq<(int, int, int)>)
    requires
        search_from(inv, products, position, plan, s, c, o) is Some,
    ensures
        completes(inv, products, position, plan, choices),
    decreases products.len() - position, inv.sites.len() - s, options(inv, products, position, s).len()
        - c, inv.operators.len() - o,
{
    if position < 0 || position >= products.len() {
        Seq::empty()
    } else if produced(plan, products[position]) {
        lemma_search_found(inv, products, position + 1, plan, 0, 0, 0)
    } else if s < 0 || s >= inv.sites.len() {
        Seq::empty()
    } else if site_used(plan, inv.sites[s].id) || c < 0 || c >= options(
        inv,
        products,
        position,
        s,
    ).len() {
        lemma_search_found(inv, products, position, plan, s + 1, 0, 0)
    } else if o < 0 || o >= inv.operators.len() {
        lemma_search_found(inv, products, position, plan, s, c + 1, 0)
    } else {
        let config = options(inv, products, position, s)[c];
        let operator = inv.operators[o];
        let longer = plan.push(candidate(inv, products[position], s, c, o));
        if eligible(plan, products, config, operator) && search_from(
            inv,
            products,
            position + 1,
            longer,
            0,
            0,
            0,
        ) is Some {
            let later = lemma_search_found(inv, products, position + 1, longer, 0, 0, 0);
            let choices = seq![(s, c, o)] + later;
            assert(choices[0] == (s, c, o));
            assert(choices.drop_first() =~= later);
            choices
        } else {
            lemma_search_found(inv, products, position, plan, s, c, o + 1)
        }
    }
}

/// Choices that complete the assignments start with a candidate that is
/// allowed for the product at `position`, where that product is not made yet.
pub proof fn lemma_completes_first(
    inv: Inventory,
    products: Seq<Seq<char>>,
    position: int,
    plan: Seq<PlanetAssignmentView>,
    choices: Seq<(int, int, int)>,
)
    requires
        completes(inv, products, position, plan, choices),
        0 <= position < products.len(),
        !produced(plan, products[position]),
    ensures
        choices.len() > 0,
        allowed(inv, products, position, plan, choices[0]),
        at_or_after(choices[0], 0, 0, 0),
{
}

/// Where choices complete the assignments, and the first of them is still
/// to come, the search finds a plan.
pub proof fn lemma_search_exhaustive(
    inv: Inventory,
    products: Seq<Seq<char>>,
    position: int,
    plan: Seq<PlanetAssignmentView>,
    s: int,
    c: int,
    o: int,
    choices: Seq<(int, int, int)>,
)
    requires
        completes(inv, products, position, plan, choices),
        0 <= s,
        0 <= c,
        0 <= o,
        0 <= position < products.len() && !produced(plan, products[position]) ==> at_or_after(
            choices[0],
            s,
            c,
            o,
        ),
    ensures
        search_from(inv, products, position, plan, s, c, o) is Some,
    decreases products.len() - position, inv.sites.len() - s, options(inv, products, position, s).len()
        - c, inv.operators.len() - o,
{
    if position < 0 || position >= products.len() {
    } else if produced(plan, products[position]) {
        if position + 1 < products.len() && !produced(plan, products[position + 1]) {
            lemma_completes_first(inv, products, position + 1, plan, choices);
        }
        lemma_search_exhaustive(inv, products, position + 1, plan, 0, 0, 0, choices);
    } else if s >= inv.sites.len() {
    } else if site_used(plan, inv.sites[s].id) || c >= options(inv, products, position, s).len() {
        lemma_search_exhaustive(inv, products, position, plan, s + 1, 0, 0, choices);
    } else if o >= inv.operators.len() {
        lemma_search_exhaustive(inv, products, position, plan, s, c + 1, 0, choices);
    } else {
        if choices[0] == (s, c, o) {
            let longer = plan.push(candidate(inv, products[position], s, c, o));
            if position + 1 < products.len() && !produced(longer, products[position + 1]) {
                lemma_completes_first(inv, products, position + 1, longer, choices.drop_first());
            }
            lemma_search_exhaustive(
                inv,
                products,
                position + 1,
                longer,
                0,
                0,
                0,
                choices.drop_first(),
            );
        } else {
            lemma_search_exhaustive(inv, products, position, plan, s, c, o + 1, choices);
        }
    }
}

/// The search finds a plan exactly where allowed candidates exist for the
/// products that are still to be made: it fails only where every way of
/// choosing them fails.
pub proof fn lemma_search_complete(
    inv: Inventory,
    products: Seq<Seq<char>>,
    position: int,
    plan: Seq<PlanetAssignmentView>,
)
    ensures
        search(inv, products, position, plan) is Some <==> exists|choices: Seq<(int, int, int)>|
            completes(inv, products, position, plan, choices),
{
    if search(inv, products, position, plan) is Some {
        let choices = lemma_search_found(inv, products, position, plan, 0, 0, 0);
        assert(completes(inv, products, position, plan, choices));
    }
    if exists|choices: Seq<(int, int, int)>| completes(inv, products, position, plan, choices) {
        let choices = choose|choices: Seq<(int, int, int)>|
            completes(inv, products, position, plan, choices);
        lemma_search_exhaustive(inv, products, position, plan, 0, 0, 0, choices);
    }
}

/// When a solve returns a plan: the target is in the catalog, every product
/// it requires has a configuration on some kind of site, and allowed
/// candidates exist for the required products in their order.
pub proof fn lemma_solution_exists(inv: Inventory, target: Seq<char>)
    ensures
        solution(inv, target) is Ok <==> lookup(inv.catalog, target) is Some && match required_products(
            inv.catalog,
            target,
        ) {
            Ok(products) => exists|choices: Seq<(int, int, int)>|
                completes(inv, products, 0, Seq::empty(), choices),
            Err(_) => false,
        },
{
    match required_products(inv.catalog, target) {
        Ok(products) => {
            lemma_search_complete(inv, products, 0, Seq::empty());
        },
        Err(_) => {},
    }
}

/// An operator that an assignment names supervises at least one site.
pub proof fn lemma_load_positive(plan: Seq<PlanetAssignmentView>, i: int)
    requires
        0 <= i < plan.len(),
    ensures
        load(plan, plan[i].character) >= 1,
    decreases plan.len(),
{
    if i < plan.len() - 1 {
        assert(plan.drop_last()[i] == plan[i]);
        lemma_load_positive(plan.drop_last(), i);
    }
}

/// A solve returns a plan only where some site has a configuration for the
/// target and some operator may supervise a site.
pub proof fn lemma_solution_needs(inv: Inventory, target: Seq<char>)
    ensures
        solution(inv, target) is Ok ==> {
            &&& exists|s: int|
                0 <= s < inv.sites.len() && configurations(
                    inv.catalog,
                    (#[trigger] inv.sites[s]).planet_type,
                    target,
                ).len() > 0
            &&& exists|k: int|
                0 <= k < inv.operators.len() && (#[trigger] inv.operators[k]).planets > 0
        },
{
    lemma_solution_sound(inv, target);
    match solution(inv, target) {
        Ok(plan) => {
            let i = choose|i: int| 0 <= i < plan.len() && (#[trigger] plan[i]).output == target;
            assert(from_inventory(inv, plan[i]));
            let (s, c, o) = choose|s: int, c: int, o: int|
                is_candidate(inv, plan[i].output, s, c, o) && plan[i] == #[trigger] candidate(
                    inv,
                    plan[i].output,
                    s,
                    c,
                    o,
                );
            assert(configurations(inv.catalog, inv.sites[s].planet_type, target).len() > 0);
            lemma_load_positive(plan, i);
            assert(has_capacity(inv.operators, plan, plan[i].character));
            let k = choose|k: int|
                0 <= k < inv.operators.len() && (#[trigger] inv.operators[k]).name
                    == plan[i].character && load(plan, plan[i].character)
                    <= inv.operators[k].planets;
            assert(inv.operators[k].planets > 0);
        },
        Err(_) => {},
    }
}

} // verus!
