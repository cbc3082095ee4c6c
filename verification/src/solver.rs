//! The solver: it works out what a target requires and searches for sites
//! and operators to make it.

use crate::domain::{
    Character, FactoryConfiguration, Planet, PlanetAssignment, PlanetAssignmentView, PlanetType,
    ProductionPlan,
};
use crate::catalog::stocked;
use crate::factory::factory_planet;
use crate::strategy::configurations;
use crate::keyed::{
    Keyed, distinct_keys, lemma_first_where_is, lemma_first_where_none, lemma_position,
    lemma_position_is, lemma_upsert, lookup, position, upsert,
};
use crate::plan::{
    Inventory, SolverErrorView, assignment, eligible, first_configuration, inputs_available,
    lemma_solution_sound, lemma_solution_supplied, lemma_unseen_push, load, options, planet_types,
    produced, producible_on, required_from, search, search_from, site_used, solution, sound,
    supplied, unseen,
};
use crate::repository::{Repository, RepositoryError};
use crate::store::{Named, position_of};
use crate::text::{clone_strings, contains_str, starts_with, str_eq};
use vstd::prelude::*;
use vstd::string::StringExecFns;

verus! {

/// Why no plan was returned.
#[derive(Debug)]
pub enum SolverError {
    RepositoryError(RepositoryError),
    ProductNotFound(String),
    NoSolutionFound(String),
}

impl View for SolverError {
    type V = SolverErrorView;

    open spec fn view(&self) -> SolverErrorView {
        match self {
            SolverError::RepositoryError(err) => SolverErrorView::RepositoryError(err@),
            SolverError::ProductNotFound(name) => SolverErrorView::ProductNotFound(name@),
            SolverError::NoSolutionFound(msg) => SolverErrorView::NoSolutionFound(msg@),
        }
    }
}

impl From<RepositoryError> for SolverError {
    fn from(err: RepositoryError) -> (r: Self) {
        SolverError::RepositoryError(err)
    }
}

impl vstd::std_specs::convert::FromSpecImpl<RepositoryError> for SolverError {
    open spec fn obeys_from_spec() -> bool {
        true
    }

    open spec fn from_spec(err: RepositoryError) -> Self {
        SolverError::RepositoryError(err)
    }
}

/// What the repository `repository` gives a solve to work with.
pub open spec fn inventory_of<R: Repository>(repository: &R) -> Inventory {
    Inventory {
        catalog: repository.products(),
        sites: repository.planets(),
        operators: repository.characters(),
    }
}

/// The view of what a solve returned.
pub open spec fn solved(r: Result<ProductionPlan, SolverError>) -> Result<
    Seq<PlanetAssignmentView>,
    SolverErrorView,
> {
    match r {
        Ok(plan) => Ok(plan@),
        Err(e) => Err(e@),
    }
}

impl Keyed for (Seq<char>, Seq<Seq<char>>) {
    open spec fn key(self) -> Seq<char> {
        self.0
    }
}

impl Named for (String, Vec<String>) {
    fn name_str(&self) -> (r: &str) {
        self.0.as_str()
    }

    fn duplicate(&self) -> (r: Self) {
        (self.0.clone(), clone_strings(&self.1))
    }
}

/// The sites that the ledger holds for `operator`, in the order in which
/// they were entered; none where the operator has no entry.
spec fn held(ledger: Seq<(Seq<char>, Seq<Seq<char>>)>, operator: Seq<char>) -> Seq<Seq<char>> {
    match lookup(ledger, operator) {
        Some(entry) => entry.1,
        None => Seq::empty(),
    }
}

/// No entry of the ledger is without a site.
spec fn no_empty_entry(ledger: Seq<(Seq<char>, Seq<Seq<char>>)>) -> bool {
    forall|i: int| 0 <= i < ledger.len() ==> (#[trigger] ledger[i]).1.len() > 0
}

/// The ledger after `site` was entered under `operator`: the site comes last
/// among the sites of the operator, whose entry comes last if it is new.
spec fn recorded(
    ledger: Seq<(Seq<char>, Seq<Seq<char>>)>,
    operator: Seq<char>,
    site: Seq<char>,
) -> Seq<(Seq<char>, Seq<Seq<char>>)> {
    upsert(ledger, (operator, held(ledger, operator).push(site)))
}

/// The ledger after the site entered last under `operator` was taken out:
/// the entry of the operator loses its last site, and goes with it if it was
/// the only one.
spec fn released(ledger: Seq<(Seq<char>, Seq<Seq<char>>)>, operator: Seq<char>) -> Seq<
    (Seq<char>, Seq<Seq<char>>),
> {
    match position(ledger, operator) {
        None => ledger,
        Some(k) => if ledger[k].1.len() <= 1 {
            ledger.remove(k)
        } else {
            ledger.update(k, (operator, ledger[k].1.drop_last()))
        },
    }
}

/// The sites of the assignments of `plan`, in their order.
spec fn sites_of(plan: Seq<PlanetAssignmentView>) -> Seq<Seq<char>> {
    Seq::new(plan.len(), |i: int| plan[i].planet)
}

/// The sites of the assignments of `plan` that name `operator`, in their order.
spec fn sites_under(plan: Seq<PlanetAssignmentView>, operator: Seq<char>) -> Seq<Seq<char>>
    decreases plan.len(),
{
    if plan.len() == 0 {
        Seq::empty()
    } else if plan.last().character == operator {
        sites_under(plan.drop_last(), operator).push(plan.last().planet)
    } else {
        sites_under(plan.drop_last(), operator)
    }
}

/// The state of a search goes with the assignments made: the used sites are
/// the sites of the assignments; the ledger has one entry for each operator
/// that an assignment names and no other; and the entry of an operator holds
/// the sites of the assignments that name it, in their order.
#[verifier::opaque]
spec fn state_agrees(
    plan: Seq<PlanetAssignmentView>,
    used: Seq<Seq<char>>,
    ledger: Seq<(Seq<char>, Seq<Seq<char>>)>,
) -> bool {
    &&& used == sites_of(plan)
    &&& distinct_keys(ledger)
    &&& no_empty_entry(ledger)
    &&& forall|operator: Seq<char>| #[trigger] held(ledger, operator) == sites_under(plan, operator)
}

/// As many sites go under an operator as assignments name it.
proof fn lemma_sites_under_len(plan: Seq<PlanetAssignmentView>, operator: Seq<char>)
    ensures
        sites_under(plan, operator).len() == load(plan, operator),
    decreases plan.len(),
{
    if plan.len() > 0 {
        lemma_sites_under_len(plan.drop_last(), operator);
    }
}

/// A state that goes with the assignments has no entry without a site, and
/// holds for each operator as many sites as assignments name it.
proof fn lemma_state(
    plan: Seq<PlanetAssignmentView>,
    used: Seq<Seq<char>>,
    ledger: Seq<(Seq<char>, Seq<Seq<char>>)>,
    operator: Seq<char>,
)
    requires
        state_agrees(plan, used, ledger),
    ensures
        no_empty_entry(ledger),
        held(ledger, operator) == sites_under(plan, operator),
        held(ledger, operator).len() == load(plan, operator),
{
    reveal(state_agrees);
    lemma_sites_under_len(plan, operator);
}

/// Entering a site leaves no entry without a site.
proof fn lemma_recorded_tidy(
    ledger: Seq<(Seq<char>, Seq<Seq<char>>)>,
    operator: Seq<char>,
    site: Seq<char>,
)
    requires
        no_empty_entry(ledger),
    ensures
        no_empty_entry(recorded(ledger, operator, site)),
{
    lemma_position(ledger, operator);
}

/// Taking out the site that was entered last gives the ledger back as it was.
proof fn lemma_released_recorded(
    ledger: Seq<(Seq<char>, Seq<Seq<char>>)>,
    operator: Seq<char>,
    site: Seq<char>,
)
    requires
        no_empty_entry(ledger),
    ensures
        released(recorded(ledger, operator, site), operator) == ledger,
{
    let entered = recorded(ledger, operator, site);
    lemma_position(ledger, operator);
    match position(ledger, operator) {
        Some(k) => {
            let sites = ledger[k].1;
            assert(entered[k].1 == sites.push(site));
            assert forall|j: int| 0 <= j < k implies (#[trigger] entered[j]).key() != operator by {
                assert(entered[j] == ledger[j]);
            }
            lemma_position_is(entered, operator, k);
            assert(sites.push(site).drop_last() =~= sites);
            assert(ledger[k] == (operator, sites));
            assert(entered.update(k, (operator, sites)) =~= ledger);
        },
        None => {
            let k = ledger.len() as int;
            assert(entered[k] == (operator, Seq::<Seq<char>>::empty().push(site)));
            assert forall|j: int| 0 <= j < k implies (#[trigger] entered[j]).key() != operator by {
                assert(entered[j] == ledger[j]);
            }
            lemma_position_is(entered, operator, k);
            assert(entered.remove(k) =~= ledger);
        },
    }
}

/// What one more assignment adds to the sites under an operator.
proof fn lemma_sites_under_push(
    plan: Seq<PlanetAssignmentView>,
    a: PlanetAssignmentView,
    operator: Seq<char>,
)
    ensures
        sites_under(plan.push(a), operator) == if a.character == operator {
            sites_under(plan, operator).push(a.planet)
        } else {
            sites_under(plan, operator)
        },
{
    assert(plan.push(a).drop_last() =~= plan);
}

/// A state that goes with the assignments goes with one more assignment once
/// its site is used and entered under its operator.
proof fn lemma_state_push(
    plan: Seq<PlanetAssignmentView>,
    used: Seq<Seq<char>>,
    ledger: Seq<(Seq<char>, Seq<Seq<char>>)>,
    a: PlanetAssignmentView,
)
    requires
        state_agrees(plan, used, ledger),
    ensures
        state_agrees(plan.push(a), used.push(a.planet), recorded(ledger, a.character, a.planet)),
{
    reveal(state_agrees);
    let longer = plan.push(a);
    let entry = (a.character, held(ledger, a.character).push(a.planet));
    let entered = recorded(ledger, a.character, a.planet);
    assert(used.push(a.planet) =~= sites_of(longer));
    lemma_upsert(ledger, entry);
    lemma_recorded_tidy(ledger, a.character, a.planet);
    assert forall|operator: Seq<char>| #[trigger]
        held(entered, operator) == sites_under(longer, operator) by {
        lemma_sites_under_push(plan, a, operator);
        assert(held(ledger, operator) == sites_under(plan, operator));
        assert(lookup(entered, operator) == if operator == entry.key() {
            Some(entry)
        } else {
            lookup(ledger, operator)
        });
    }
}

/// A site is used by the assignments exactly where it is among the used
/// sites of a state that goes with them.
proof fn lemma_site_used(
    plan: Seq<PlanetAssignmentView>,
    used: Seq<Seq<char>>,
    ledger: Seq<(Seq<char>, Seq<Seq<char>>)>,
    id: Seq<char>,
)
    requires
        state_agrees(plan, used, ledger),
    ensures
        site_used(plan, id) == used.contains(id),
{
    reveal(state_agrees);
    if site_used(plan, id) {
        let i = choose|i: int| 0 <= i < plan.len() && (#[trigger] plan[i]).planet == id;
        assert(sites_of(plan)[i] == id);
    }
    if sites_of(plan).contains(id) {
        let i = choose|i: int| 0 <= i < sites_of(plan).len() && sites_of(plan)[i] == id;
        assert(plan[i].planet == id);
    }
}

/// The number of sites that the ledger holds for `operator`.
fn supervised(ledger: &Vec<(String, Vec<String>)>, operator: &str) -> (r: usize)
    ensures
        r == held(ledger.deep_view(), operator@).len(),
{
    match position_of(ledger, operator) {
        Some(k) => {
            assert(ledger.deep_view()[k as int].1.len() == ledger[k as int].1.len());
            ledger[k].1.len()
        },
        None => 0,
    }
}

/// Enters `site` in the ledger under `operator`, after the sites that the
/// operator holds already.
fn record(ledger: &mut Vec<(String, Vec<String>)>, operator: &str, site: &str)
    ensures
        final(ledger).deep_view() == recorded(old(ledger).deep_view(), operator@, site@),
{
    let ghost before = ledger.deep_view();
    let mut sites: Vec<String> = match position_of(ledger, operator) {
        Some(k) => clone_strings(&ledger[k].1),
        None => Vec::new(),
    };
    let ghost had = sites.deep_view();
    assert(had =~= held(before, operator@));
    sites.push(site.to_string());
    assert(sites.deep_view() =~= had.push(site@));
    let entry = (operator.to_string(), sites);
    crate::store::store(ledger, entry);
}

/// Takes the site entered last under `operator` out of the ledger, and the
/// entry of the operator with it where it holds no other site.
fn release(ledger: &mut Vec<(String, Vec<String>)>, operator: &str)
    ensures
        final(ledger).deep_view() == released(old(ledger).deep_view(), operator@),
{
    let ghost before = ledger.deep_view();
    match position_of(ledger, operator) {
        Some(k) => {
            let mut sites = clone_strings(&ledger[k].1);
            let ghost had = sites.deep_view();
            assert(had == before[k as int].1);
            sites.pop();
            if sites.len() == 0 {
                ledger.remove(k);
                assert(ledger.deep_view() =~= before.remove(k as int));
            } else {
                assert(sites.deep_view() =~= had.drop_last());
                let entry = (operator.to_string(), sites);
                crate::store::store(ledger, entry);
            }
        },
        None => {},
    }
}

/// Whether some assignment makes `product`.
fn is_produced(assignments: &Vec<PlanetAssignment>, product: &str) -> (r: bool)
    ensures
        r == produced(assignments.deep_view(), product@),
{
    let mut i: usize = 0;
    while i < assignments.len()
        invariant
            i <= assignments.len(),
            forall|j: int| 0 <= j < i ==> (#[trigger] assignments.deep_view()[j]).output != product@,
        decreases assignments.len() - i,
    {
        if str_eq(assignments[i].output.as_str(), product) {
            assert(assignments.deep_view()[i as int].output == product@);
            return true;
        }
        i += 1;
    }
    false
}

/// Whether each of `imports` is made by an assignment or is one of `products`.
fn inputs_ready(
    assignments: &Vec<PlanetAssignment>,
    products: &Vec<String>,
    imports: &Vec<String>,
) -> (r: bool)
    ensures
        r == inputs_available(
            assignments.deep_view(),
            products.deep_view(),
            imports.deep_view(),
        ),
{
    let mut k: usize = 0;
    while k < imports.len()
        invariant
            k <= imports.len(),
            forall|j: int|
                0 <= j < k ==> produced(
                    assignments.deep_view(),
                    #[trigger] imports.deep_view()[j],
                ) || products.deep_view().contains(imports.deep_view()[j]),
        decreases imports.len() - k,
    {
        let imported_input = imports[k].as_str();
        assert(imports.deep_view()[k as int] == imported_input@);
        if !is_produced(assignments, imported_input) && !contains_str(products, imported_input) {
            return false;
        }
        k += 1;
    }
    true
}

/// The kinds of site, in the order in which they are tried.
fn all_planet_types() -> (r: Vec<PlanetType>)
    ensures
        r@ == planet_types(),
{
    let mut r: Vec<PlanetType> = Vec::new();
    r.push(PlanetType::Barren);
    r.push(PlanetType::Gas);
    r.push(PlanetType::Ice);
    r.push(PlanetType::Lava);
    r.push(PlanetType::Oceanic);
    r.push(PlanetType::Plasma);
    r.push(PlanetType::Storm);
    r.push(PlanetType::Temperate);
    assert(r@ =~= planet_types());
    r
}

/// The solver, which reads what it works with from a repository.
pub struct Solver<'a, R: Repository> {
    repository: &'a R,
}

impl<'a, R: Repository> Solver<'a, R> {
    /// What the solver works with.
    pub closed spec fn inventory(&self) -> Inventory {
        inventory_of(self.repository)
    }

    /// A solver on `repository`.
    pub fn new(repository: &'a R) -> (s: Self)
        ensures
            s.inventory() == inventory_of(repository),
    {
        Self { repository }
    }

    /// The first configuration for `product_name` on the first kind of site
    /// that has one.
    fn first_configuration(&self, product_name: &str) -> (r: Option<FactoryConfiguration>)
        ensures
            r.deep_view() == first_configuration(self.inventory().catalog, product_name@),
    {
        let ghost catalog = self.inventory().catalog;
        let ghost test = producible_on(catalog, product_name@);
        let kinds = all_planet_types();
        let mut i: usize = 0;
        while i < kinds.len()
            invariant
                i <= kinds.len(),
                kinds@ == planet_types(),
                catalog == self.inventory().catalog,
                test == producible_on(catalog, product_name@),
                forall|j: int| 0 <= j < i ==> !test(#[trigger] planet_types()[j]),
            decreases kinds.len() - i,
        {
            let configs = factory_planet(self.repository, kinds[i], product_name);
            if configs.len() != 0 {
                proof {
                    lemma_first_where_is(planet_types(), test, i as int);
                }
                return Some(configs[0].clone());
            }
            i += 1;
        }
        proof {
            lemma_first_where_none(planet_types(), test);
        }
        None
    }

    /// Adds `product_name` and everything it requires to the products to
    /// produce: the product itself unless it is there already, then what its
    /// first configuration imports. Whatever the outcome, the products that
    /// were there stay where they were.
    fn collect_required_products(
        &self,
        product_name: &str,
        products_to_produce: &mut Vec<String>,
    ) -> (r: Result<(), SolverError>)
        ensures
            forall|rest: Seq<Seq<char>>| #[trigger]
                required_from(
                    self.inventory().catalog,
                    seq![product_name@] + rest,
                    old(products_to_produce).deep_view(),
                ) == match r {
                    Ok(_) => required_from(
                        self.inventory().catalog,
                        rest,
                        final(products_to_produce).deep_view(),
                    ),
                    Err(e) => Err(e@),
                },
            unseen(self.inventory().catalog, final(products_to_produce).deep_view()) <= unseen(
                self.inventory().catalog,
                old(products_to_produce).deep_view(),
            ),
            starts_with(
                final(products_to_produce).deep_view(),
                old(products_to_produce).deep_view(),
            ),
        decreases unseen(self.inventory().catalog, old(products_to_produce).deep_view()),
    {
        let ghost catalog = self.inventory().catalog;
        let ghost seen = products_to_produce.deep_view();
        let ghost name = product_name@;
        assert forall|rest: Seq<Seq<char>>|
            (#[trigger] (seq![name] + rest))[0] == name && (seq![name] + rest).drop_first()
                == rest by {
            assert((seq![name] + rest).drop_first() =~= rest);
        }
        if contains_str(products_to_produce, product_name) {
            return Ok(());
        }
        products_to_produce.push(product_name.to_string());
        let ghost seen1 = seen.push(name);
        assert(products_to_produce.deep_view() =~= seen1);
        proof {
            lemma_unseen_push(catalog, seen, name);
        }
        match self.repository.get_product_by_name(product_name) {
            None => {
                return Err(SolverError::ProductNotFound(product_name.to_string()));
            },
            Some(_) => {},
        }
        let config = match self.first_configuration(product_name) {
            Some(c) => c,
            None => {
                let message = "No factory configuration found for product: ".to_string();
                return Err(SolverError::NoSolutionFound(message.concat(product_name)));
            },
        };
        let ghost imports = config@.imported_inputs;
        let mut i: usize = 0;
        assert(imports.skip(0) =~= imports);
        while i < config.imported_inputs.len()
            invariant
                i <= config.imported_inputs.len(),
                catalog == self.inventory().catalog,
                imports == config@.imported_inputs,
                unseen(catalog, products_to_produce.deep_view()) <= unseen(catalog, seen1),
                unseen(catalog, seen1) < unseen(catalog, seen),
                starts_with(products_to_produce.deep_view(), seen),
                seen == old(products_to_produce).deep_view(),
                name == product_name@,
                forall|rest: Seq<Seq<char>>| #[trigger]
                    required_from(catalog, imports + rest, seen1) == required_from(
                        catalog,
                        imports.skip(i as int) + rest,
                        products_to_produce.deep_view(),
                    ),
                forall|rest: Seq<Seq<char>>| #[trigger]
                    required_from(catalog, seq![name] + rest, seen) == required_from(
                        catalog,
                        imports + rest,
                        seen1,
                    ),
            decreases config.imported_inputs.len() - i,
        {
            let ghost current = products_to_produce.deep_view();
            let imported_input = config.imported_inputs[i].as_str();
            let step = self.collect_required_products(imported_input, products_to_produce);
            proof {
                assert forall|rest: Seq<Seq<char>>| #[trigger]
                    required_from(catalog, imports + rest, seen1) == match step {
                        Ok(_) => required_from(
                            catalog,
                            imports.skip(i + 1) + rest,
                            products_to_produce.deep_view(),
                        ),
                        Err(e) => Err(e@),
                    } by {
                    let later = imports.skip(i + 1) + rest;
                    assert(imports.skip(i as int) + rest =~= seq![imported_input@] + later);
                    assert(required_from(catalog, seq![imported_input@] + later, current)
                        == match step {
                        Ok(_) => required_from(catalog, later, products_to_produce.deep_view()),
                        Err(e) => Err(e@),
                    });
                }
            }
            match step {
                Ok(_) => {},
                Err(e) => {
                    return Err(e);
                },
            }
            i += 1;
        }
        proof {
            assert forall|rest: Seq<Seq<char>>| #[trigger]
                required_from(catalog, seq![name] + rest, seen) == required_from(
                    catalog,
                    rest,
                    products_to_produce.deep_view(),
                ) by {
                assert(imports.skip(imports.len() as int) + rest =~= rest);
                assert(required_from(catalog, imports + rest, seen1) == required_from(
                    catalog,
                    rest,
                    products_to_produce.deep_view(),
                ));
            }
        }
        Ok(())
    }

    /// Tries one candidate for the product at `product_index`: where the
    /// operator has a site to spare and the imports of the configuration are
    /// made or still to be made, the assignment is added and the remaining
    /// products are searched for; where that fails the assignment is undone,
    /// so that the assignments, the used sites and the ledger are as they
    /// were.
    fn try_assignment(
        &self,
        products: &Vec<String>,
        product_index: usize,
        planet: &Planet,
        config: &FactoryConfiguration,
        character: &Character,
        assignments: &mut Vec<PlanetAssignment>,
        assigned_planets: &mut Vec<String>,
        character_assignments: &mut Vec<(String, Vec<String>)>,
    ) -> (found: bool)
        requires
            product_index < products.len(),
        ensures
            state_agrees(
                old(assignments).deep_view(),
                old(assigned_planets).deep_view(),
                old(character_assignments).deep_view(),
            ) ==> ({
                let plan = old(assignments).deep_view();
                let attempt = if eligible(plan, products.deep_view(), config@, character@) {
                    search(
                        self.inventory(),
                        products.deep_view(),
                        product_index + 1,
                        plan.push(
                            assignment(
                                planet@,
                                config@,
                                character@,
                                products.deep_view()[product_index as int],
                            ),
                        ),
                    )
                } else {
                    None
                };
                &&& found == attempt is Some
                &&& found ==> attempt == Some(final(assignments).deep_view())
                &&& state_agrees(
                    final(assignments).deep_view(),
                    final(assigned_planets).deep_view(),
                    final(character_assignments).deep_view(),
                )
            }),
            no_empty_entry(old(character_assignments).deep_view()) && !found ==> {
                &&& final(assignments).deep_view() == old(assignments).deep_view()
                &&& final(assigned_planets).deep_view() == old(assigned_planets).deep_view()
                &&& final(character_assignments).deep_view() == old(
                    character_assignments,
                ).deep_view()
            },
        decreases products.len() - product_index, 0int,
    {
        let ghost plan = assignments.deep_view();
        let ghost used = assigned_planets.deep_view();
        let ghost ledger = character_assignments.deep_view();
        let operator = character.name.as_str();
        proof {
            if state_agrees(plan, used, ledger) {
                lemma_state(plan, used, ledger, operator@);
            }
        }
        if supervised(character_assignments, operator) >= character.planets {
            return false;
        }
        if !inputs_ready(assignments, products, &config.imported_inputs) {
            return false;
        }
        let made = PlanetAssignment {
            character: character.name.clone(),
            planet: planet.id.clone(),
            planet_type: planet.planet_type,
            imported_inputs: clone_strings(&config.imported_inputs),
            mined_inputs: clone_strings(&config.mined_inputs),
            output: products[product_index].clone(),
        };
        let ghost added = made@;
        let ghost longer = plan.push(added);
        assert(added == assignment(
            planet@,
            config@,
            character@,
            products.deep_view()[product_index as int],
        ));
        assignments.push(made);
        assert(assignments.deep_view() =~= longer);
        assigned_planets.push(planet.id.clone());
        assert(assigned_planets.deep_view() =~= used.push(planet@.id));
        record(character_assignments, operator, planet.id.as_str());
        proof {
            if no_empty_entry(ledger) {
                lemma_recorded_tidy(ledger, operator@, planet@.id);
            }
            if state_agrees(plan, used, ledger) {
                lemma_state_push(plan, used, ledger, added);
            }
        }
        if self.solve_recursive(
            products,
            product_index + 1,
            assignments,
            assigned_planets,
            character_assignments,
        ) {
            return true;
        }
        let ghost left = assignments.deep_view();
        let ghost left_used = assigned_planets.deep_view();
        assignments.pop();
        assigned_planets.pop();
        release(character_assignments, operator);
        proof {
            if no_empty_entry(ledger) {
                assert(left == longer);
                assert(assignments.deep_view() =~= longer.drop_last());
                assert(longer.drop_last() =~= plan);
                assert(left_used == used.push(planet@.id));
                assert(assigned_planets.deep_view() =~= used.push(planet@.id).drop_last());
                assert(used.push(planet@.id).drop_last() =~= used);
                lemma_released_recorded(ledger, operator@, planet@.id);
            }
        }
        false
    }

    /// Assigns the products from `product_index` on, depth first: the sites in
    /// their order, for each free site its configurations, for each
    /// configuration the operators. On success the assignments hold the
    /// plan, and the used sites and the ledger go with it. On failure the
    /// assignments, the used sites and the ledger are as they were. Where no
    /// product is left nothing is touched.
    fn solve_recursive(
        &self,
        products: &Vec<String>,
        product_index: usize,
        assignments: &mut Vec<PlanetAssignment>,
        assigned_planets: &mut Vec<String>,
        character_assignments: &mut Vec<(String, Vec<String>)>,
    ) -> (found: bool)
        ensures
            state_agrees(
                old(assignments).deep_view(),
                old(assigned_planets).deep_view(),
                old(character_assignments).deep_view(),
            ) ==> ({
                let result = search(
                    self.inventory(),
                    products.deep_view(),
                    product_index as int,
                    old(assignments).deep_view(),
                );
                &&& found == result is Some
                &&& found ==> result == Some(final(assignments).deep_view())
                &&& state_agrees(
                    final(assignments).deep_view(),
                    final(assigned_planets).deep_view(),
                    final(character_assignments).deep_view(),
                )
            }),
            product_index >= products.len() ==> found,
            product_index >= products.len() || (no_empty_entry(
                old(character_assignments).deep_view(),
            ) && !found) ==> {
                &&& final(assignments).deep_view() == old(assignments).deep_view()
                &&& final(assigned_planets).deep_view() == old(assigned_planets).deep_view()
                &&& final(character_assignments).deep_view() == old(
                    character_assignments,
                ).deep_view()
            },
        decreases products.len() - product_index, 1int,
    {
        if product_index >= products.len() {
            return true;
        }
        let ghost inv = self.inventory();
        let ghost wanted = products.deep_view();
        let ghost position = product_index as int;
        let ghost plan = assignments.deep_view();
        let ghost used = assigned_planets.deep_view();
        let ghost ledger = character_assignments.deep_view();
        let current_product = products[product_index].as_str();
        assert(wanted[position] == current_product@);
        if is_produced(assignments, current_product) {
            return self.solve_recursive(
                products,
                product_index + 1,
                assignments,
                assigned_planets,
                character_assignments,
            );
        }
        proof {
            if state_agrees(plan, used, ledger) {
                lemma_state(plan, used, ledger, Seq::empty());
            }
        }
        let planets = self.repository.get_all_planets();
        let characters = self.repository.get_all_characters();
        let mut s: usize = 0;
        while s < planets.len()
            invariant
                s <= planets.len(),
                inv == self.inventory(),
                plan == old(assignments).deep_view(),
                used == old(assigned_planets).deep_view(),
                ledger == old(character_assignments).deep_view(),
                wanted == products.deep_view(),
                position == product_index as int,
                product_index < products.len(),
                current_product@ == wanted[position],
                !produced(plan, wanted[position]),
                planets.deep_view() == inv.sites,
                characters.deep_view() == inv.operators,
                state_agrees(plan, used, ledger) ==> no_empty_entry(ledger),
                no_empty_entry(ledger) ==> {
                    &&& assignments.deep_view() == plan
                    &&& assigned_planets.deep_view() == used
                    &&& character_assignments.deep_view() == ledger
                },
                state_agrees(plan, used, ledger) ==> search(inv, wanted, position, plan)
                    == search_from(inv, wanted, position, plan, s as int, 0, 0),
            decreases planets.len() - s,
        {
            let planet = &planets[s];
            assert(planet@ == inv.sites[s as int]);
            proof {
                if state_agrees(plan, used, ledger) {
                    lemma_site_used(plan, used, ledger, planet@.id);
                }
            }
            if !contains_str(assigned_planets, planet.id.as_str()) {
                let configs = factory_planet(self.repository, planet.planet_type, current_product);
                assert(configs.deep_view() == options(inv, wanted, position, s as int));
                let mut c: usize = 0;
                while c < configs.len()
                    invariant
                        c <= configs.len(),
                        s < planets.len(),
                        planet@ == inv.sites[s as int],
                        state_agrees(plan, used, ledger) ==> !site_used(plan, planet@.id),
                        configs.deep_view() == options(inv, wanted, position, s as int),
                        inv == self.inventory(),
                        plan == old(assignments).deep_view(),
                        used == old(assigned_planets).deep_view(),
                        ledger == old(character_assignments).deep_view(),
                        wanted == products.deep_view(),
                        position == product_index as int,
                        product_index < products.len(),
                        current_product@ == wanted[position],
                        !produced(plan, wanted[position]),
                        planets.deep_view() == inv.sites,
                        characters.deep_view() == inv.operators,
                        state_agrees(plan, used, ledger) ==> no_empty_entry(ledger),
                        no_empty_entry(ledger) ==> {
                            &&& assignments.deep_view() == plan
                            &&& assigned_planets.deep_view() == used
                            &&& character_assignments.deep_view() == ledger
                        },
                        state_agrees(plan, used, ledger) ==> search(inv, wanted, position, plan)
                            == search_from(inv, wanted, position, plan, s as int, c as int, 0),
                    decreases configs.len() - c,
                {
                    let config = &configs[c];
                    assert(config@ == options(inv, wanted, position, s as int)[c as int]);
                    let mut o: usize = 0;
                    while o < characters.len()
                        invariant
                            o <= characters.len(),
                            s < planets.len(),
                            c < configs.len(),
                            planet@ == inv.sites[s as int],
                            state_agrees(plan, used, ledger) ==> !site_used(plan, planet@.id),
                            configs.deep_view() == options(inv, wanted, position, s as int),
                            config@ == options(inv, wanted, position, s as int)[c as int],
                            inv == self.inventory(),
                            plan == old(assignments).deep_view(),
                            used == old(assigned_planets).deep_view(),
                            ledger == old(character_assignments).deep_view(),
                            wanted == products.deep_view(),
                            position == product_index as int,
                            product_index < products.len(),
                            current_product@ == wanted[position],
                            !produced(plan, wanted[position]),
                            planets.deep_view() == inv.sites,
                            characters.deep_view() == inv.operators,
                            state_agrees(plan, used, ledger) ==> no_empty_entry(ledger),
                            no_empty_entry(ledger) ==> {
                                &&& assignments.deep_view() == plan
                                &&& assigned_planets.deep_view() == used
                                &&& character_assignments.deep_view() == ledger
                            },
                            state_agrees(plan, used, ledger) ==> search(
                                inv,
                                wanted,
                                position,
                                plan,
                            ) == search_from(
                                inv,
                                wanted,
                                position,
                                plan,
                                s as int,
                                c as int,
                                o as int,
                            ),
                        decreases characters.len() - o,
                    {
                        let character = &characters[o];
                        assert(character@ == inv.operators[o as int]);
                        if self.try_assignment(
                            products,
                            product_index,
                            planet,
                            config,
                            character,
                            assignments,
                            assigned_planets,
                            character_assignments,
                        ) {
                            return true;
                        }
                        o += 1;
                    }
                    c += 1;
                }
            }
            s += 1;
        }
        false
    }

    /// A plan that makes `target_product` and everything it requires, each
    /// product on a site of its own under an operator with a site to spare.
    /// The result depends on the catalog, the sites and the operators alone:
    /// the same inputs give the same plan or the same error.
    pub fn solve(&self, target_product: &str) -> (r: Result<ProductionPlan, SolverError>)
        ensures
            solved(r) == solution(self.inventory(), target_product@),
            r matches Ok(plan) ==> sound(self.inventory(), target_product@, plan@),
            r matches Ok(plan) ==> stocked(self.inventory().catalog) ==> supplied(plan@),
    {
        proof {
            lemma_solution_sound(self.inventory(), target_product@);
            if stocked(self.inventory().catalog) {
                lemma_solution_supplied(self.inventory(), target_product@);
            }
        }
        match self.repository.get_product_by_name(target_product) {
            None => {
                return Err(SolverError::ProductNotFound(target_product.to_string()));
            },
            Some(_) => {},
        }
        let mut assignments: Vec<PlanetAssignment> = Vec::new();
        let mut assigned_planets: Vec<String> = Vec::new();
        let mut character_assignments: Vec<(String, Vec<String>)> = Vec::new();
        let mut products_to_produce: Vec<String> = Vec::new();
        assert(products_to_produce.deep_view() =~= Seq::empty());
        assert(seq![target_product@] + Seq::empty() =~= seq![target_product@]);
        match self.collect_required_products(target_product, &mut products_to_produce) {
            Ok(_) => {},
            Err(e) => {
                return Err(e);
            },
        }
        assert(assignments.deep_view() =~= Seq::empty());
        assert(assigned_planets.deep_view() =~= sites_of(Seq::empty()));
        assert(character_assignments.deep_view() =~= Seq::empty());
        proof {
            reveal(state_agrees);
        }
        if self.solve_recursive(
            &products_to_produce,
            0,
            &mut assignments,
            &mut assigned_planets,
            &mut character_assignments,
        ) {
            Ok(ProductionPlan { assignments })
        } else {
            let message = "Could not find a complete solution for ".to_string();
            Err(SolverError::NoSolutionFound(message.concat(target_product)))
        }
    }
}

} // verus!
