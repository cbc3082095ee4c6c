//! The ways of making a product on a site of a given kind.
//!
//! Five strategies exist. Each is tried on its own and either yields a
//! configuration or says why it does not apply.

use crate::catalog::{
    mining_required, planet_resource_map, requires_p4_mined, resource_table, supplies,
};
use crate::domain::{FactoryConfiguration, PlanetType, Product, ProductTier};
use crate::keyed::{first_where, lemma_first_where_is, lemma_first_where_none, lookup};
use crate::repository::{ProductRepository, Repository};
use crate::store::position_of;
use crate::strategy::{
    Outcome, accepted, all_ingredients, below_p4_check, below_p4_error, collected_inputs,
    configurations, extraction_check, extraction_configurations, first_error, import_check,
    import_configurations, ingredients_of, lemma_first_error_at, lemma_first_error_none,
    lemma_site_error, made_from_raw_test, mining_check, p0_to_p1, p0_to_p2, p1_to_p2,
    p2_to_p4_with_mining, p2_to_p4_without_mining, paired, raw_test, site_error, site_supplies,
    tier_check, tier_error, with_parts,
};
use crate::text::{
    append_strings, as_strs, insert_all, insert_str, missing_strs, remove_str, single, str_eq,
    to_strings, with_members,
};
use vstd::prelude::*;
use vstd::string::StringExecFns;

verus! {

/// Why a strategy does not apply.
#[derive(Debug)]
pub enum FactoryError {
    ProductNotFound(String),
    InvalidProductTier { product: String, expected: ProductTier, actual: ProductTier },
    MissingIngredients { product: String, missing: Vec<String> },
    RequiresMining(String),
    DoesNotRequireMining(String),
    NoMinableResource,
    InputOutputMismatch,
    PlanetCannotMine { planet_type: PlanetType, resource: String },
}

/// A `FactoryError` as the contracts see it.
pub enum FactoryErrorView {
    ProductNotFound(Seq<char>),
    InvalidProductTier { product: Seq<char>, expected: ProductTier, actual: ProductTier },
    MissingIngredients { product: Seq<char>, missing: Seq<Seq<char>> },
    RequiresMining(Seq<char>),
    DoesNotRequireMining(Seq<char>),
    NoMinableResource,
    InputOutputMismatch,
    PlanetCannotMine { planet_type: PlanetType, resource: Seq<char> },
}

impl View for FactoryError {
    type V = FactoryErrorView;

    open spec fn view(&self) -> FactoryErrorView {
        match self {
            FactoryError::ProductNotFound(product) => FactoryErrorView::ProductNotFound(product@),
            FactoryError::InvalidProductTier { product, expected, actual } => {
                FactoryErrorView::InvalidProductTier {
                    product: product@,
                    expected: *expected,
                    actual: *actual,
                }
            },
            FactoryError::MissingIngredients { product, missing } => {
                FactoryErrorView::MissingIngredients {
                    product: product@,
                    missing: missing.deep_view(),
                }
            },
            FactoryError::RequiresMining(product) => FactoryErrorView::RequiresMining(product@),
            FactoryError::DoesNotRequireMining(product) => {
                FactoryErrorView::DoesNotRequireMining(product@)
            },
            FactoryError::NoMinableResource => FactoryErrorView::NoMinableResource,
            FactoryError::InputOutputMismatch => FactoryErrorView::InputOutputMismatch,
            FactoryError::PlanetCannotMine { planet_type, resource } => {
                FactoryErrorView::PlanetCannotMine {
                    planet_type: *planet_type,
                    resource: resource@,
                }
            },
        }
    }
}

/// The text that `{:?}` gives for a list of strings.
pub uninterp spec fn debug_list(items: Seq<Seq<char>>) -> Seq<char>;

/// Formats a list of strings with `format!` under `{:?}`, which is the
/// `Debug` impl of `Vec<String>` in std. Nothing is proved of the text: the
/// contract only gives it a name, as a function of the strings.
#[verifier::external_body]
fn format_list(items: &Vec<String>) -> (r: String)
    ensures
        r@ == debug_list(items.deep_view()),
{
    format!("{:?}", items)
}

/// What is said of the product `product` where the ingredients listed in
/// `list` are missing.
pub open spec fn missing_ingredients(product: Seq<char>, list: Seq<char>) -> Seq<char> {
    "Product "@ + product + " is missing ingredients: "@ + list
}

/// What is said of the product `product` where the ingredients listed in
/// `list` are missing.
pub fn missing_ingredients_message(product: &str, list: &str) -> (r: String)
    ensures
        r@ == missing_ingredients(product@, list@),
{
    "Product ".to_string().concat(product).concat(" is missing ingredients: ").concat(list)
}

impl FactoryErrorView {
    /// The error in words.
    pub open spec fn message(self) -> Seq<char> {
        match self {
            FactoryErrorView::ProductNotFound(product) => "Product not found: "@ + product,
            FactoryErrorView::InvalidProductTier { product, expected, actual } => "Product "@
                + product + " has incorrect tier: expected "@ + expected.name() + ", got "@
                + actual.name(),
            FactoryErrorView::MissingIngredients { product, missing } => missing_ingredients(
                product,
                debug_list(missing),
            ),
            FactoryErrorView::RequiresMining(product) => "Product "@ + product
                + " requires mining which is not supported"@,
            FactoryErrorView::DoesNotRequireMining(product) => "Product "@ + product
                + " does not require mining"@,
            FactoryErrorView::NoMinableResource => {
                "No minable resource found in the production chain"@
            },
            FactoryErrorView::InputOutputMismatch => {
                "Number of inputs does not match number of outputs"@
            },
            FactoryErrorView::PlanetCannotMine { planet_type, resource } => "Planet type "@
                + planet_type.name() + " cannot mine resource "@ + resource,
        }
    }
}

impl FactoryError {
    /// The error in words.
    pub fn message(&self) -> (r: String)
        ensures
            r@ == self@.message(),
    {
        match self {
            FactoryError::ProductNotFound(product) => {
                "Product not found: ".to_string().concat(product.as_str())
            },
            FactoryError::InvalidProductTier { product, expected, actual } => {
                "Product ".to_string().concat(product.as_str()).concat(
                    " has incorrect tier: expected ",
                ).concat(expected.label()).concat(", got ").concat(actual.label())
            },
            FactoryError::MissingIngredients { product, missing } => {
                let list = format_list(missing);
                missing_ingredients_message(product.as_str(), list.as_str())
            },
            FactoryError::RequiresMining(product) => {
                "Product ".to_string().concat(product.as_str()).concat(
                    " requires mining which is not supported",
                )
            },
            FactoryError::DoesNotRequireMining(product) => {
                "Product ".to_string().concat(product.as_str()).concat(" does not require mining")
            },
            FactoryError::NoMinableResource => {
                "No minable resource found in the production chain".to_string()
            },
            FactoryError::InputOutputMismatch => {
                "Number of inputs does not match number of outputs".to_string()
            },
            FactoryError::PlanetCannotMine { planet_type, resource } => {
                "Planet type ".to_string().concat(planet_type.label()).concat(
                    " cannot mine resource ",
                ).concat(resource.as_str())
            },
        }
    }
}

/// The view of what a strategy returned.
pub open spec fn outcome(r: Result<FactoryConfiguration, FactoryError>) -> Outcome {
    match r {
        Ok(c) => Ok(c@),
        Err(e) => Err(e@),
    }
}

/// The product `name` where it is of the tier `expected`, else why it is not.
fn require_tier<R: ProductRepository>(repository: &R, name: &str, expected: ProductTier) -> (r:
    Result<Product, FactoryError>)
    ensures
        match r {
            Ok(p) => tier_error(repository.products(), name@, expected) is None && lookup(
                repository.products(),
                name@,
            ) == Some(p@),
            Err(e) => tier_error(repository.products(), name@, expected) == Some(e@),
        },
{
    match repository.get_product_by_name(name) {
        None => Err(FactoryError::ProductNotFound(name.to_string())),
        Some(p) => {
            if p.tier == expected {
                Ok(p)
            } else {
                Err(
                    FactoryError::InvalidProductTier {
                        product: name.to_string(),
                        expected,
                        actual: p.tier,
                    },
                )
            }
        },
    }
}

/// The product `name` where it is of a tier below P4, else why it is not.
fn require_below_p4<R: ProductRepository>(repository: &R, name: &str) -> (r: Result<
    Product,
    FactoryError,
>)
    ensures
        match r {
            Ok(p) => below_p4_error(repository.products(), name@) is None && lookup(
                repository.products(),
                name@,
            ) == Some(p@),
            Err(e) => below_p4_error(repository.products(), name@) == Some(e@),
        },
{
    match repository.get_product_by_name(name) {
        None => Err(FactoryError::ProductNotFound(name.to_string())),
        Some(p) => {
            if p.tier != ProductTier::P4 {
                Ok(p)
            } else {
                Err(
                    FactoryError::InvalidProductTier {
                        product: name.to_string(),
                        expected: ProductTier::P3,
                        actual: p.tier,
                    },
                )
            }
        },
    }
}

/// The configuration that makes the P4 product `output` from imports alone.
pub fn factory_type_p2_to_p4_without_mining<R: ProductRepository>(repository: &R, output: &str) -> (r:
    Result<FactoryConfiguration, FactoryError>)
    ensures
        outcome(r) == p2_to_p4_without_mining(repository.products(), output@),
{
    if requires_p4_mined(output) {
        return Err(FactoryError::RequiresMining(output.to_string()));
    }
    let p4_product = match require_tier(repository, output, ProductTier::P4) {
        Ok(p) => p,
        Err(e) => {
            return Err(e);
        },
    };
    let ghost catalog = repository.products();
    let ghost ingredients = p4_product@.ingredients;
    let mut imported_inputs: Vec<String> = Vec::new();
    let mut i: usize = 0;
    assert(imported_inputs.deep_view() =~= with_members(Seq::empty(), ingredients.take(0)));
    while i < p4_product.ingredients.len()
        invariant
            i <= p4_product.ingredients.len(),
            catalog == repository.products(),
            ingredients == p4_product@.ingredients,
            !mining_required(output@),
            lookup(catalog, output@) == Some(p4_product@),
            tier_error(catalog, output@, ProductTier::P4) is None,
            forall|j: int| 0 <= j < i ==> below_p4_check(catalog)(#[trigger] ingredients[j]) is None,
            imported_inputs.deep_view() == with_members(Seq::empty(), ingredients.take(i as int)),
        decreases p4_product.ingredients.len() - i,
    {
        let ingredient = p4_product.ingredients[i].as_str();
        match require_below_p4(repository, ingredient) {
            Ok(_) => {},
            Err(e) => {
                proof {
                    lemma_first_error_at(ingredients, below_p4_check(catalog), i as int);
                }
                return Err(e);
            },
        }
        proof {
            let t = ingredients.take(i + 1);
            assert(t.drop_last() =~= ingredients.take(i as int));
            assert(t.last() == ingredient@);
        }
        insert_str(&mut imported_inputs, ingredient);
        i += 1;
    }
    proof {
        lemma_first_error_none(ingredients, below_p4_check(catalog));
        assert(ingredients.take(ingredients.len() as int) =~= ingredients);
    }
    let mined_inputs: Vec<String> = Vec::new();
    assert(mined_inputs.deep_view() =~= Seq::empty());
    Ok(
        FactoryConfiguration {
            start_tier: ProductTier::P2,
            end_tier: ProductTier::P4,
            imported_inputs,
            mined_inputs,
            outputs: single(output),
        },
    )
}

/// Adds each of `parts` to the ordered set `acc`, each followed by its own
/// ingredients.
fn add_parts<R: ProductRepository>(repository: &R, acc: &mut Vec<String>, parts: &Vec<String>)
    ensures
        final(acc).deep_view() == with_parts(
            repository.products(),
            old(acc).deep_view(),
            parts.deep_view(),
        ),
{
    let ghost catalog = repository.products();
    let ghost names = parts.deep_view();
    let mut j: usize = 0;
    assert(names.take(0) =~= Seq::empty());
    while j < parts.len()
        invariant
            j <= parts.len(),
            catalog == repository.products(),
            names == parts.deep_view(),
            acc.deep_view() == with_parts(catalog, old(acc).deep_view(), names.take(j as int)),
        decreases parts.len() - j,
    {
        let part = parts[j].as_str();
        proof {
            let t = names.take(j + 1);
            assert(t.drop_last() =~= names.take(j as int));
            assert(t.last() == part@);
        }
        insert_str(acc, part);
        match repository.get_product_by_name(part) {
            Some(sub_product) => {
                insert_all(acc, &sub_product.ingredients);
            },
            None => {},
        }
        j += 1;
    }
    assert(names.take(names.len() as int) =~= names);
}

/// The position of the first raw material among `inputs`.
fn first_raw<R: ProductRepository>(repository: &R, inputs: &Vec<String>) -> (r: Option<usize>)
    ensures
        match r {
            Some(k) => k < inputs.len() && first_where(
                inputs.deep_view(),
                raw_test(repository.products()),
            ) == Some(k as int),
            None => first_where(inputs.deep_view(), raw_test(repository.products())) is None,
        },
{
    let ghost catalog = repository.products();
    let ghost names = inputs.deep_view();
    let mut k: usize = 0;
    while k < inputs.len()
        invariant
            k <= inputs.len(),
            catalog == repository.products(),
            names == inputs.deep_view(),
            forall|j: int| 0 <= j < k ==> !raw_test(catalog)(#[trigger] names[j]),
        decreases inputs.len() - k,
    {
        match repository.get_product_by_name(inputs[k].as_str()) {
            Some(product) => {
                if product.tier == ProductTier::P0 {
                    proof {
                        lemma_first_where_is(names, raw_test(catalog), k as int);
                    }
                    return Some(k);
                }
            },
            None => {},
        }
        k += 1;
    }
    proof {
        lemma_first_where_none(names, raw_test(catalog));
    }
    None
}

/// The position of the first basic product among `inputs` that is made from a
/// single raw material, with that raw material.
fn first_made_from_raw<R: ProductRepository>(repository: &R, inputs: &Vec<String>) -> (r: Option<
    (usize, String),
>)
    ensures
        match r {
            Some((k, raw)) => k < inputs.len() && first_where(
                inputs.deep_view(),
                made_from_raw_test(repository.products()),
            ) == Some(k as int) && raw@ == ingredients_of(
                repository.products(),
                inputs.deep_view()[k as int],
            )[0],
            None => first_where(inputs.deep_view(), made_from_raw_test(repository.products()))
                is None,
        },
{
    let ghost catalog = repository.products();
    let ghost names = inputs.deep_view();
    let mut k: usize = 0;
    while k < inputs.len()
        invariant
            k <= inputs.len(),
            catalog == repository.products(),
            names == inputs.deep_view(),
            forall|j: int| 0 <= j < k ==> !made_from_raw_test(catalog)(#[trigger] names[j]),
        decreases inputs.len() - k,
    {
        match repository.get_product_by_name(inputs[k].as_str()) {
            Some(product) => {
                if product.tier == ProductTier::P1 && product.ingredients.len() == 1 {
                    let p0_ingredient = product.ingredients[0].as_str();
                    match repository.get_product_by_name(p0_ingredient) {
                        Some(p0_product) => {
                            if p0_product.tier == ProductTier::P0 {
                                proof {
                                    lemma_first_where_is(
                                        names,
                                        made_from_raw_test(catalog),
                                        k as int,
                                    );
                                }
                                return Some((k, p0_ingredient.to_string()));
                            }
                        },
                        None => {},
                    }
                }
            },
            None => {},
        }
        k += 1;
    }
    proof {
        lemma_first_where_none(names, made_from_raw_test(catalog));
    }
    None
}

/// The configuration that makes the P4 product `output` with one raw
/// material mined on site and everything else brought in.
pub fn factory_type_p2_to_p4_with_mining<R: ProductRepository>(repository: &R, output: &str) -> (r:
    Result<FactoryConfiguration, FactoryError>)
    ensures
        outcome(r) == p2_to_p4_with_mining(repository.products(), output@),
{
    let p4_product = match repository.get_product_by_name(output) {
        Some(p) => p,
        None => {
            return Err(FactoryError::ProductNotFound(output.to_string()));
        },
    };
    if !requires_p4_mined(output) {
        return Err(FactoryError::DoesNotRequireMining(output.to_string()));
    }
    if p4_product.tier != ProductTier::P4 {
        return Err(
            FactoryError::InvalidProductTier {
                product: output.to_string(),
                expected: ProductTier::P4,
                actual: p4_product.tier,
            },
        );
    }
    let ghost catalog = repository.products();
    let ghost ingredients = p4_product@.ingredients;
    let mut all_inputs: Vec<String> = Vec::new();
    let mut i: usize = 0;
    assert(all_inputs.deep_view() =~= collected_inputs(catalog, ingredients.take(0)));
    while i < p4_product.ingredients.len()
        invariant
            i <= p4_product.ingredients.len(),
            catalog == repository.products(),
            ingredients == p4_product@.ingredients,
            mining_required(output@),
            lookup(catalog, output@) == Some(p4_product@),
            tier_error(catalog, output@, ProductTier::P4) is None,
            forall|j: int| 0 <= j < i ==> below_p4_check(catalog)(#[trigger] ingredients[j]) is None,
            all_inputs.deep_view() == collected_inputs(catalog, ingredients.take(i as int)),
        decreases p4_product.ingredients.len() - i,
    {
        let ingredient = p4_product.ingredients[i].as_str();
        let product = match require_below_p4(repository, ingredient) {
            Ok(p) => p,
            Err(e) => {
                proof {
                    lemma_first_error_at(ingredients, below_p4_check(catalog), i as int);
                }
                return Err(e);
            },
        };
        proof {
            let t = ingredients.take(i + 1);
            assert(t.drop_last() =~= ingredients.take(i as int));
            assert(t.last() == ingredient@);
        }
        insert_str(&mut all_inputs, ingredient);
        add_parts(repository, &mut all_inputs, &product.ingredients);
        i += 1;
    }
    proof {
        lemma_first_error_none(ingredients, below_p4_check(catalog));
        assert(ingredients.take(ingredients.len() as int) =~= ingredients);
    }
    let imported_inputs: Vec<String>;
    let mined_inputs: Vec<String>;
    match first_raw(repository, &all_inputs) {
        Some(k) => {
            imported_inputs = remove_str(&all_inputs, all_inputs[k].as_str());
            mined_inputs = single(all_inputs[k].as_str());
        },
        None => match first_made_from_raw(repository, &all_inputs) {
            Some((k, raw)) => {
                imported_inputs = remove_str(&all_inputs, all_inputs[k].as_str());
                mined_inputs = single(raw.as_str());
            },
            None => {
                return Err(FactoryError::NoMinableResource);
            },
        },
    }
    Ok(
        FactoryConfiguration {
            start_tier: ProductTier::P2,
            end_tier: ProductTier::P4,
            imported_inputs,
            mined_inputs,
            outputs: single(output),
        },
    )
}

/// The configuration that makes the P2 product `output` from raw materials
/// mined on one site.
pub fn factory_type_p0_to_p2<R: ProductRepository>(repository: &R, output: &str) -> (r: Result<
    FactoryConfiguration,
    FactoryError,
>)
    ensures
        outcome(r) == p0_to_p2(repository.products(), output@),
{
    let p2_product = match require_tier(repository, output, ProductTier::P2) {
        Ok(p) => p,
        Err(e) => {
            return Err(e);
        },
    };
    let ghost catalog = repository.products();
    let ghost basics = p2_product@.ingredients;
    let mut mined_inputs: Vec<String> = Vec::new();
    let mut i: usize = 0;
    assert(mined_inputs.deep_view() =~= all_ingredients(catalog, basics.take(0)));
    while i < p2_product.ingredients.len()
        invariant
            i <= p2_product.ingredients.len(),
            catalog == repository.products(),
            basics == p2_product@.ingredients,
            lookup(catalog, output@) == Some(p2_product@),
            tier_error(catalog, output@, ProductTier::P2) is None,
            forall|j: int|
                0 <= j < i ==> tier_check(catalog, ProductTier::P1)(#[trigger] basics[j]) is None,
            mined_inputs.deep_view() == all_ingredients(catalog, basics.take(i as int)),
        decreases p2_product.ingredients.len() - i,
    {
        let ingredient = p2_product.ingredients[i].as_str();
        let p1_product = match require_tier(repository, ingredient, ProductTier::P1) {
            Ok(p) => p,
            Err(e) => {
                proof {
                    lemma_first_error_at(basics, tier_check(catalog, ProductTier::P1), i as int);
                }
                return Err(e);
            },
        };
        proof {
            let t = basics.take(i + 1);
            assert(t.drop_last() =~= basics.take(i as int));
            assert(t.last() == ingredient@);
        }
        append_strings(&mut mined_inputs, &p1_product.ingredients);
        i += 1;
    }
    proof {
        lemma_first_error_none(basics, tier_check(catalog, ProductTier::P1));
        assert(basics.take(basics.len() as int) =~= basics);
    }
    let ghost raws = mined_inputs.deep_view();
    let mut k: usize = 0;
    while k < mined_inputs.len()
        invariant
            k <= mined_inputs.len(),
            catalog == repository.products(),
            basics == p2_product@.ingredients,
            lookup(catalog, output@) == Some(p2_product@),
            tier_error(catalog, output@, ProductTier::P2) is None,
            first_error(basics, tier_check(catalog, ProductTier::P1)) is None,
            raws == mined_inputs.deep_view(),
            raws == all_ingredients(catalog, basics),
            forall|j: int|
                0 <= j < k ==> tier_check(catalog, ProductTier::P0)(#[trigger] raws[j]) is None,
        decreases mined_inputs.len() - k,
    {
        match require_tier(repository, mined_inputs[k].as_str(), ProductTier::P0) {
            Ok(_) => {},
            Err(e) => {
                proof {
                    lemma_first_error_at(raws, tier_check(catalog, ProductTier::P0), k as int);
                }
                return Err(e);
            },
        }
        k += 1;
    }
    proof {
        lemma_first_error_none(raws, tier_check(catalog, ProductTier::P0));
    }
    let imported_inputs: Vec<String> = Vec::new();
    assert(imported_inputs.deep_view() =~= Seq::empty());
    Ok(
        FactoryConfiguration {
            start_tier: ProductTier::P0,
            end_tier: ProductTier::P2,
            imported_inputs,
            mined_inputs,
            outputs: single(output),
        },
    )
}

/// The configuration that makes the P2 products `outputs` from the imported
/// P1 products `imports`.
pub fn factory_type_p1_to_p2<R: ProductRepository>(
    repository: &R,
    imports: &[&str],
    outputs: &[&str],
) -> (r: Result<FactoryConfiguration, FactoryError>)
    ensures
        outcome(r) == p1_to_p2(repository.products(), imports.deep_view(), outputs.deep_view()),
{
    let ghost catalog = repository.products();
    let ghost brought = imports.deep_view();
    let ghost wanted = outputs.deep_view();
    let mut i: usize = 0;
    while i < imports.len()
        invariant
            i <= imports.len(),
            catalog == repository.products(),
            brought == imports.deep_view(),
            forall|j: int|
                0 <= j < i ==> tier_check(catalog, ProductTier::P1)(#[trigger] brought[j]) is None,
        decreases imports.len() - i,
    {
        match require_tier(repository, imports[i], ProductTier::P1) {
            Ok(_) => {},
            Err(e) => {
                proof {
                    lemma_first_error_at(brought, tier_check(catalog, ProductTier::P1), i as int);
                }
                return Err(e);
            },
        }
        i += 1;
    }
    proof {
        lemma_first_error_none(brought, tier_check(catalog, ProductTier::P1));
    }
    let mut k: usize = 0;
    while k < outputs.len()
        invariant
            k <= outputs.len(),
            catalog == repository.products(),
            brought == imports.deep_view(),
            wanted == outputs.deep_view(),
            first_error(brought, tier_check(catalog, ProductTier::P1)) is None,
            forall|j: int|
                0 <= j < k ==> import_check(catalog, brought)(#[trigger] wanted[j]) is None,
        decreases outputs.len() - k,
    {
        let product = match require_tier(repository, outputs[k], ProductTier::P2) {
            Ok(p) => p,
            Err(e) => {
                proof {
                    lemma_first_error_at(wanted, import_check(catalog, brought), k as int);
                }
                return Err(e);
            },
        };
        let mut needed: Vec<String> = Vec::new();
        assert(needed.deep_view() =~= Seq::empty());
        insert_all(&mut needed, &product.ingredients);
        let missing = missing_strs(&needed, imports);
        if missing.len() != 0 {
            proof {
                lemma_first_error_at(wanted, import_check(catalog, brought), k as int);
            }
            return Err(
                FactoryError::MissingIngredients { product: outputs[k].to_string(), missing },
            );
        }
        k += 1;
    }
    proof {
        lemma_first_error_none(wanted, import_check(catalog, brought));
    }
    let mined_inputs: Vec<String> = Vec::new();
    assert(mined_inputs.deep_view() =~= Seq::empty());
    Ok(
        FactoryConfiguration {
            start_tier: ProductTier::P1,
            end_tier: ProductTier::P2,
            imported_inputs: to_strings(imports),
            mined_inputs,
            outputs: to_strings(outputs),
        },
    )
}

/// The configuration that makes each of the P1 products `outputs` from the
/// raw material at its position in `mined_inputs`.
pub fn factory_type_p0_to_p1<R: ProductRepository>(
    repository: &R,
    mined_inputs: &[&str],
    outputs: &[&str],
) -> (r: Result<FactoryConfiguration, FactoryError>)
    ensures
        outcome(r) == p0_to_p1(
            repository.products(),
            mined_inputs.deep_view(),
            outputs.deep_view(),
        ),
{
    if mined_inputs.len() != outputs.len() {
        return Err(FactoryError::InputOutputMismatch);
    }
    let ghost catalog = repository.products();
    let ghost pairs = paired(mined_inputs.deep_view(), outputs.deep_view());
    let mut i: usize = 0;
    while i < mined_inputs.len()
        invariant
            i <= mined_inputs.len(),
            mined_inputs.len() == outputs.len(),
            catalog == repository.products(),
            pairs == paired(mined_inputs.deep_view(), outputs.deep_view()),
            forall|j: int| 0 <= j < i ==> extraction_check(catalog)(#[trigger] pairs[j]) is None,
        decreases mined_inputs.len() - i,
    {
        let mined_input = mined_inputs[i];
        assert(pairs[i as int] == (mined_input@, outputs[i as int]@));
        match require_tier(repository, mined_input, ProductTier::P0) {
            Ok(_) => {},
            Err(e) => {
                proof {
                    lemma_first_error_at(pairs, extraction_check(catalog), i as int);
                }
                return Err(e);
            },
        }
        let p1_product = match require_tier(repository, outputs[i], ProductTier::P1) {
            Ok(p) => p,
            Err(e) => {
                proof {
                    lemma_first_error_at(pairs, extraction_check(catalog), i as int);
                }
                return Err(e);
            },
        };
        if p1_product.ingredients.len() != 1 || !str_eq(
            p1_product.ingredients[0].as_str(),
            mined_input,
        ) {
            proof {
                assert(seq![mined_input@].len() == 1);
                assert(seq![mined_input@][0] == mined_input@);
                lemma_first_error_at(pairs, extraction_check(catalog), i as int);
            }
            return Err(
                FactoryError::MissingIngredients {
                    product: outputs[i].to_string(),
                    missing: single(mined_input),
                },
            );
        }
        assert(p1_product@.ingredients =~= seq![mined_input@]);
        i += 1;
    }
    proof {
        lemma_first_error_none(pairs, extraction_check(catalog));
    }
    let imported_inputs: Vec<String> = Vec::new();
    assert(imported_inputs.deep_view() =~= Seq::empty());
    Ok(
        FactoryConfiguration {
            start_tier: ProductTier::P0,
            end_tier: ProductTier::P1,
            imported_inputs,
            mined_inputs: to_strings(mined_inputs),
            outputs: to_strings(outputs),
        },
    )
}

/// Whether `planet_type` is one of `planet_types`.
fn has_planet_type(planet_types: &Vec<PlanetType>, planet_type: PlanetType) -> (r: bool)
    ensures
        r == planet_types.deep_view().contains(planet_type),
{
    let mut i: usize = 0;
    while i < planet_types.len()
        invariant
            i <= planet_types.len(),
            forall|j: int| 0 <= j < i ==> planet_types.deep_view()[j] != planet_type,
        decreases planet_types.len() - i,
    {
        if planet_types[i] == planet_type {
            assert(planet_types.deep_view()[i as int] == planet_type);
            return true;
        }
        i += 1;
    }
    false
}

/// Whether a site of the kind `planet_type` supplies every one of
/// `mined_inputs`, and if not, what is wrong with the first that it does not
/// supply.
pub fn valid_planet_for_mining(planet_type: PlanetType, mined_inputs: &[&str]) -> (r: Result<
    (),
    FactoryError,
>)
    ensures
        match r {
            Ok(_) => site_error(planet_type, mined_inputs.deep_view()) is None,
            Err(e) => site_error(planet_type, mined_inputs.deep_view()) == Some(e@),
        },
        r is Ok <==> site_supplies(planet_type, mined_inputs.deep_view()),
{
    proof {
        lemma_site_error(planet_type, mined_inputs.deep_view());
    }
    let resource_map = planet_resource_map();
    let ghost resources = mined_inputs.deep_view();
    let mut i: usize = 0;
    while i < mined_inputs.len()
        invariant
            i <= mined_inputs.len(),
            resource_map.deep_view() == resource_table(),
            resources == mined_inputs.deep_view(),
            forall|j: int| 0 <= j < i ==> mining_check(planet_type)(#[trigger] resources[j]) is None,
        decreases mined_inputs.len() - i,
    {
        let input = mined_inputs[i];
        match position_of(&resource_map, input) {
            Some(k) => {
                if !has_planet_type(&resource_map[k].1, planet_type) {
                    proof {
                        lemma_first_error_at(resources, mining_check(planet_type), i as int);
                    }
                    return Err(
                        FactoryError::PlanetCannotMine {
                            planet_type,
                            resource: input.to_string(),
                        },
                    );
                }
            },
            None => {
                proof {
                    lemma_first_error_at(resources, mining_check(planet_type), i as int);
                }
                return Err(FactoryError::ProductNotFound(input.to_string()));
            },
        }
        i += 1;
    }
    proof {
        lemma_first_error_none(resources, mining_check(planet_type));
    }
    Ok(())
}

/// Adds the configuration of a strategy that applies to `configurations`,
/// where a site of the kind `planet_type` supplies what it mines.
fn accept(
    configurations: &mut Vec<FactoryConfiguration>,
    planet_type: PlanetType,
    result: Result<FactoryConfiguration, FactoryError>,
)
    ensures
        final(configurations).deep_view() == old(configurations).deep_view() + accepted(
            planet_type,
            outcome(result),
        ),
{
    match result {
        Ok(config) => {
            let mined_inputs = as_strs(&config.mined_inputs);
            if valid_planet_for_mining(planet_type, mined_inputs.as_slice()).is_ok() {
                configurations.push(config);
                assert(configurations.deep_view() =~= old(configurations).deep_view() + seq![
                    config@,
                ]);
            } else {
                assert(configurations.deep_view() =~= old(configurations).deep_view()
                    + Seq::empty());
            }
        },
        Err(_) => {
            assert(configurations.deep_view() =~= old(configurations).deep_view() + Seq::empty());
        },
    }
}

/// Every way of making `target_product` on a site of the kind `planet_type`.
/// An empty result means that no strategy applies there.
pub fn find_valid_factory_configurations<R: Repository>(
    repository: &R,
    planet_type: PlanetType,
    target_product: &str,
) -> (r: Vec<FactoryConfiguration>)
    ensures
        r.deep_view() == configurations(repository.products(), planet_type, target_product@),
{
    let ghost catalog = repository.products();
    let mut configurations: Vec<FactoryConfiguration> = Vec::new();
    assert(configurations.deep_view() =~= Seq::empty());
    accept(
        &mut configurations,
        planet_type,
        factory_type_p2_to_p4_without_mining(repository, target_product),
    );
    accept(
        &mut configurations,
        planet_type,
        factory_type_p2_to_p4_with_mining(repository, target_product),
    );
    accept(&mut configurations, planet_type, factory_type_p0_to_p2(repository, target_product));
    let ghost first_three = configurations.deep_view();
    assert(first_three =~= accepted(planet_type, p2_to_p4_without_mining(catalog, target_product@))
        + accepted(planet_type, p2_to_p4_with_mining(catalog, target_product@)) + accepted(
        planet_type,
        p0_to_p2(catalog, target_product@),
    ));
    match repository.get_product_by_name(target_product) {
        Some(product) => {
            if product.tier == ProductTier::P2 {
                let p1_ingredients = as_strs(&product.ingredients);
                let outputs: Vec<&str> = vec![target_product];
                assert(outputs.deep_view() =~= seq![target_product@]);
                accept(
                    &mut configurations,
                    planet_type,
                    factory_type_p1_to_p2(
                        repository,
                        p1_ingredients.as_slice(),
                        outputs.as_slice(),
                    ),
                );
            }
            let ghost first_four = configurations.deep_view();
            assert(first_four =~= first_three + import_configurations(
                catalog,
                planet_type,
                target_product@,
            ));
            if product.tier == ProductTier::P1 && product.ingredients.len() == 1 {
                let mined_inputs: Vec<&str> = vec![product.ingredients[0].as_str()];
                let outputs: Vec<&str> = vec![target_product];
                assert(mined_inputs.deep_view() =~= seq![product@.ingredients[0]]);
                assert(outputs.deep_view() =~= seq![target_product@]);
                accept(
                    &mut configurations,
                    planet_type,
                    factory_type_p0_to_p1(
                        repository,
                        mined_inputs.as_slice(),
                        outputs.as_slice(),
                    ),
                );
            }
            assert(configurations.deep_view() =~= first_four + extraction_configurations(
                catalog,
                planet_type,
                target_product@,
            ));
        },
        None => {
            assert(configurations.deep_view() =~= first_three + Seq::empty() + Seq::empty());
        },
    }
    configurations
}

/// Every way of making `target_product` on a site of the kind `planet_type`.
pub fn factory_planet<R: Repository>(
    repository: &R,
    planet_type: PlanetType,
    target_product: &str,
) -> (r: Vec<FactoryConfiguration>)
    ensures
        r.deep_view() == configurations(repository.products(), planet_type, target_product@),
{
    find_valid_factory_configurations(repository, planet_type, target_product)
}

} // verus!
