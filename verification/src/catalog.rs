//! The reference data: which kinds of site supply each raw resource, which
//! products need extraction on site, and the products themselves.

use crate::domain::{PlanetType, Product, ProductTier, ProductView};
use crate::keyed::{
    distinct_keys, lemma_distinct_prefix, lemma_upsert_all_fresh, lookup, Keyed,
};
use crate::store::{Named, store_all};
use crate::text::{single, str_eq};
use vstd::prelude::*;

verus! {

/// The most refined products that cannot be made from imports alone.
pub open spec fn mining_required(name: Seq<char>) -> bool {
    name == "nano_factory"@ || name == "organic_mortar_applicators"@ || name == "sterile_conduit"@
}

/// Whether a product of the highest tier needs a raw resource extracted on its site.
pub fn requires_p4_mined(product_name: &str) -> (r: bool)
    ensures
        r == mining_required(product_name@),
{
    str_eq(product_name, "nano_factory") || str_eq(product_name, "organic_mortar_applicators")
        || str_eq(product_name, "sterile_conduit")
}

impl Keyed for (Seq<char>, Seq<PlanetType>) {
    open spec fn key(self) -> Seq<char> {
        self.0
    }
}

impl Named for (&'static str, Vec<PlanetType>) {
    fn name_str(&self) -> (r: &str) {
        self.0
    }

    fn duplicate(&self) -> (r: Self) {
        let mut types: Vec<PlanetType> = Vec::new();
        let mut i: usize = 0;
        while i < self.1.len()
            invariant
                i <= self.1.len(),
                types@ == self.1@.take(i as int),
            decreases self.1.len() - i,
        {
            types.push(self.1[i]);
            assert(self.1@.take(i + 1) =~= self.1@.take(i as int).push(self.1@[i as int]));
            i += 1;
        }
        assert(self.1@.take(self.1.len() as int) =~= self.1@);
        assert(types.deep_view() =~= self.1.deep_view());
        (self.0, types)
    }
}

/// What tells the names of the reference data apart: the length of a name,
/// its first letter and its fourth.
pub open spec fn mark(name: Seq<char>) -> (nat, char, char) {
    (name.len(), name[0], name[3])
}

/// The resource table: each raw resource with the kinds of site that supply it.
pub open spec fn resource_table() -> Seq<(Seq<char>, Seq<PlanetType>)> {
    seq![
        ("aqueous_liquids"@, seq![PlanetType::Oceanic, PlanetType::Temperate]),
        ("autotrophs"@, seq![PlanetType::Temperate]),
        ("base_metals"@, seq![PlanetType::Barren, PlanetType::Lava, PlanetType::Plasma]),
        ("carbon_compounds"@, seq![PlanetType::Gas, PlanetType::Temperate]),
        ("complex_organisms"@, seq![PlanetType::Temperate]),
        ("felsic_magma"@, seq![PlanetType::Lava]),
        ("heavy_metals"@, seq![PlanetType::Barren, PlanetType::Lava, PlanetType::Plasma]),
        ("ionic_solutions"@, seq![PlanetType::Gas, PlanetType::Storm]),
        ("micro_organisms"@, seq![PlanetType::Oceanic, PlanetType::Temperate]),
        ("noble_gas"@, seq![PlanetType::Gas, PlanetType::Ice]),
        ("noble_metals"@, seq![PlanetType::Barren, PlanetType::Plasma]),
        ("non_cs_crystals"@, seq![PlanetType::Ice, PlanetType::Plasma]),
        ("planktic_colonies"@, seq![PlanetType::Oceanic]),
        ("reactive_gas"@, seq![PlanetType::Gas, PlanetType::Storm]),
        ("suspended_plasma"@, seq![PlanetType::Gas, PlanetType::Plasma, PlanetType::Storm]),
    ]
}

/// No two entries of the resource table are for the same resource.
pub proof fn lemma_resource_names_distinct()
    ensures
        distinct_keys(resource_table()),
{
    reveal_strlit("aqueous_liquids");
    reveal_strlit("autotrophs");
    reveal_strlit("base_metals");
    reveal_strlit("carbon_compounds");
    reveal_strlit("complex_organisms");
    reveal_strlit("felsic_magma");
    reveal_strlit("heavy_metals");
    reveal_strlit("ionic_solutions");
    reveal_strlit("micro_organisms");
    reveal_strlit("noble_gas");
    reveal_strlit("noble_metals");
    reveal_strlit("non_cs_crystals");
    reveal_strlit("planktic_colonies");
    reveal_strlit("reactive_gas");
    reveal_strlit("suspended_plasma");
    let table = resource_table();
    assert forall|i: int, j: int| 0 <= i < j < table.len() implies mark(table[i].0) != mark(
        table[j].0,
    ) by {}
}

/// Whether the resource table lists `resource` under the kind `planet_type`.
pub open spec fn supplies(planet_type: PlanetType, resource: Seq<char>) -> bool {
    match lookup(resource_table(), resource) {
        Some(entry) => entry.1.contains(planet_type),
        None => false,
    }
}

fn sites1(a: PlanetType) -> (r: Vec<PlanetType>)
    ensures
        r.deep_view() == seq![a],
{
    let mut r: Vec<PlanetType> = Vec::new();
    r.push(a);
    assert(r.deep_view() =~= seq![a]);
    r
}

fn sites2(a: PlanetType, b: PlanetType) -> (r: Vec<PlanetType>)
    ensures
        r.deep_view() == seq![a, b],
{
    let mut r: Vec<PlanetType> = Vec::new();
    r.push(a);
    r.push(b);
    assert(r.deep_view() =~= seq![a, b]);
    r
}

fn sites3(a: PlanetType, b: PlanetType, c: PlanetType) -> (r: Vec<PlanetType>)
    ensures
        r.deep_view() == seq![a, b, c],
{
    let mut r: Vec<PlanetType> = Vec::new();
    r.push(a);
    r.push(b);
    r.push(c);
    assert(r.deep_view() =~= seq![a, b, c]);
    r
}

fn resource_list() -> (r: Vec<(&'static str, Vec<PlanetType>)>)
    ensures
        r.deep_view() == resource_table(),
{
    let mut r: Vec<(&'static str, Vec<PlanetType>)> = Vec::new();
    r.push(("aqueous_liquids", sites2(PlanetType::Oceanic, PlanetType::Temperate)));
    r.push(("autotrophs", sites1(PlanetType::Temperate)));
    r.push(("base_metals", sites3(PlanetType::Barren, PlanetType::Lava, PlanetType::Plasma)));
    r.push(("carbon_compounds", sites2(PlanetType::Gas, PlanetType::Temperate)));
    r.push(("complex_organisms", sites1(PlanetType::Temperate)));
    r.push(("felsic_magma", sites1(PlanetType::Lava)));
    r.push(("heavy_metals", sites3(PlanetType::Barren, PlanetType::Lava, PlanetType::Plasma)));
    r.push(("ionic_solutions", sites2(PlanetType::Gas, PlanetType::Storm)));
    r.push(("micro_organisms", sites2(PlanetType::Oceanic, PlanetType::Temperate)));
    r.push(("noble_gas", sites2(PlanetType::Gas, PlanetType::Ice)));
    r.push(("noble_metals", sites2(PlanetType::Barren, PlanetType::Plasma)));
    r.push(("non_cs_crystals", sites2(PlanetType::Ice, PlanetType::Plasma)));
    r.push(("planktic_colonies", sites1(PlanetType::Oceanic)));
    r.push(("reactive_gas", sites2(PlanetType::Gas, PlanetType::Storm)));
    r.push(("suspended_plasma", sites3(PlanetType::Gas, PlanetType::Plasma, PlanetType::Storm)));
    assert(r.deep_view() =~= resource_table());
    r
}

/// The resource table: each raw resource once, with the kinds of site that
/// supply it.
pub fn planet_resource_map() -> (map: Vec<(&'static str, Vec<PlanetType>)>)
    ensures
        map.deep_view() == resource_table(),
        distinct_keys(map.deep_view()),
{
    let entries = resource_list();
    let mut map: Vec<(&'static str, Vec<PlanetType>)> = Vec::new();
    assert(map.deep_view() =~= Seq::empty());
    store_all(&mut map, &entries);
    proof {
        lemma_resource_names_distinct();
        assert(Seq::<(Seq<char>, Seq<PlanetType>)>::empty() + resource_table()
            =~= resource_table());
        lemma_upsert_all_fresh(Seq::<(Seq<char>, Seq<PlanetType>)>::empty(), resource_table());
    }
    map
}


/// A raw material as the catalog holds it.
pub open spec fn raw(name: Seq<char>) -> ProductView {
    ProductView { name, tier: ProductTier::P0, ingredients: Seq::empty() }
}

/// A product of a tier above the raw materials as the catalog holds it.
pub open spec fn made(name: Seq<char>, tier: ProductTier, ingredients: Seq<Seq<char>>) -> ProductView {
    ProductView { name, tier, ingredients }
}

/// The raw materials.
pub open spec fn raw_entries() -> Seq<ProductView> {
    seq![
        raw("aqueous_liquids"@),
        raw("autotrophs"@),
        raw("base_metals"@),
        raw("carbon_compounds"@),
        raw("complex_organisms"@),
        raw("felsic_magma"@),
        raw("heavy_metals"@),
        raw("ionic_solutions"@),
        raw("micro_organisms"@),
        raw("noble_gas"@),
        raw("noble_metals"@),
        raw("non_cs_crystals"@),
        raw("planktic_colonies"@),
        raw("reactive_gas"@),
        raw("suspended_plasma"@),
    ]
}

/// The basic products, each processed from one raw material.
pub open spec fn basic_entries() -> Seq<ProductView> {
    seq![
        made("bacteria"@, ProductTier::P1, seq!["micro_organisms"@]),
        made("biofuels"@, ProductTier::P1, seq!["carbon_compounds"@]),
        made("biomass"@, ProductTier::P1, seq!["planktic_colonies"@]),
        made("chiral_structures"@, ProductTier::P1, seq!["non_cs_crystals"@]),
        made("electrolytes"@, ProductTier::P1, seq!["ionic_solutions"@]),
        made("industrial_fibers"@, ProductTier::P1, seq!["autotrophs"@]),
        made("oxidizing_compound"@, ProductTier::P1, seq!["reactive_gas"@]),
        made("oxygen"@, ProductTier::P1, seq!["noble_gas"@]),
        made("plasmoids"@, ProductTier::P1, seq!["suspended_plasma"@]),
        made("precious_metals"@, ProductTier::P1, seq!["noble_metals"@]),
        made("proteins"@, ProductTier::P1, seq!["complex_organisms"@]),
        made("reactive_metals"@, ProductTier::P1, seq!["base_metals"@]),
        made("silicon"@, ProductTier::P1, seq!["felsic_magma"@]),
        made("toxic_metals"@, ProductTier::P1, seq!["heavy_metals"@]),
        made("water"@, ProductTier::P1, seq!["aqueous_liquids"@]),
    ]
}

/// The refined commodities, each made from two basic products.
pub open spec fn refined_entries() -> Seq<ProductView> {
    seq![
        made("biocells"@, ProductTier::P2, seq!["precious_metals"@, "biofuels"@]),
        made("construction_blocks"@, ProductTier::P2, seq!["toxic_metals"@, "reactive_metals"@]),
        made("consumer_electronics"@, ProductTier::P2, seq!["chiral_structures"@, "toxic_metals"@]),
        made("coolant"@, ProductTier::P2, seq!["water"@, "electrolytes"@]),
        made("enriched_uranium"@, ProductTier::P2, seq!["toxic_metals"@, "precious_metals"@]),
        made("fertilizer"@, ProductTier::P2, seq!["proteins"@, "bacteria"@]),
        made("livestock"@, ProductTier::P2, seq!["biofuels"@, "proteins"@]),
        made("mechanical_parts"@, ProductTier::P2, seq!["precious_metals"@, "reactive_metals"@]),
        made("microfiber_shielding"@, ProductTier::P2, seq!["silicon"@, "industrial_fibers"@]),
        made("miniature_electronics"@, ProductTier::P2, seq!["silicon"@, "chiral_structures"@]),
        made("nanites"@, ProductTier::P2, seq!["reactive_metals"@, "bacteria"@]),
        made("oxides"@, ProductTier::P2, seq!["oxygen"@, "oxidizing_compound"@]),
        made("polyaramids"@, ProductTier::P2, seq!["industrial_fibers"@, "oxidizing_compound"@]),
        made("polytextiles"@, ProductTier::P2, seq!["industrial_fibers"@, "biofuels"@]),
        made("rocket_fuel"@, ProductTier::P2, seq!["electrolytes"@, "plasmoids"@]),
        made("silicate_glass"@, ProductTier::P2, seq!["silicon"@, "oxidizing_compound"@]),
        made("superconductors"@, ProductTier::P2, seq!["water"@, "plasmoids"@]),
        made("supertensile_plastics"@, ProductTier::P2, seq!["oxygen"@, "biomass"@]),
        made("synthetic_oil"@, ProductTier::P2, seq!["oxygen"@, "electrolytes"@]),
        made("test_cultures"@, ProductTier::P2, seq!["water"@, "bacteria"@]),
        made("viral_agent"@, ProductTier::P2, seq!["biomass"@, "bacteria"@]),
    ]
}

/// The specialized commodities.
pub open spec fn specialized_entries() -> Seq<ProductView> {
    seq![
        made("biotech_research_reports"@, ProductTier::P3, seq!["nanites"@, "livestock"@, "construction_blocks"@]),
        made("camera_drones"@, ProductTier::P3, seq!["silicate_glass"@, "rocket_fuel"@, "mechanical_parts"@]),
        made("condensates"@, ProductTier::P3, seq!["oxides"@, "coolant"@, "precious_metals"@]),
        made("cryoprotectant_solution"@, ProductTier::P3, seq!["synthetic_oil"@, "fertilizer"@, "polytextiles"@]),
        made("data_chips"@, ProductTier::P3, seq!["nanites"@, "silicate_glass"@, "consumer_electronics"@]),
        made("gel_matrix_biopaste"@, ProductTier::P3, seq!["oxides"@, "biocells"@, "industrial_fibers"@]),
        made("guidance_systems"@, ProductTier::P3, seq!["consumer_electronics"@, "mechanical_parts"@, "miniature_electronics"@]),
        made("hazmat_detection_systems"@, ProductTier::P3, seq!["industrial_fibers"@, "oxides"@, "microfiber_shielding"@]),
        made("hermetic_membranes"@, ProductTier::P3, seq!["polytextiles"@, "silicate_glass"@, "coolant"@]),
        made("high_tech_transmitters"@, ProductTier::P3, seq!["chiral_structures"@, "miniature_electronics"@, "superconductors"@]),
        made("industrial_explosives"@, ProductTier::P3, seq!["fertilizer"@, "polytextiles"@, "reactive_metals"@]),
        made("neocoms"@, ProductTier::P3, seq!["biocells"@, "construction_blocks"@, "microfiber_shielding"@]),
        made("nuclear_reactors"@, ProductTier::P3, seq!["enriched_uranium"@, "microfiber_shielding"@, "consumer_electronics"@]),
        made("planetary_vehicles"@, ProductTier::P3, seq!["rocket_fuel"@, "consumer_electronics"@, "mechanical_parts"@]),
        made("robotics"@, ProductTier::P3, seq!["mechanical_parts"@, "consumer_electronics"@, "precious_metals"@]),
        made("smartfab_units"@, ProductTier::P3, seq!["construction_blocks"@, "miniature_electronics"@, "nanites"@]),
        made("supercomputers"@, ProductTier::P3, seq!["coolant"@, "consumer_electronics"@, "miniature_electronics"@]),
        made("synthetic_synapses"@, ProductTier::P3, seq!["supertensile_plastics"@, "test_cultures"@, "biocells"@]),
        made("transcranial_microcontrollers"@, ProductTier::P3, seq!["biocells"@, "nanites"@, "silicate_glass"@]),
        made("ukomi_super_conductors"@, ProductTier::P3, seq!["synthetic_oil"@, "superconductors"@, "coolant"@]),
        made("vaccines"@, ProductTier::P3, seq!["livestock"@, "viral_agent"@]),
    ]
}

/// The advanced commodities.
pub open spec fn advanced_entries() -> Seq<ProductView> {
    seq![
        made("broadcast_node"@, ProductTier::P4, seq!["neocoms"@, "data_chips"@, "high_tech_transmitters"@]),
        made("integrity_response_drones"@, ProductTier::P4, seq!["gel_matrix_biopaste"@, "hazmat_detection_systems"@, "planetary_vehicles"@]),
        made("nano_factory"@, ProductTier::P4, seq!["industrial_explosives"@, "ukomi_super_conductors"@, "reactive_metals"@]),
        made("organic_mortar_applicators"@, ProductTier::P4, seq!["condensates"@, "robotics"@, "bacteria"@]),
        made("recursive_computing_module"@, ProductTier::P4, seq!["synthetic_synapses"@, "guidance_systems"@, "transcranial_microcontrollers"@]),
        made("self_harmonizing_power_core"@, ProductTier::P4, seq!["camera_drones"@, "nuclear_reactors"@, "hermetic_membranes"@]),
        made("sterile_conduit"@, ProductTier::P4, seq!["smartfab_units"@, "vaccines"@, "water"@]),
        made("wetware_mainframe"@, ProductTier::P4, seq!["supercomputers"@, "biotech_research_reports"@, "cryoprotectant_solution"@]),
    ]
}

/// The catalog: the products of the five tiers, one tier after another.
pub open spec fn product_table() -> Seq<ProductView> {
    raw_entries() + basic_entries() + refined_entries() + specialized_entries()
        + advanced_entries()
}

/// No two products of the catalog have the same name.
pub proof fn lemma_product_names_distinct()
    ensures
        distinct_keys(product_table()),
{
    reveal_strlit("aqueous_liquids");
    reveal_strlit("autotrophs");
    reveal_strlit("base_metals");
    reveal_strlit("carbon_compounds");
    reveal_strlit("complex_organisms");
    reveal_strlit("felsic_magma");
    reveal_strlit("heavy_metals");
    reveal_strlit("ionic_solutions");
    reveal_strlit("micro_organisms");
    reveal_strlit("noble_gas");
    reveal_strlit("noble_metals");
    reveal_strlit("non_cs_crystals");
    reveal_strlit("planktic_colonies");
    reveal_strlit("reactive_gas");
    reveal_strlit("suspended_plasma");
    reveal_strlit("bacteria");
    reveal_strlit("biofuels");
    reveal_strlit("biomass");
    reveal_strlit("chiral_structures");
    reveal_strlit("electrolytes");
    reveal_strlit("industrial_fibers");
    reveal_strlit("oxidizing_compound");
    reveal_strlit("oxygen");
    reveal_strlit("plasmoids");
    reveal_strlit("precious_metals");
    reveal_strlit("proteins");
    reveal_strlit("reactive_metals");
    reveal_strlit("silicon");
    reveal_strlit("toxic_metals");
    reveal_strlit("water");
    reveal_strlit("biocells");
    reveal_strlit("construction_blocks");
    reveal_strlit("consumer_electronics");
    reveal_strlit("coolant");
    reveal_strlit("enriched_uranium");
    reveal_strlit("fertilizer");
    reveal_strlit("livestock");
    reveal_strlit("mechanical_parts");
    reveal_strlit("microfiber_shielding");
    reveal_strlit("miniature_electronics");
    reveal_strlit("nanites");
    reveal_strlit("oxides");
    reveal_strlit("polyaramids");
    reveal_strlit("polytextiles");
    reveal_strlit("rocket_fuel");
    reveal_strlit("silicate_glass");
    reveal_strlit("superconductors");
    reveal_strlit("supertensile_plastics");
    reveal_strlit("synthetic_oil");
    reveal_strlit("test_cultures");
    reveal_strlit("viral_agent");
    reveal_strlit("biotech_research_reports");
    reveal_strlit("camera_drones");
    reveal_strlit("condensates");
    reveal_strlit("cryoprotectant_solution");
    reveal_strlit("data_chips");
    reveal_strlit("gel_matrix_biopaste");
    reveal_strlit("guidance_systems");
    reveal_strlit("hazmat_detection_systems");
    reveal_strlit("hermetic_membranes");
    reveal_strlit("high_tech_transmitters");
    reveal_strlit("industrial_explosives");
    reveal_strlit("neocoms");
    reveal_strlit("nuclear_reactors");
    reveal_strlit("planetary_vehicles");
    reveal_strlit("robotics");
    reveal_strlit("smartfab_units");
    reveal_strlit("supercomputers");
    reveal_strlit("synthetic_synapses");
    reveal_strlit("transcranial_microcontrollers");
    reveal_strlit("ukomi_super_conductors");
    reveal_strlit("vaccines");
    reveal_strlit("broadcast_node");
    reveal_strlit("integrity_response_drones");
    reveal_strlit("nano_factory");
    reveal_strlit("organic_mortar_applicators");
    reveal_strlit("recursive_computing_module");
    reveal_strlit("self_harmonizing_power_core");
    reveal_strlit("sterile_conduit");
    reveal_strlit("wetware_mainframe");
    let table = product_table();
    assert forall|i: int, j: int| 0 <= i < j < table.len() implies mark(table[i].name) != mark(
        table[j].name,
    ) by {}
}

/// Whether a product has an ingredient unless it is a raw material.
pub open spec fn has_recipe(p: ProductView) -> bool {
    p.tier != ProductTier::P0 ==> p.ingredients.len() > 0
}

/// Every product of the catalog above the raw materials has an ingredient.
pub open spec fn stocked(catalog: Seq<ProductView>) -> bool {
    forall|i: int| 0 <= i < catalog.len() ==> has_recipe(#[trigger] catalog[i])
}

/// Every product of the catalog above the raw materials has an ingredient.
pub proof fn lemma_product_table_stocked()
    ensures
        stocked(product_table()),
{
}

fn names2(a: &str, b: &str) -> (r: Vec<String>)
    ensures
        r.deep_view() == seq![a@, b@],
{
    let mut r: Vec<String> = Vec::new();
    r.push(a.to_string());
    r.push(b.to_string());
    assert(r.deep_view() =~= seq![a@, b@]);
    r
}

fn names3(a: &str, b: &str, c: &str) -> (r: Vec<String>)
    ensures
        r.deep_view() == seq![a@, b@, c@],
{
    let mut r: Vec<String> = Vec::new();
    r.push(a.to_string());
    r.push(b.to_string());
    r.push(c.to_string());
    assert(r.deep_view() =~= seq![a@, b@, c@]);
    r
}

fn product(name: &str, tier: ProductTier, ingredients: Vec<String>) -> (r: Product)
    ensures
        r@ == made(name@, tier, ingredients.deep_view()),
{
    Product::new(name.to_string(), tier, ingredients)
}

fn raw_material(name: &str) -> (r: Product)
    ensures
        r@ == raw(name@),
{
    Product::new_raw_material(name.to_string())
}

fn raw_materials() -> (r: Vec<Product>)
    ensures
        r.deep_view() == raw_entries(),
{
    let mut r: Vec<Product> = Vec::new();
    r.push(raw_material("aqueous_liquids"));
    r.push(raw_material("autotrophs"));
    r.push(raw_material("base_metals"));
    r.push(raw_material("carbon_compounds"));
    r.push(raw_material("complex_organisms"));
    r.push(raw_material("felsic_magma"));
    r.push(raw_material("heavy_metals"));
    r.push(raw_material("ionic_solutions"));
    r.push(raw_material("micro_organisms"));
    r.push(raw_material("noble_gas"));
    r.push(raw_material("noble_metals"));
    r.push(raw_material("non_cs_crystals"));
    r.push(raw_material("planktic_colonies"));
    r.push(raw_material("reactive_gas"));
    r.push(raw_material("suspended_plasma"));
    assert(r.deep_view() =~= raw_entries());
    r
}

fn basic_products() -> (r: Vec<Product>)
    ensures
        r.deep_view() == basic_entries(),
{
    let mut r: Vec<Product> = Vec::new();
    r.push(product("bacteria", ProductTier::P1, single("micro_organisms")));
    r.push(product("biofuels", ProductTier::P1, single("carbon_compounds")));
    r.push(product("biomass", ProductTier::P1, single("planktic_colonies")));
    r.push(product("chiral_structures", ProductTier::P1, single("non_cs_crystals")));
    r.push(product("electrolytes", ProductTier::P1, single("ionic_solutions")));
    r.push(product("industrial_fibers", ProductTier::P1, single("autotrophs")));
    r.push(product("oxidizing_compound", ProductTier::P1, single("reactive_gas")));
    r.push(product("oxygen", ProductTier::P1, single("noble_gas")));
    r.push(product("plasmoids", ProductTier::P1, single("suspended_plasma")));
    r.push(product("precious_metals", ProductTier::P1, single("noble_metals")));
    r.push(product("proteins", ProductTier::P1, single("complex_organisms")));
    r.push(product("reactive_metals", ProductTier::P1, single("base_metals")));
    r.push(product("silicon", ProductTier::P1, single("felsic_magma")));
    r.push(product("toxic_metals", ProductTier::P1, single("heavy_metals")));
    r.push(product("water", ProductTier::P1, single("aqueous_liquids")));
    assert(r.deep_view() =~= basic_entries());
    r
}

fn refined_products() -> (r: Vec<Product>)
    ensures
        r.deep_view() == refined_entries(),
{
    let mut r: Vec<Product> = Vec::new();
    r.push(product("biocells", ProductTier::P2, names2("precious_metals", "biofuels")));
    r.push(
        product(
            "construction_blocks",
            ProductTier::P2,
            names2("toxic_metals", "reactive_metals"),
        ),
    );
    r.push(
        product(
            "consumer_electronics",
            ProductTier::P2,
            names2("chiral_structures", "toxic_metals"),
        ),
    );
    r.push(product("coolant", ProductTier::P2, names2("water", "electrolytes")));
    r.push(product("enriched_uranium", ProductTier::P2, names2("toxic_metals", "precious_metals")));
    r.push(product("fertilizer", ProductTier::P2, names2("proteins", "bacteria")));
    r.push(product("livestock", ProductTier::P2, names2("biofuels", "proteins")));
    r.push(
        product(
            "mechanical_parts",
            ProductTier::P2,
            names2("precious_metals", "reactive_metals"),
        ),
    );
    r.push(
        product(
            "microfiber_shielding",
            ProductTier::P2,
            names2("silicon", "industrial_fibers"),
        ),
    );
    r.push(
        product(
            "miniature_electronics",
            ProductTier::P2,
            names2("silicon", "chiral_structures"),
        ),
    );
    r.push(product("nanites", ProductTier::P2, names2("reactive_metals", "bacteria")));
    r.push(product("oxides", ProductTier::P2, names2("oxygen", "oxidizing_compound")));
    r.push(
        product(
            "polyaramids",
            ProductTier::P2,
            names2("industrial_fibers", "oxidizing_compound"),
        ),
    );
    r.push(product("polytextiles", ProductTier::P2, names2("industrial_fibers", "biofuels")));
    r.push(product("rocket_fuel", ProductTier::P2, names2("electrolytes", "plasmoids")));
    r.push(product("silicate_glass", ProductTier::P2, names2("silicon", "oxidizing_compound")));
    r.push(product("superconductors", ProductTier::P2, names2("water", "plasmoids")));
    r.push(product("supertensile_plastics", ProductTier::P2, names2("oxygen", "biomass")));
    r.push(product("synthetic_oil", ProductTier::P2, names2("oxygen", "electrolytes")));
    r.push(product("test_cultures", ProductTier::P2, names2("water", "bacteria")));
    r.push(product("viral_agent", ProductTier::P2, names2("biomass", "bacteria")));
    assert(r.deep_view() =~= refined_entries());
    r
}

fn specialized_products() -> (r: Vec<Product>)
    ensures
        r.deep_view() == specialized_entries(),
{
    let mut r: Vec<Product> = Vec::new();
    r.push(
        product(
            "biotech_research_reports",
            ProductTier::P3,
            names3("nanites", "livestock", "construction_blocks"),
        ),
    );
    r.push(
        product(
            "camera_drones",
            ProductTier::P3,
            names3("silicate_glass", "rocket_fuel", "mechanical_parts"),
        ),
    );
    r.push(product("condensates", ProductTier::P3, names3("oxides", "coolant", "precious_metals")));
    r.push(
        product(
            "cryoprotectant_solution",
            ProductTier::P3,
            names3("synthetic_oil", "fertilizer", "polytextiles"),
        ),
    );
    r.push(
        product(
            "data_chips",
            ProductTier::P3,
            names3("nanites", "silicate_glass", "consumer_electronics"),
        ),
    );
    r.push(
        product(
            "gel_matrix_biopaste",
            ProductTier::P3,
            names3("oxides", "biocells", "industrial_fibers"),
        ),
    );
    r.push(
        product(
            "guidance_systems",
            ProductTier::P3,
            names3("consumer_electronics", "mechanical_parts", "miniature_electronics"),
        ),
    );
    r.push(
        product(
            "hazmat_detection_systems",
            ProductTier::P3,
            names3("industrial_fibers", "oxides", "microfiber_shielding"),
        ),
    );
    r.push(
        product(
            "hermetic_membranes",
            ProductTier::P3,
            names3("polytextiles", "silicate_glass", "coolant"),
        ),
    );
    r.push(
        product(
            "high_tech_transmitters",
            ProductTier::P3,
            names3("chiral_structures", "miniature_electronics", "superconductors"),
        ),
    );
    r.push(
        product(
            "industrial_explosives",
            ProductTier::P3,
            names3("fertilizer", "polytextiles", "reactive_metals"),
        ),
    );
    r.push(
        product(
            "neocoms",
            ProductTier::P3,
            names3("biocells", "construction_blocks", "microfiber_shielding"),
        ),
    );
    r.push(
        product(
            "nuclear_reactors",
            ProductTier::P3,
            names3("enriched_uranium", "microfiber_shielding", "consumer_electronics"),
        ),
    );
    r.push(
        product(
            "planetary_vehicles",
            ProductTier::P3,
            names3("rocket_fuel", "consumer_electronics", "mechanical_parts"),
        ),
    );
    r.push(
        product(
            "robotics",
            ProductTier::P3,
            names3("mechanical_parts", "consumer_electronics", "precious_metals"),
        ),
    );
    r.push(
        product(
            "smartfab_units",
            ProductTier::P3,
            names3("construction_blocks", "miniature_electronics", "nanites"),
        ),
    );
    r.push(
        product(
            "supercomputers",
            ProductTier::P3,
            names3("coolant", "consumer_electronics", "miniature_electronics"),
        ),
    );
    r.push(
        product(
            "synthetic_synapses",
            ProductTier::P3,
            names3("supertensile_plastics", "test_cultures", "biocells"),
        ),
    );
    r.push(
        product(
            "transcranial_microcontrollers",
            ProductTier::P3,
            names3("biocells", "nanites", "silicate_glass"),
        ),
    );
    r.push(
        product(
            "ukomi_super_conductors",
            ProductTier::P3,
            names3("synthetic_oil", "superconductors", "coolant"),
        ),
    );
    r.push(product("vaccines", ProductTier::P3, names2("livestock", "viral_agent")));
    assert(r.deep_view() =~= specialized_entries());
    r
}

fn advanced_products() -> (r: Vec<Product>)
    ensures
        r.deep_view() == advanced_entries(),
{
    let mut r: Vec<Product> = Vec::new();
    r.push(
        product(
            "broadcast_node",
            ProductTier::P4,
            names3("neocoms", "data_chips", "high_tech_transmitters"),
        ),
    );
    r.push(
        product(
            "integrity_response_drones",
            ProductTier::P4,
            names3("gel_matrix_biopaste", "hazmat_detection_systems", "planetary_vehicles"),
        ),
    );
    r.push(
        product(
            "nano_factory",
            ProductTier::P4,
            names3("industrial_explosives", "ukomi_super_conductors", "reactive_metals"),
        ),
    );
    r.push(
        product(
            "organic_mortar_applicators",
            ProductTier::P4,
            names3("condensates", "robotics", "bacteria"),
        ),
    );
    r.push(
        product(
            "recursive_computing_module",
            ProductTier::P4,
            names3("synthetic_synapses", "guidance_systems", "transcranial_microcontrollers"),
        ),
    );
    r.push(
        product(
            "self_harmonizing_power_core",
            ProductTier::P4,
            names3("camera_drones", "nuclear_reactors", "hermetic_membranes"),
        ),
    );
    r.push(
        product(
            "sterile_conduit",
            ProductTier::P4,
            names3("smartfab_units", "vaccines", "water"),
        ),
    );
    r.push(
        product(
            "wetware_mainframe",
            ProductTier::P4,
            names3("supercomputers", "biotech_research_reports", "cryoprotectant_solution"),
        ),
    );
    assert(r.deep_view() =~= advanced_entries());
    r
}

/// The catalog: each product once, found by its name.
pub fn create_product_database() -> (products: Vec<Product>)
    ensures
        products.deep_view() == product_table(),
        distinct_keys(products.deep_view()),
{
    let mut products: Vec<Product> = Vec::new();
    assert(products.deep_view() =~= Seq::empty());
    let raw = raw_materials();
    store_all(&mut products, &raw);
    let basic = basic_products();
    store_all(&mut products, &basic);
    let refined = refined_products();
    store_all(&mut products, &refined);
    let specialized = specialized_products();
    store_all(&mut products, &specialized);
    let advanced = advanced_products();
    store_all(&mut products, &advanced);
    proof {
        lemma_product_names_distinct();
        let t0 = Seq::<ProductView>::empty();
        let t1 = raw_entries();
        let t2 = t1 + basic_entries();
        let t3 = t2 + refined_entries();
        let t4 = t3 + specialized_entries();
        let t5 = t4 + advanced_entries();
        assert(t0 + raw_entries() =~= t1);
        lemma_distinct_prefix(t5, t4.len() as int);
        assert(t5.take(t4.len() as int) =~= t4);
        lemma_distinct_prefix(t5, t3.len() as int);
        assert(t5.take(t3.len() as int) =~= t3);
        lemma_distinct_prefix(t5, t2.len() as int);
        assert(t5.take(t2.len() as int) =~= t2);
        lemma_distinct_prefix(t5, t1.len() as int);
        assert(t5.take(t1.len() as int) =~= t1);
        lemma_upsert_all_fresh(t0, raw_entries());
        lemma_upsert_all_fresh(t1, basic_entries());
        lemma_upsert_all_fresh(t2, refined_entries());
        lemma_upsert_all_fresh(t3, specialized_entries());
        lemma_upsert_all_fresh(t4, advanced_entries());
    }
    products
}

} // verus!
