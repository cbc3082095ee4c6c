use eve_pi::catalog::{create_product_database, planet_resource_map, requires_p4_mined};
use eve_pi::domain::{
    Character, CharacterSkills, FactoryConfiguration, Planet, PlanetType, Product, ProductTier,
};
use eve_pi::factory::{
    factory_planet, factory_type_p0_to_p1, factory_type_p0_to_p2, factory_type_p1_to_p2,
    factory_type_p2_to_p4_with_mining, factory_type_p2_to_p4_without_mining,
    find_valid_factory_configurations, missing_ingredients_message, valid_planet_for_mining,
    FactoryError,
};
use eve_pi::repository::{
    CharacterRepository, MemoryRepository, PlanetRepository, ProductRepository, RepositoryError,
};
use eve_pi::solver::{Solver, SolverError};
use eve_pi::text::str_eq;

const ALL_TYPES: [PlanetType; 8] = [
    PlanetType::Barren,
    PlanetType::Gas,
    PlanetType::Ice,
    PlanetType::Lava,
    PlanetType::Oceanic,
    PlanetType::Plasma,
    PlanetType::Storm,
    PlanetType::Temperate,
];

fn operator(name: &str, planets: usize) -> Character {
    Character {
        name: name.to_string(),
        planets,
        skills: CharacterSkills {
            command_center_upgrades: 5,
            interplanetary_consolidation: 5,
            remote_sensing: None,
            planetary_production: None,
            planetology: None,
            advanced_planetology: None,
        },
    }
}

fn site(id: &str, planet_type: PlanetType) -> Planet {
    Planet {
        id: id.to_string(),
        planet_type,
        resources: Vec::new(),
    }
}

fn repository(sites: Vec<Planet>, operators: Vec<Character>) -> MemoryRepository {
    let mut repo = MemoryRepository::new();
    repo.load_planets_data(sites).unwrap();
    repo.load_characters_data(operators).unwrap();
    repo
}

fn strings(items: &[&str]) -> Vec<String> {
    items.iter().map(|s| s.to_string()).collect()
}

/// A repository over a catalog of its own, with no sites and no operators.
fn catalog_of(products: Vec<Product>) -> MemoryRepository {
    MemoryRepository::with_products(products)
}

fn made(name: &str, tier: ProductTier, ingredients: &[&str]) -> Product {
    Product::new(name.to_string(), tier, strings(ingredients))
}

#[test]
fn str_eq_compares_characters() {
    assert!(str_eq("water", "water"));
    assert!(str_eq("", ""));
    assert!(!str_eq("water", "waters"));
    assert!(!str_eq("water", "wafer"));
    assert!(!str_eq("", "a"));
    assert!(str_eq("h\u{e9}lium", "h\u{e9}lium"));
    assert!(!str_eq("h\u{e9}lium", "helium"));
}

#[test]
fn products_are_built_from_their_parts() {
    let p = Product::new(
        "coolant".to_string(),
        ProductTier::P2,
        strings(&["water", "electrolytes"]),
    );
    assert_eq!(p.name, "coolant");
    assert_eq!(p.tier, ProductTier::P2);
    assert_eq!(p.ingredients, vec!["water", "electrolytes"]);
    let raw = Product::new_raw_material("noble_gas".to_string());
    assert_eq!(raw.name, "noble_gas");
    assert_eq!(raw.tier, ProductTier::P0);
    assert!(raw.ingredients.is_empty());
    assert_eq!(p.clone(), p);
}

#[test]
fn tiers_are_ordered_by_level() {
    let tiers = [
        ProductTier::P0,
        ProductTier::P1,
        ProductTier::P2,
        ProductTier::P3,
        ProductTier::P4,
    ];
    for (i, t) in tiers.iter().enumerate() {
        assert_eq!(t.level() as usize, i);
    }
    assert!(ProductTier::P0 < ProductTier::P1);
    assert!(ProductTier::P3 < ProductTier::P4);
}

#[test]
fn three_products_need_extraction() {
    assert!(requires_p4_mined("nano_factory"));
    assert!(requires_p4_mined("organic_mortar_applicators"));
    assert!(requires_p4_mined("sterile_conduit"));
    assert!(!requires_p4_mined("broadcast_node"));
    assert!(!requires_p4_mined("wetware_mainframe"));
    assert!(!requires_p4_mined(""));
    assert!(!requires_p4_mined("nano_factor"));
}

#[test]
fn resource_table_lists_each_resource_once() {
    let map = planet_resource_map();
    assert_eq!(map.len(), 15);
    for (i, (name, _)) in map.iter().enumerate() {
        for (other, _) in map.iter().skip(i + 1) {
            assert_ne!(name, other);
        }
    }
    assert_eq!(map[0].0, "aqueous_liquids");
    assert_eq!(map[0].1, vec![PlanetType::Oceanic, PlanetType::Temperate]);
    assert_eq!(map[14].0, "suspended_plasma");
    assert_eq!(
        map[14].1,
        vec![PlanetType::Gas, PlanetType::Plasma, PlanetType::Storm]
    );
}

#[test]
fn catalog_holds_each_product_once() {
    let products = create_product_database();
    assert_eq!(products.len(), 80);
    for (i, p) in products.iter().enumerate() {
        for q in products.iter().skip(i + 1) {
            assert_ne!(p.name, q.name);
        }
    }
    let count = |tier: ProductTier| products.iter().filter(|p| p.tier == tier).count();
    assert_eq!(count(ProductTier::P0), 15);
    assert_eq!(count(ProductTier::P1), 15);
    assert_eq!(count(ProductTier::P2), 21);
    assert_eq!(count(ProductTier::P3), 21);
    assert_eq!(count(ProductTier::P4), 8);
    assert_eq!(products[0].name, "aqueous_liquids");
    assert_eq!(products[79].name, "wetware_mainframe");
    assert_eq!(
        products[79].ingredients,
        vec![
            "supercomputers",
            "biotech_research_reports",
            "cryoprotectant_solution"
        ]
    );
    for p in &products {
        assert_eq!(p.tier == ProductTier::P0, p.ingredients.is_empty());
    }
}

#[test]
fn repository_finds_products_by_name_and_tier() {
    let repo = MemoryRepository::new();
    let all = repo.get_all_products();
    assert_eq!(all.len(), 80);
    let coolant = repo.get_product_by_name("coolant").unwrap();
    assert_eq!(coolant.tier, ProductTier::P2);
    assert_eq!(coolant.ingredients, vec!["water", "electrolytes"]);
    assert!(repo.get_product_by_name("Coolant").is_none());
    let p4 = repo.get_products_by_tier(ProductTier::P4);
    let names: Vec<&str> = p4.iter().map(|p| p.name.as_str()).collect();
    assert_eq!(
        names,
        vec![
            "broadcast_node",
            "integrity_response_drones",
            "nano_factory",
            "organic_mortar_applicators",
            "recursive_computing_module",
            "self_harmonizing_power_core",
            "sterile_conduit",
            "wetware_mainframe"
        ]
    );
    assert!(repo.get_all_planets().is_empty());
    assert!(repo.get_all_characters().is_empty());
}

#[test]
fn a_site_stored_again_takes_the_place_of_the_first() {
    let mut repo = MemoryRepository::new();
    repo.load_planets_data(vec![
        site("a", PlanetType::Barren),
        site("b", PlanetType::Gas),
        site("a", PlanetType::Ice),
    ])
    .unwrap();
    let planets = repo.get_all_planets();
    assert_eq!(planets.len(), 2);
    assert_eq!(planets[0].id, "a");
    assert_eq!(planets[0].planet_type, PlanetType::Ice);
    assert_eq!(planets[1].id, "b");
    assert_eq!(repo.get_planet_by_id("b").unwrap().planet_type, PlanetType::Gas);
    assert!(repo.get_planet_by_id("c").is_none());
    repo.load_planets_data(vec![site("c", PlanetType::Lava), site("b", PlanetType::Storm)])
        .unwrap();
    let planets = repo.get_all_planets();
    let ids: Vec<&str> = planets.iter().map(|p| p.id.as_str()).collect();
    assert_eq!(ids, vec!["a", "b", "c"]);
    assert_eq!(planets[1].planet_type, PlanetType::Storm);
}

#[test]
fn an_operator_stored_again_takes_the_place_of_the_first() {
    let mut repo = MemoryRepository::new();
    repo.load_characters_data(vec![operator("x", 1), operator("y", 2), operator("x", 6)])
        .unwrap();
    let characters = repo.get_all_characters();
    assert_eq!(characters.len(), 2);
    assert_eq!(characters[0].name, "x");
    assert_eq!(characters[0].planets, 6);
    assert_eq!(repo.get_character_by_name("y").unwrap().planets, 2);
    assert!(repo.get_character_by_name("z").is_none());
}

#[test]
fn a_single_resource_passes_exactly_where_the_table_lists_it() {
    let map = planet_resource_map();
    for (resource, listed) in &map {
        for t in ALL_TYPES {
            let result = valid_planet_for_mining(t, &[*resource]);
            assert_eq!(result.is_ok(), listed.contains(&t), "{} on {:?}", resource, t);
            if let Err(err) = result {
                match err {
                    FactoryError::PlanetCannotMine {
                        planet_type,
                        resource: named,
                    } => {
                        assert_eq!(planet_type, t);
                        assert_eq!(named, *resource);
                    }
                    other => panic!("unexpected {:?}", other),
                }
            }
        }
    }
}

#[test]
fn the_first_unsupplied_resource_is_reported() {
    assert!(valid_planet_for_mining(PlanetType::Gas, &[]).is_ok());
    match valid_planet_for_mining(
        PlanetType::Gas,
        &["reactive_gas", "nowhere", "aqueous_liquids"],
    ) {
        Err(FactoryError::ProductNotFound(name)) => assert_eq!(name, "nowhere"),
        other => panic!("unexpected {:?}", other),
    }
    match valid_planet_for_mining(
        PlanetType::Gas,
        &["reactive_gas", "aqueous_liquids", "nowhere"],
    ) {
        Err(FactoryError::PlanetCannotMine {
            planet_type,
            resource,
        }) => {
            assert_eq!(planet_type, PlanetType::Gas);
            assert_eq!(resource, "aqueous_liquids");
        }
        other => panic!("unexpected {:?}", other),
    }
}

#[test]
fn a_basic_product_is_made_where_its_raw_material_is_supplied() {
    let repo = MemoryRepository::new();
    let map = planet_resource_map();
    for p in repo.get_products_by_tier(ProductTier::P1) {
        assert_eq!(p.ingredients.len(), 1);
        let listed = &map
            .iter()
            .find(|(name, _)| *name == p.ingredients[0])
            .unwrap()
            .1;
        let mut somewhere = false;
        for t in ALL_TYPES {
            let configs = find_valid_factory_configurations(&repo, t, &p.name);
            assert_eq!(!configs.is_empty(), listed.contains(&t));
            if !configs.is_empty() {
                somewhere = true;
                assert_eq!(configs.len(), 1);
                assert_eq!(configs[0].start_tier, ProductTier::P0);
                assert_eq!(configs[0].end_tier, ProductTier::P1);
                assert!(configs[0].imported_inputs.is_empty());
                assert_eq!(configs[0].mined_inputs, p.ingredients);
                assert_eq!(configs[0].outputs, vec![p.name.clone()]);
            }
        }
        assert_eq!(somewhere, !listed.is_empty());
    }
}

#[test]
fn imports_alone_make_an_advanced_product() {
    let repo = MemoryRepository::new();
    let config = factory_type_p2_to_p4_without_mining(&repo, "broadcast_node").unwrap();
    assert_eq!(config.start_tier, ProductTier::P2);
    assert_eq!(config.end_tier, ProductTier::P4);
    assert_eq!(
        config.imported_inputs,
        vec!["neocoms", "data_chips", "high_tech_transmitters"]
    );
    assert!(config.mined_inputs.is_empty());
    assert_eq!(config.outputs, vec!["broadcast_node"]);
    match factory_type_p2_to_p4_without_mining(&repo, "nano_factory") {
        Err(FactoryError::RequiresMining(name)) => assert_eq!(name, "nano_factory"),
        other => panic!("unexpected {:?}", other),
    }
    match factory_type_p2_to_p4_without_mining(&repo, "coolant") {
        Err(FactoryError::InvalidProductTier {
            product,
            expected,
            actual,
        }) => {
            assert_eq!(product, "coolant");
            assert_eq!(expected, ProductTier::P4);
            assert_eq!(actual, ProductTier::P2);
        }
        other => panic!("unexpected {:?}", other),
    }
}

#[test]
fn repeated_ingredients_are_imported_once() {
    let fixture = catalog_of(vec![
            made("a", ProductTier::P3, &[]),
            made("b", ProductTier::P1, &[]),
            made("top", ProductTier::P4, &["a", "b", "a"]),
            made("nested", ProductTier::P4, &["a", "top"]),
            made("open", ProductTier::P4, &["a", "gone"]),
        ]);
    let config = factory_type_p2_to_p4_without_mining(&fixture, "top").unwrap();
    assert_eq!(config.imported_inputs, vec!["a", "b"]);
    match factory_type_p2_to_p4_without_mining(&fixture, "nested") {
        Err(FactoryError::InvalidProductTier {
            product,
            expected,
            actual,
        }) => {
            assert_eq!(product, "top");
            assert_eq!(expected, ProductTier::P3);
            assert_eq!(actual, ProductTier::P4);
        }
        other => panic!("unexpected {:?}", other),
    }
    match factory_type_p2_to_p4_without_mining(&fixture, "open") {
        Err(FactoryError::ProductNotFound(name)) => assert_eq!(name, "gone"),
        other => panic!("unexpected {:?}", other),
    }
}

#[test]
fn the_first_raw_material_collected_is_mined() {
    let repo = MemoryRepository::new();
    let config = factory_type_p2_to_p4_with_mining(&repo, "nano_factory").unwrap();
    assert_eq!(config.start_tier, ProductTier::P2);
    assert_eq!(config.end_tier, ProductTier::P4);
    assert_eq!(config.mined_inputs, vec!["base_metals"]);
    assert_eq!(
        config.imported_inputs,
        vec![
            "industrial_explosives",
            "fertilizer",
            "proteins",
            "bacteria",
            "polytextiles",
            "industrial_fibers",
            "biofuels",
            "reactive_metals",
            "ukomi_super_conductors",
            "synthetic_oil",
            "oxygen",
            "electrolytes",
            "superconductors",
            "water",
            "plasmoids",
            "coolant"
        ]
    );
    assert_eq!(config.outputs, vec!["nano_factory"]);
    let config = factory_type_p2_to_p4_with_mining(&repo, "organic_mortar_applicators").unwrap();
    assert_eq!(config.mined_inputs, vec!["noble_metals"]);
    assert!(config.imported_inputs.contains(&"micro_organisms".to_string()));
    assert!(!config.imported_inputs.contains(&"noble_metals".to_string()));
    let config = factory_type_p2_to_p4_with_mining(&repo, "sterile_conduit").unwrap();
    assert_eq!(config.mined_inputs, vec!["aqueous_liquids"]);
    assert_eq!(config.imported_inputs.len(), 16);
    assert_eq!(config.imported_inputs[0], "smartfab_units");
    assert_eq!(config.imported_inputs[15], "water");
}

#[test]
fn a_basic_product_gives_way_to_its_raw_material() {
    let fixture = catalog_of(vec![
            made("ore", ProductTier::P0, &[]),
            made("metal", ProductTier::P1, &["ore"]),
            made("alloy", ProductTier::P1, &["ore", "ore"]),
            made("part", ProductTier::P3, &[]),
            made("nano_factory", ProductTier::P4, &["part", "alloy", "metal"]),
        ]);
    let config = factory_type_p2_to_p4_with_mining(&fixture, "nano_factory").unwrap();
    assert_eq!(config.mined_inputs, vec!["ore"]);
    assert_eq!(config.imported_inputs, vec!["part", "alloy", "metal"]);

    let fixture = catalog_of(vec![
            made("ore", ProductTier::P0, &[]),
            made("metal", ProductTier::P1, &["ore"]),
            made("part", ProductTier::P3, &[]),
            made("nano_factory", ProductTier::P4, &["part", "metal"]),
        ]);
    let config = factory_type_p2_to_p4_with_mining(&fixture, "nano_factory").unwrap();
    assert_eq!(config.mined_inputs, vec!["ore"]);
    assert_eq!(config.imported_inputs, vec!["part", "metal"]);

    let fixture = catalog_of(vec![
            made("metal", ProductTier::P1, &["ore"]),
            made("part", ProductTier::P3, &[]),
            made("nano_factory", ProductTier::P4, &["part", "metal"]),
        ]);
    let config = factory_type_p2_to_p4_with_mining(&fixture, "nano_factory");
    assert!(matches!(config, Err(FactoryError::NoMinableResource)));
}

#[test]
fn extraction_strategy_says_why_it_does_not_apply() {
    let repo = MemoryRepository::new();
    match factory_type_p2_to_p4_with_mining(&repo, "broadcast_node") {
        Err(FactoryError::DoesNotRequireMining(name)) => assert_eq!(name, "broadcast_node"),
        other => panic!("unexpected {:?}", other),
    }
    match factory_type_p2_to_p4_with_mining(&repo, "nowhere") {
        Err(FactoryError::ProductNotFound(name)) => assert_eq!(name, "nowhere"),
        other => panic!("unexpected {:?}", other),
    }
    let fixture = catalog_of(vec![
            made("nano_factory", ProductTier::P2, &[]),
            made("sterile_conduit", ProductTier::P4, &["nano_factory", "sterile_conduit"]),
            made("organic_mortar_applicators", ProductTier::P4, &["gone"]),
        ]);
    match factory_type_p2_to_p4_with_mining(&fixture, "nano_factory") {
        Err(FactoryError::InvalidProductTier {
            product,
            expected,
            actual,
        }) => {
            assert_eq!(product, "nano_factory");
            assert_eq!(expected, ProductTier::P4);
            assert_eq!(actual, ProductTier::P2);
        }
        other => panic!("unexpected {:?}", other),
    }
    match factory_type_p2_to_p4_with_mining(&fixture, "sterile_conduit") {
        Err(FactoryError::InvalidProductTier {
            product,
            expected,
            actual,
        }) => {
            assert_eq!(product, "sterile_conduit");
            assert_eq!(expected, ProductTier::P3);
            assert_eq!(actual, ProductTier::P4);
        }
        other => panic!("unexpected {:?}", other),
    }
    match factory_type_p2_to_p4_with_mining(&fixture, "organic_mortar_applicators") {
        Err(FactoryError::ProductNotFound(name)) => assert_eq!(name, "gone"),
        other => panic!("unexpected {:?}", other),
    }
}

#[test]
fn raw_materials_of_a_refined_product_are_all_mined() {
    let repo = MemoryRepository::new();
    let config = factory_type_p0_to_p2(&repo, "coolant").unwrap();
    assert_eq!(config.start_tier, ProductTier::P0);
    assert_eq!(config.end_tier, ProductTier::P2);
    assert!(config.imported_inputs.is_empty());
    assert_eq!(config.mined_inputs, vec!["aqueous_liquids", "ionic_solutions"]);
    assert_eq!(config.outputs, vec!["coolant"]);
    match factory_type_p0_to_p2(&repo, "water") {
        Err(FactoryError::InvalidProductTier {
            product,
            expected,
            actual,
        }) => {
            assert_eq!(product, "water");
            assert_eq!(expected, ProductTier::P2);
            assert_eq!(actual, ProductTier::P1);
        }
        other => panic!("unexpected {:?}", other),
    }
    let fixture = catalog_of(vec![
            made("ore", ProductTier::P0, &[]),
            made("metal", ProductTier::P1, &["ore", "ore"]),
            made("odd", ProductTier::P1, &["metal"]),
            made("twice", ProductTier::P2, &["metal", "metal"]),
            made("mixed", ProductTier::P2, &["metal", "ore"]),
            made("deep", ProductTier::P2, &["metal", "odd"]),
        ]);
    let config = factory_type_p0_to_p2(&fixture, "twice").unwrap();
    assert_eq!(config.mined_inputs, vec!["ore", "ore", "ore", "ore"]);
    match factory_type_p0_to_p2(&fixture, "mixed") {
        Err(FactoryError::InvalidProductTier {
            product,
            expected,
            actual,
        }) => {
            assert_eq!(product, "ore");
            assert_eq!(expected, ProductTier::P1);
            assert_eq!(actual, ProductTier::P0);
        }
        other => panic!("unexpected {:?}", other),
    }
    match factory_type_p0_to_p2(&fixture, "deep") {
        Err(FactoryError::InvalidProductTier {
            product,
            expected,
            actual,
        }) => {
            assert_eq!(product, "metal");
            assert_eq!(expected, ProductTier::P0);
            assert_eq!(actual, ProductTier::P1);
        }
        other => panic!("unexpected {:?}", other),
    }
}

#[test]
fn imports_must_cover_the_ingredients() {
    let repo = MemoryRepository::new();
    let config =
        factory_type_p1_to_p2(&repo, &["electrolytes", "water", "oxygen"], &["coolant"]).unwrap();
    assert_eq!(config.start_tier, ProductTier::P1);
    assert_eq!(config.end_tier, ProductTier::P2);
    assert_eq!(config.imported_inputs, vec!["electrolytes", "water", "oxygen"]);
    assert!(config.mined_inputs.is_empty());
    assert_eq!(config.outputs, vec!["coolant"]);
    match factory_type_p1_to_p2(&repo, &["oxygen"], &["synthetic_oil", "coolant"]) {
        Err(FactoryError::MissingIngredients { product, missing }) => {
            assert_eq!(product, "synthetic_oil");
            assert_eq!(missing, vec!["electrolytes"]);
        }
        other => panic!("unexpected {:?}", other),
    }
    match factory_type_p1_to_p2(&repo, &[], &["coolant"]) {
        Err(FactoryError::MissingIngredients { product, missing }) => {
            assert_eq!(product, "coolant");
            assert_eq!(missing, vec!["water", "electrolytes"]);
        }
        other => panic!("unexpected {:?}", other),
    }
    match factory_type_p1_to_p2(&repo, &["water", "coolant"], &["coolant"]) {
        Err(FactoryError::InvalidProductTier {
            product,
            expected,
            actual,
        }) => {
            assert_eq!(product, "coolant");
            assert_eq!(expected, ProductTier::P1);
            assert_eq!(actual, ProductTier::P2);
        }
        other => panic!("unexpected {:?}", other),
    }
    match factory_type_p1_to_p2(&repo, &["water"], &["water"]) {
        Err(FactoryError::InvalidProductTier {
            product,
            expected,
            actual,
        }) => {
            assert_eq!(product, "water");
            assert_eq!(expected, ProductTier::P2);
            assert_eq!(actual, ProductTier::P1);
        }
        other => panic!("unexpected {:?}", other),
    }
    let config = factory_type_p1_to_p2(&repo, &["water"], &[]).unwrap();
    assert!(config.outputs.is_empty());
}

#[test]
fn each_basic_product_comes_from_the_raw_material_at_its_position() {
    let repo = MemoryRepository::new();
    let config = factory_type_p0_to_p1(
        &repo,
        &["aqueous_liquids", "noble_gas"],
        &["water", "oxygen"],
    )
    .unwrap();
    assert_eq!(config.mined_inputs, vec!["aqueous_liquids", "noble_gas"]);
    assert_eq!(config.outputs, vec!["water", "oxygen"]);
    assert!(matches!(
        factory_type_p0_to_p1(&repo, &["aqueous_liquids"], &[]),
        Err(FactoryError::InputOutputMismatch)
    ));
    match factory_type_p0_to_p1(&repo, &["noble_gas", "aqueous_liquids"], &["oxygen", "oxygen"]) {
        Err(FactoryError::MissingIngredients { product, missing }) => {
            assert_eq!(product, "oxygen");
            assert_eq!(missing, vec!["aqueous_liquids"]);
        }
        other => panic!("unexpected {:?}", other),
    }
    match factory_type_p0_to_p1(&repo, &["water"], &["water"]) {
        Err(FactoryError::InvalidProductTier {
            product,
            expected,
            actual,
        }) => {
            assert_eq!(product, "water");
            assert_eq!(expected, ProductTier::P0);
            assert_eq!(actual, ProductTier::P1);
        }
        other => panic!("unexpected {:?}", other),
    }
    match factory_type_p0_to_p1(&repo, &["noble_gas"], &["noble_gas"]) {
        Err(FactoryError::InvalidProductTier {
            product,
            expected,
            actual,
        }) => {
            assert_eq!(product, "noble_gas");
            assert_eq!(expected, ProductTier::P1);
            assert_eq!(actual, ProductTier::P0);
        }
        other => panic!("unexpected {:?}", other),
    }
    let empty: [&str; 0] = [];
    let config = factory_type_p0_to_p1(&repo, &empty, &empty).unwrap();
    assert!(config.mined_inputs.is_empty());
}

fn summary(configs: &[FactoryConfiguration]) -> Vec<(ProductTier, ProductTier, usize, usize)> {
    configs
        .iter()
        .map(|c| {
            (
                c.start_tier,
                c.end_tier,
                c.imported_inputs.len(),
                c.mined_inputs.len(),
            )
        })
        .collect()
}

#[test]
fn strategies_come_in_their_order() {
    let repo = MemoryRepository::new();
    let configs = find_valid_factory_configurations(&repo, PlanetType::Barren, "construction_blocks");
    assert_eq!(
        summary(&configs),
        vec![
            (ProductTier::P0, ProductTier::P2, 0, 2),
            (ProductTier::P1, ProductTier::P2, 2, 0)
        ]
    );
    assert_eq!(configs[0].mined_inputs, vec!["heavy_metals", "base_metals"]);
    assert_eq!(configs[1].imported_inputs, vec!["toxic_metals", "reactive_metals"]);
    let configs = find_valid_factory_configurations(&repo, PlanetType::Gas, "construction_blocks");
    assert_eq!(summary(&configs), vec![(ProductTier::P1, ProductTier::P2, 2, 0)]);
    let configs = find_valid_factory_configurations(&repo, PlanetType::Ice, "broadcast_node");
    assert_eq!(summary(&configs), vec![(ProductTier::P2, ProductTier::P4, 3, 0)]);
    let configs = find_valid_factory_configurations(&repo, PlanetType::Lava, "nano_factory");
    assert_eq!(summary(&configs), vec![(ProductTier::P2, ProductTier::P4, 16, 1)]);
    let configs = find_valid_factory_configurations(&repo, PlanetType::Ice, "nano_factory");
    assert!(configs.is_empty());
    assert!(find_valid_factory_configurations(&repo, PlanetType::Ice, "noble_gas").is_empty());
    assert!(find_valid_factory_configurations(&repo, PlanetType::Ice, "robotics").is_empty());
    assert!(find_valid_factory_configurations(&repo, PlanetType::Ice, "nowhere").is_empty());
    for t in ALL_TYPES {
        let a = find_valid_factory_configurations(&repo, t, "coolant");
        let b = factory_planet(&repo, t, "coolant");
        assert_eq!(summary(&a), summary(&b));
    }
}

#[test]
fn water_is_made_on_one_oceanic_site() {
    let repo = repository(vec![site("ocean", PlanetType::Oceanic)], vec![operator("pilot", 1)]);
    let plan = Solver::new(&repo).solve("water").unwrap();
    assert_eq!(plan.assignments.len(), 1);
    let a = &plan.assignments[0];
    assert_eq!(a.character, "pilot");
    assert_eq!(a.planet, "ocean");
    assert_eq!(a.planet_type, PlanetType::Oceanic);
    assert!(a.imported_inputs.is_empty());
    assert_eq!(a.mined_inputs, vec!["aqueous_liquids"]);
    assert_eq!(a.output, "water");
}

#[test]
fn coolant_takes_a_site_for_each_required_product() {
    let repo = repository(
        vec![
            site("ocean", PlanetType::Oceanic),
            site("storm", PlanetType::Storm),
            site("rock", PlanetType::Barren),
        ],
        vec![operator("pilot", 3)],
    );
    let plan = Solver::new(&repo).solve("coolant").unwrap();
    let made: Vec<(&str, &str)> = plan
        .assignments
        .iter()
        .map(|a| (a.output.as_str(), a.planet.as_str()))
        .collect();
    assert_eq!(
        made,
        vec![("coolant", "rock"), ("water", "ocean"), ("electrolytes", "storm")]
    );
    assert_eq!(plan.assignments[0].imported_inputs, vec!["water", "electrolytes"]);
    assert!(plan.assignments[0].mined_inputs.is_empty());
    assert_eq!(plan.assignments[1].mined_inputs, vec!["aqueous_liquids"]);
    assert_eq!(plan.assignments[2].mined_inputs, vec!["ionic_solutions"]);
    for a in &plan.assignments {
        assert_eq!(a.character, "pilot");
        for import in &a.imported_inputs {
            assert!(plan.assignments.iter().any(|b| b.output == *import));
        }
    }
}

#[test]
fn two_sites_are_too_few_for_coolant() {
    let repo = repository(
        vec![site("ocean", PlanetType::Oceanic), site("storm", PlanetType::Storm)],
        vec![operator("pilot", 2)],
    );
    match Solver::new(&repo).solve("coolant") {
        Err(SolverError::NoSolutionFound(message)) => {
            assert_eq!(message, "Could not find a complete solution for coolant");
        }
        other => panic!("unexpected {:?}", other),
    }
}

#[test]
fn a_product_made_from_raw_materials_on_site_requires_nothing_else() {
    let repo = repository(vec![site("rock", PlanetType::Barren)], vec![operator("pilot", 1)]);
    let plan = Solver::new(&repo).solve("construction_blocks").unwrap();
    assert_eq!(plan.assignments.len(), 1);
    assert_eq!(plan.assignments[0].mined_inputs, vec!["heavy_metals", "base_metals"]);
    assert!(plan.assignments[0].imported_inputs.is_empty());
    let repo = repository(vec![site("gas", PlanetType::Gas)], vec![operator("pilot", 1)]);
    assert!(matches!(
        Solver::new(&repo).solve("construction_blocks"),
        Err(SolverError::NoSolutionFound(_))
    ));
}

#[test]
fn an_unknown_target_is_not_found() {
    let repo = repository(vec![site("ocean", PlanetType::Oceanic)], vec![operator("pilot", 1)]);
    match Solver::new(&repo).solve("nowhere") {
        Err(SolverError::ProductNotFound(name)) => assert_eq!(name, "nowhere"),
        other => panic!("unexpected {:?}", other),
    }
}

#[test]
fn an_operator_without_capacity_finds_no_plan() {
    let repo = repository(vec![site("ocean", PlanetType::Oceanic)], vec![operator("pilot", 0)]);
    assert!(matches!(
        Solver::new(&repo).solve("water"),
        Err(SolverError::NoSolutionFound(_))
    ));
    let repo = repository(vec![site("ocean", PlanetType::Oceanic)], Vec::new());
    assert!(matches!(
        Solver::new(&repo).solve("water"),
        Err(SolverError::NoSolutionFound(_))
    ));
}

#[test]
fn sites_of_the_wrong_kind_find_no_plan() {
    let repo = repository(
        vec![site("a", PlanetType::Barren), site("b", PlanetType::Lava)],
        vec![operator("pilot", 5)],
    );
    assert!(matches!(
        Solver::new(&repo).solve("water"),
        Err(SolverError::NoSolutionFound(_))
    ));
}

#[test]
fn a_product_without_any_configuration_stops_the_solve() {
    let repo = repository(vec![site("a", PlanetType::Barren)], vec![operator("pilot", 5)]);
    match Solver::new(&repo).solve("noble_gas") {
        Err(SolverError::NoSolutionFound(message)) => {
            assert_eq!(message, "No factory configuration found for product: noble_gas");
        }
        other => panic!("unexpected {:?}", other),
    }
    match Solver::new(&repo).solve("broadcast_node") {
        Err(SolverError::NoSolutionFound(message)) => {
            assert_eq!(message, "No factory configuration found for product: neocoms");
        }
        other => panic!("unexpected {:?}", other),
    }
}

#[test]
fn the_search_goes_back_on_an_assignment_that_leads_nowhere() {
    let repo = repository(
        vec![
            site("ocean", PlanetType::Oceanic),
            site("storm", PlanetType::Storm),
            site("rock", PlanetType::Barren),
        ],
        vec![operator("first", 1), operator("second", 2)],
    );
    let plan = Solver::new(&repo).solve("coolant").unwrap();
    let made: Vec<(&str, &str, &str)> = plan
        .assignments
        .iter()
        .map(|a| (a.output.as_str(), a.planet.as_str(), a.character.as_str()))
        .collect();
    assert_eq!(
        made,
        vec![
            ("coolant", "rock", "first"),
            ("water", "ocean", "second"),
            ("electrolytes", "storm", "second")
        ]
    );
}

#[test]
fn no_site_twice_and_no_operator_over_capacity() {
    let repo = repository(
        vec![
            site("s1", PlanetType::Temperate),
            site("s2", PlanetType::Gas),
            site("s3", PlanetType::Oceanic),
            site("s4", PlanetType::Storm),
            site("s5", PlanetType::Barren),
            site("s6", PlanetType::Temperate),
        ],
        vec![operator("a", 1), operator("b", 2), operator("c", 0), operator("d", 3)],
    );
    for target in ["coolant", "livestock", "test_cultures", "fertilizer"] {
        let plan = Solver::new(&repo).solve(target).unwrap();
        assert!(plan.assignments.iter().any(|a| a.output == target));
        for (i, a) in plan.assignments.iter().enumerate() {
            for b in plan.assignments.iter().skip(i + 1) {
                assert_ne!(a.planet, b.planet);
            }
            let count = plan
                .assignments
                .iter()
                .filter(|b| b.character == a.character)
                .count();
            assert!(count <= repo.get_character_by_name(&a.character).unwrap().planets);
            assert!(!a.imported_inputs.is_empty() || !a.mined_inputs.is_empty());
            let site = repo.get_planet_by_id(&a.planet).unwrap();
            assert_eq!(site.planet_type, a.planet_type);
        }
    }
}

#[test]
fn the_same_inputs_give_the_same_plan() {
    let build = || {
        repository(
            vec![
                site("s1", PlanetType::Temperate),
                site("s2", PlanetType::Gas),
                site("s3", PlanetType::Oceanic),
                site("s4", PlanetType::Storm),
                site("s5", PlanetType::Barren),
            ],
            vec![operator("a", 2), operator("b", 3)],
        )
    };
    let first = build();
    let second = build();
    for target in ["coolant", "water", "nowhere", "robotics", "oxides"] {
        let x = Solver::new(&first).solve(target);
        let y = Solver::new(&second).solve(target);
        let z = Solver::new(&first).solve(target);
        assert_eq!(format!("{:?}", x), format!("{:?}", y));
        assert_eq!(format!("{:?}", x), format!("{:?}", z));
    }
}

#[test]
fn a_repository_error_becomes_a_solver_error() {
    let err = SolverError::from(RepositoryError::InvalidData("bad".to_string()));
    match err {
        SolverError::RepositoryError(RepositoryError::InvalidData(message)) => {
            assert_eq!(message, "bad");
        }
        other => panic!("unexpected {:?}", other),
    }
}

#[test]
fn errors_say_what_went_wrong() {
    let repo = MemoryRepository::new();
    let cases: Vec<(FactoryError, &str)> = vec![
        (
            factory_type_p0_to_p2(&repo, "nowhere").unwrap_err(),
            "Product not found: nowhere",
        ),
        (
            factory_type_p0_to_p2(&repo, "water").unwrap_err(),
            "Product water has incorrect tier: expected P2, got P1",
        ),
        (
            factory_type_p1_to_p2(&repo, &[], &["coolant"]).unwrap_err(),
            "Product coolant is missing ingredients: [\"water\", \"electrolytes\"]",
        ),
        (
            factory_type_p2_to_p4_without_mining(&repo, "nano_factory").unwrap_err(),
            "Product nano_factory requires mining which is not supported",
        ),
        (
            factory_type_p2_to_p4_with_mining(&repo, "broadcast_node").unwrap_err(),
            "Product broadcast_node does not require mining",
        ),
        (
            FactoryError::NoMinableResource,
            "No minable resource found in the production chain",
        ),
        (
            factory_type_p0_to_p1(&repo, &["noble_gas"], &[]).unwrap_err(),
            "Number of inputs does not match number of outputs",
        ),
        (
            valid_planet_for_mining(PlanetType::Temperate, &["noble_gas"]).unwrap_err(),
            "Planet type Temperate cannot mine resource noble_gas",
        ),
    ];
    for (err, expected) in cases {
        assert_eq!(err.message(), expected);
    }
    for t in ALL_TYPES {
        assert_eq!(t.label(), format!("{:?}", t));
    }
    for t in [
        ProductTier::P0,
        ProductTier::P1,
        ProductTier::P2,
        ProductTier::P3,
        ProductTier::P4,
    ] {
        assert_eq!(t.label(), format!("{:?}", t));
    }
    let quoted = FactoryError::MissingIngredients {
        product: "x".to_string(),
        missing: vec!["a\"b".to_string()],
    };
    assert_eq!(quoted.message(), "Product x is missing ingredients: [\"a\\\"b\"]");
}

#[test]
fn repository_errors_say_what_went_wrong() {
    assert_eq!(
        RepositoryError::DeserializationError("eof".to_string()).message(),
        "Failed to deserialize data: eof"
    );
    assert_eq!(
        RepositoryError::ProductNotFound("water".to_string()).message(),
        "Product not found: water"
    );
    assert_eq!(
        RepositoryError::InvalidData("empty".to_string()).message(),
        "Invalid data: empty"
    );
}

#[test]
fn missing_ingredients_are_named_after_the_product() {
    assert_eq!(
        missing_ingredients_message("coolant", "[\"water\"]"),
        "Product coolant is missing ingredients: [\"water\"]"
    );
    assert_eq!(
        missing_ingredients_message("", ""),
        "Product  is missing ingredients: "
    );
    assert_eq!(
        missing_ingredients_message("x", "y"),
        "Product x is missing ingredients: y"
    );
}

#[test]
fn a_failed_solve_leaves_the_next_solve_as_it_would_be() {
    let repo = repository(
        vec![site("O1", PlanetType::Oceanic), site("T1", PlanetType::Temperate)],
        vec![operator("C", 1)],
    );
    let solver = Solver::new(&repo);
    assert!(matches!(
        solver.solve("test_cultures"),
        Err(SolverError::NoSolutionFound(_))
    ));
    let plan = solver.solve("water").unwrap();
    assert_eq!(plan.assignments.len(), 1);
    assert_eq!(plan.assignments[0].planet, "O1");
    assert_eq!(plan.assignments[0].character, "C");
}

#[test]
fn one_operator_takes_both_sites_in_the_order_of_the_products() {
    let repo = repository(
        vec![site("O1", PlanetType::Oceanic), site("T1", PlanetType::Temperate)],
        vec![operator("C", 2)],
    );
    let plan = Solver::new(&repo).solve("test_cultures");
    assert!(matches!(plan, Err(SolverError::NoSolutionFound(_))));
    let repo = repository(
        vec![
            site("B1", PlanetType::Barren),
            site("O1", PlanetType::Oceanic),
            site("T1", PlanetType::Temperate),
        ],
        vec![operator("C", 3)],
    );
    let plan = Solver::new(&repo).solve("test_cultures").unwrap();
    let made: Vec<(&str, &str, &str)> = plan
        .assignments
        .iter()
        .map(|a| (a.output.as_str(), a.planet.as_str(), a.character.as_str()))
        .collect();
    assert_eq!(
        made,
        vec![
            ("test_cultures", "B1", "C"),
            ("water", "O1", "C"),
            ("bacteria", "T1", "C")
        ]
    );
}
