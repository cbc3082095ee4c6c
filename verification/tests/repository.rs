use eve_pi::domain::{Character, CharacterSkills, Planet, PlanetType};
use eve_pi::repository::{CharacterRepository, MemoryRepository, PlanetRepository};

fn planet(id: &str, planet_type: PlanetType, resources: &[&str]) -> Planet {
    Planet {
        id: id.to_string(),
        planet_type,
        resources: resources.iter().map(|s| s.to_string()).collect(),
    }
}

#[test]
fn test_load_planets_basic() {
    let mut repo = MemoryRepository::new();

    let planets = vec![planet(
        "planet_1",
        PlanetType::Barren,
        &["base_metals", "heavy_metals"],
    )];

    let result = repo.load_planets_data(planets);
    assert!(result.is_ok(), "Failed to load basic planets: {:?}", result);

    let planets = repo.get_all_planets();
    assert_eq!(planets.len(), 1);
    assert_eq!(planets[0].id, "planet_1");
}

#[test]
fn test_load_planets_from_frontend() {
    let mut repo = MemoryRepository::new();

    let planets = vec![
        planet(
            "planet_1",
            PlanetType::Barren,
            &["base_metals", "heavy_metals", "noble_metals", "chiral_structures"],
        ),
        planet(
            "planet_3",
            PlanetType::Temperate,
            &[
                "aqueous_liquids",
                "carbon_compounds",
                "complex_organisms",
                "micro_organisms",
                "autotrophs",
            ],
        ),
        planet(
            "planet_4",
            PlanetType::Gas,
            &[
                "carbon_compounds",
                "ionic_solutions",
                "noble_gas",
                "reactive_gas",
                "suspended_plasma",
            ],
        ),
        planet(
            "planet_5",
            PlanetType::Oceanic,
            &["aqueous_liquids", "micro_organisms", "planktic_colonies"],
        ),
    ];

    let result = repo.load_planets_data(planets);
    assert!(
        result.is_ok(),
        "Failed to load frontend planets: {:?}",
        result
    );

    let planets = repo.get_all_planets();
    assert_eq!(planets.len(), 4);

    // Verify specific planets
    let planet_1 = repo.get_planet_by_id("planet_1").unwrap();
    assert_eq!(planet_1.planet_type, PlanetType::Barren);
    assert_eq!(planet_1.resources.len(), 4);

    let planet_3 = repo.get_planet_by_id("planet_3").unwrap();
    assert_eq!(planet_3.planet_type, PlanetType::Temperate);
    assert_eq!(planet_3.resources.len(), 5);
}

#[test]
fn test_load_characters_basic() {
    let mut repo = MemoryRepository::new();

    let characters = vec![Character {
        name: "test_character".to_string(),
        planets: 5,
        skills: CharacterSkills {
            command_center_upgrades: 5,
            interplanetary_consolidation: 5,
            remote_sensing: Some(4),
            planetary_production: Some(3),
            planetology: Some(2),
            advanced_planetology: Some(1),
        },
    }];

    let result = repo.load_characters_data(characters);
    assert!(result.is_ok(), "Failed to load characters: {:?}", result);

    let characters = repo.get_all_characters();
    assert_eq!(characters.len(), 1);
    assert_eq!(characters[0].name, "test_character");
    assert_eq!(characters[0].skills.command_center_upgrades, 5);
    assert_eq!(characters[0].skills.remote_sensing, Some(4));
}
