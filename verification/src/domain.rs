//! The records of a production chain: products and their tiers, sites,
//! operators, production strategies and plans.

use crate::keyed::Keyed;
use crate::text::clone_strings;
use vstd::prelude::*;

verus! {

/// The rank of a product in the chain, from raw material to the most refined.
#[derive(Debug, Clone, Copy, PartialEq, Eq, Hash, PartialOrd, Ord, Structural)]
pub enum ProductTier {
    P0,
    P1,
    P2,
    P3,
    P4,
}

impl ProductTier {
    /// The tier as a number, 0 for raw materials up to 4.
    pub open spec fn rank(self) -> nat {
        match self {
            ProductTier::P0 => 0,
            ProductTier::P1 => 1,
            ProductTier::P2 => 2,
            ProductTier::P3 => 3,
            ProductTier::P4 => 4,
        }
    }

    /// The tier as a number, 0 for raw materials up to 4.
    pub fn level(&self) -> (r: u8)
        ensures
            r == self.rank(),
    {
        match self {
            ProductTier::P0 => 0,
            ProductTier::P1 => 1,
            ProductTier::P2 => 2,
            ProductTier::P3 => 3,
            ProductTier::P4 => 4,
        }
    }
}

impl ProductTier {
    /// The name of the tier.
    pub open spec fn name(self) -> Seq<char> {
        match self {
            ProductTier::P0 => "P0"@,
            ProductTier::P1 => "P1"@,
            ProductTier::P2 => "P2"@,
            ProductTier::P3 => "P3"@,
            ProductTier::P4 => "P4"@,
        }
    }

    /// The name of the tier.
    pub fn label(&self) -> (r: &'static str)
        ensures
            r@ == self.name(),
    {
        match self {
            ProductTier::P0 => "P0",
            ProductTier::P1 => "P1",
            ProductTier::P2 => "P2",
            ProductTier::P3 => "P3",
            ProductTier::P4 => "P4",
        }
    }
}

/// The kind of a site. What can be extracted on a site depends on its kind alone.
#[derive(Debug, Clone, Copy, PartialEq, Eq, Hash, Structural)]
pub enum PlanetType {
    Barren,
    Gas,
    Ice,
    Lava,
    Oceanic,
    Plasma,
    Storm,
    Temperate,
}

impl PlanetType {
    /// The name of the kind.
    pub open spec fn name(self) -> Seq<char> {
        match self {
            PlanetType::Barren => "Barren"@,
            PlanetType::Gas => "Gas"@,
            PlanetType::Ice => "Ice"@,
            PlanetType::Lava => "Lava"@,
            PlanetType::Oceanic => "Oceanic"@,
            PlanetType::Plasma => "Plasma"@,
            PlanetType::Storm => "Storm"@,
            PlanetType::Temperate => "Temperate"@,
        }
    }

    /// The name of the kind.
    pub fn label(&self) -> (r: &'static str)
        ensures
            r@ == self.name(),
    {
        match self {
            PlanetType::Barren => "Barren",
            PlanetType::Gas => "Gas",
            PlanetType::Ice => "Ice",
            PlanetType::Lava => "Lava",
            PlanetType::Oceanic => "Oceanic",
            PlanetType::Plasma => "Plasma",
            PlanetType::Storm => "Storm",
            PlanetType::Temperate => "Temperate",
        }
    }
}

impl DeepView for PlanetType {
    type V = PlanetType;

    open spec fn deep_view(&self) -> PlanetType {
        *self
    }
}

/// A product of the chain, with the names of the products it is made from.
#[derive(Debug, PartialEq, Eq, Hash)]
pub struct Product {
    pub name: String,
    pub tier: ProductTier,
    pub ingredients: Vec<String>,
}

/// A product as the contracts see it.
pub struct ProductView {
    pub name: Seq<char>,
    pub tier: ProductTier,
    pub ingredients: Seq<Seq<char>>,
}

impl View for Product {
    type V = ProductView;

    open spec fn view(&self) -> ProductView {
        ProductView {
            name: self.name@,
            tier: self.tier,
            ingredients: self.ingredients.deep_view(),
        }
    }
}

impl DeepView for Product {
    type V = ProductView;

    open spec fn deep_view(&self) -> ProductView {
        self.view()
    }
}

impl Keyed for ProductView {
    open spec fn key(self) -> Seq<char> {
        self.name
    }
}

impl Clone for Product {
    fn clone(&self) -> (r: Self)
        ensures
            r@ == self@,
    {
        Product {
            name: self.name.clone(),
            tier: self.tier,
            ingredients: clone_strings(&self.ingredients),
        }
    }
}

impl Product {
    /// A product of the given tier made from the given ingredients.
    pub fn new(name: String, tier: ProductTier, ingredients: Vec<String>) -> (r: Self)
        ensures
            r@ == (ProductView { name: name@, tier, ingredients: ingredients.deep_view() }),
    {
        Self { name, tier, ingredients }
    }

    /// A raw material: tier P0 and no ingredients.
    pub fn new_raw_material(name: String) -> (r: Self)
        ensures
            r@ == (ProductView { name: name@, tier: ProductTier::P0, ingredients: Seq::empty() }),
    {
        let r = Self { name, tier: ProductTier::P0, ingredients: Vec::new() };
        assert(r@.ingredients =~= Seq::empty());
        r
    }
}

/// A production site. `resources` records what is present on the site; the
/// strategies go by the kind of the site alone.
#[derive(Debug)]
pub struct Planet {
    pub id: String,
    pub planet_type: PlanetType,
    pub resources: Vec<String>,
}

/// A site as the contracts see it.
pub struct PlanetView {
    pub id: Seq<char>,
    pub planet_type: PlanetType,
    pub resources: Seq<Seq<char>>,
}

impl View for Planet {
    type V = PlanetView;

    open spec fn view(&self) -> PlanetView {
        PlanetView {
            id: self.id@,
            planet_type: self.planet_type,
            resources: self.resources.deep_view(),
        }
    }
}

impl DeepView for Planet {
    type V = PlanetView;

    open spec fn deep_view(&self) -> PlanetView {
        self.view()
    }
}

impl Keyed for PlanetView {
    open spec fn key(self) -> Seq<char> {
        self.id
    }
}

impl Clone for Planet {
    fn clone(&self) -> (r: Self)
        ensures
            r@ == self@,
    {
        Planet {
            id: self.id.clone(),
            planet_type: self.planet_type,
            resources: clone_strings(&self.resources),
        }
    }
}

/// Skill levels of an operator.
#[derive(Debug, Clone, Copy)]
pub struct CharacterSkills {
    pub command_center_upgrades: u8,
    pub interplanetary_consolidation: u8,
    pub remote_sensing: Option<u8>,
    pub planetary_production: Option<u8>,
    pub planetology: Option<u8>,
    pub advanced_planetology: Option<u8>,
}

/// An operator, who can supervise at most `planets` sites.
#[derive(Debug)]
pub struct Character {
    pub name: String,
    pub planets: usize,
    pub skills: CharacterSkills,
}

/// An operator as the contracts see it.
pub struct CharacterView {
    pub name: Seq<char>,
    pub planets: nat,
    pub skills: CharacterSkills,
}

impl View for Character {
    type V = CharacterView;

    open spec fn view(&self) -> CharacterView {
        CharacterView { name: self.name@, planets: self.planets as nat, skills: self.skills }
    }
}

impl DeepView for Character {
    type V = CharacterView;

    open spec fn deep_view(&self) -> CharacterView {
        self.view()
    }
}

impl Keyed for CharacterView {
    open spec fn key(self) -> Seq<char> {
        self.name
    }
}

impl Clone for Character {
    fn clone(&self) -> (r: Self)
        ensures
            r@ == self@,
    {
        Character { name: self.name.clone(), planets: self.planets, skills: self.skills }
    }
}

/// One way of making products on a site: what is brought in, what is extracted
/// there, and what comes out.
#[derive(Debug)]
pub struct FactoryConfiguration {
    pub start_tier: ProductTier,
    pub end_tier: ProductTier,
    pub imported_inputs: Vec<String>,
    pub mined_inputs: Vec<String>,
    pub outputs: Vec<String>,
}

/// A configuration as the contracts see it.
pub struct FactoryConfigurationView {
    pub start_tier: ProductTier,
    pub end_tier: ProductTier,
    pub imported_inputs: Seq<Seq<char>>,
    pub mined_inputs: Seq<Seq<char>>,
    pub outputs: Seq<Seq<char>>,
}

impl View for FactoryConfiguration {
    type V = FactoryConfigurationView;

    open spec fn view(&self) -> FactoryConfigurationView {
        FactoryConfigurationView {
            start_tier: self.start_tier,
            end_tier: self.end_tier,
            imported_inputs: self.imported_inputs.deep_view(),
            mined_inputs: self.mined_inputs.deep_view(),
            outputs: self.outputs.deep_view(),
        }
    }
}

impl DeepView for FactoryConfiguration {
    type V = FactoryConfigurationView;

    open spec fn deep_view(&self) -> FactoryConfigurationView {
        self.view()
    }
}

impl Clone for FactoryConfiguration {
    fn clone(&self) -> (r: Self)
        ensures
            r@ == self@,
    {
        FactoryConfiguration {
            start_tier: self.start_tier,
            end_tier: self.end_tier,
            imported_inputs: clone_strings(&self.imported_inputs),
            mined_inputs: clone_strings(&self.mined_inputs),
            outputs: clone_strings(&self.outputs),
        }
    }
}

/// One site, supervised by one operator, making one product.
#[derive(Debug)]
pub struct PlanetAssignment {
    pub character: String,
    pub planet: String,
    pub planet_type: PlanetType,
    pub imported_inputs: Vec<String>,
    pub mined_inputs: Vec<String>,
    pub output: String,
}

/// An assignment as the contracts see it.
pub struct PlanetAssignmentView {
    pub character: Seq<char>,
    pub planet: Seq<char>,
    pub planet_type: PlanetType,
    pub imported_inputs: Seq<Seq<char>>,
    pub mined_inputs: Seq<Seq<char>>,
    pub output: Seq<char>,
}

impl View for PlanetAssignment {
    type V = PlanetAssignmentView;

    open spec fn view(&self) -> PlanetAssignmentView {
        PlanetAssignmentView {
            character: self.character@,
            planet: self.planet@,
            planet_type: self.planet_type,
            imported_inputs: self.imported_inputs.deep_view(),
            mined_inputs: self.mined_inputs.deep_view(),
            output: self.output@,
        }
    }
}

impl DeepView for PlanetAssignment {
    type V = PlanetAssignmentView;

    open spec fn deep_view(&self) -> PlanetAssignmentView {
        self.view()
    }
}

impl Clone for PlanetAssignment {
    fn clone(&self) -> (r: Self)
        ensures
            r@ == self@,
    {
        PlanetAssignment {
            character: self.character.clone(),
            planet: self.planet.clone(),
            planet_type: self.planet_type,
            imported_inputs: clone_strings(&self.imported_inputs),
            mined_inputs: clone_strings(&self.mined_inputs),
            output: self.output.clone(),
        }
    }
}

/// The assignments that together produce a target, in the order they were made.
#[derive(Debug)]
pub struct ProductionPlan {
    pub assignments: Vec<PlanetAssignment>,
}

impl View for ProductionPlan {
    type V = Seq<PlanetAssignmentView>;

    open spec fn view(&self) -> Seq<PlanetAssignmentView> {
        self.assignments.deep_view()
    }
}

impl Clone for ProductionPlan {
    fn clone(&self) -> (r: Self)
        ensures
            r@ == self@,
    {
        let mut out: Vec<PlanetAssignment> = Vec::new();
        let mut i: usize = 0;
        while i < self.assignments.len()
            invariant
                i <= self.assignments.len(),
                out.len() == i,
                forall|j: int| 0 <= j < i ==> out@[j]@ == self.assignments@[j]@,
            decreases self.assignments.len() - i,
        {
            out.push(self.assignments[i].clone());
            i += 1;
        }
        assert(out.deep_view() =~= self.assignments.deep_view());
        ProductionPlan { assignments: out }
    }
}

} // verus!
