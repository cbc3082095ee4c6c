//! Access to the catalog, the sites and the operators.

use crate::catalog::{create_product_database, product_table};
use crate::domain::{
    Character, CharacterView, Planet, PlanetView, Product, ProductTier, ProductView,
};
use crate::keyed::{distinct_keys, lemma_upsert_all_distinct, lookup, select, upsert_all};
use crate::store::{copy_all, find_named, store_all};
use vstd::prelude::*;
use vstd::string::StringExecFns;

verus! {

/// What can go wrong when records are loaded into a repository.
#[derive(Debug)]
pub enum RepositoryError {
    /// The records could not be read from their outside form.
    DeserializationError(String),
    /// A product was named that the catalog lacks.
    ProductNotFound(String),
    /// The records were read but make no sense.
    InvalidData(String),
}

/// A `RepositoryError` as the contracts see it.
pub enum RepositoryErrorView {
    DeserializationError(Seq<char>),
    ProductNotFound(Seq<char>),
    InvalidData(Seq<char>),
}

impl View for RepositoryError {
    type V = RepositoryErrorView;

    open spec fn view(&self) -> RepositoryErrorView {
        match self {
            RepositoryError::DeserializationError(msg) => {
                RepositoryErrorView::DeserializationError(msg@)
            },
            RepositoryError::ProductNotFound(name) => RepositoryErrorView::ProductNotFound(name@),
            RepositoryError::InvalidData(msg) => RepositoryErrorView::InvalidData(msg@),
        }
    }
}

impl RepositoryErrorView {
    /// The error in words.
    pub open spec fn message(self) -> Seq<char> {
        match self {
            RepositoryErrorView::DeserializationError(msg) => "Failed to deserialize data: "@
                + msg,
            RepositoryErrorView::ProductNotFound(name) => "Product not found: "@ + name,
            RepositoryErrorView::InvalidData(msg) => "Invalid data: "@ + msg,
        }
    }
}

impl RepositoryError {
    /// The error in words.
    pub fn message(&self) -> (r: String)
        ensures
            r@ == self@.message(),
    {
        match self {
            RepositoryError::DeserializationError(msg) => {
                "Failed to deserialize data: ".to_string().concat(msg.as_str())
            },
            RepositoryError::ProductNotFound(name) => {
                "Product not found: ".to_string().concat(name.as_str())
            },
            RepositoryError::InvalidData(msg) => "Invalid data: ".to_string().concat(msg.as_str()),
        }
    }
}

/// Read access to the catalog of products.
pub trait ProductRepository {
    /// The products, in the order in which they are handed out.
    spec fn products(&self) -> Seq<ProductView>;

    fn get_all_products(&self) -> (r: Vec<Product>)
        ensures
            r.deep_view() == self.products(),
    ;

    fn get_product_by_name(&self, name: &str) -> (r: Option<Product>)
        ensures
            r.deep_view() == lookup(self.products(), name@),
    ;

    fn get_products_by_tier(&self, tier: ProductTier) -> (r: Vec<Product>)
        ensures
            r.deep_view() == select(self.products(), |p: ProductView| p.tier == tier),
    ;
}

/// Read access to the sites.
pub trait PlanetRepository {
    /// The sites, in the order in which they are handed out.
    spec fn planets(&self) -> Seq<PlanetView>;

    fn get_all_planets(&self) -> (r: Vec<Planet>)
        ensures
            r.deep_view() == self.planets(),
    ;

    fn get_planet_by_id(&self, id: &str) -> (r: Option<Planet>)
        ensures
            r.deep_view() == lookup(self.planets(), id@),
    ;
}

/// Read access to the operators.
pub trait CharacterRepository {
    /// The operators, in the order in which they are handed out.
    spec fn characters(&self) -> Seq<CharacterView>;

    fn get_all_characters(&self) -> (r: Vec<Character>)
        ensures
            r.deep_view() == self.characters(),
    ;

    fn get_character_by_name(&self, name: &str) -> (r: Option<Character>)
        ensures
            r.deep_view() == lookup(self.characters(), name@),
    ;
}

/// Read access to everything a plan is made from.
pub trait Repository: ProductRepository + PlanetRepository + CharacterRepository {

}

/// A repository held in memory. Each product, site and operator is held once
/// under its name, in the order in which the names were first stored.
pub struct MemoryRepository {
    products: Vec<Product>,
    planets: Vec<Planet>,
    characters: Vec<Character>,
}

impl MemoryRepository {
    #[verifier::type_invariant]
    spec fn names_are_distinct(self) -> bool {
        &&& distinct_keys(self.products.deep_view())
        &&& distinct_keys(self.planets.deep_view())
        &&& distinct_keys(self.characters.deep_view())
    }

    /// A repository with the catalog and with no sites and no operators.
    pub fn new() -> (r: Self)
        ensures
            r.products() == product_table(),
            distinct_keys(r.products()),
            r.planets() == Seq::<PlanetView>::empty(),
            r.characters() == Seq::<CharacterView>::empty(),
    {
        let r = Self {
            products: create_product_database(),
            planets: Vec::new(),
            characters: Vec::new(),
        };
        assert(r.planets.deep_view() =~= Seq::empty());
        assert(r.characters.deep_view() =~= Seq::empty());
        r
    }

    /// A repository with a catalog of its own, and with no sites and no
    /// operators: the products stored one after another under their names, a
    /// product taking the place of one stored before under the same name.
    pub fn with_products(products: Vec<Product>) -> (r: Self)
        ensures
            r.products() == upsert_all(Seq::empty(), products.deep_view()),
            distinct_keys(r.products()),
            r.planets() == Seq::<PlanetView>::empty(),
            r.characters() == Seq::<CharacterView>::empty(),
    {
        let mut stored: Vec<Product> = Vec::new();
        assert(stored.deep_view() =~= Seq::empty());
        proof {
            lemma_upsert_all_distinct(Seq::<ProductView>::empty(), products.deep_view());
        }
        store_all(&mut stored, &products);
        let r = Self { products: stored, planets: Vec::new(), characters: Vec::new() };
        assert(r.planets.deep_view() =~= Seq::empty());
        assert(r.characters.deep_view() =~= Seq::empty());
        r
    }

    /// Stores the sites one after another under their identifiers; a site
    /// takes the place of one stored before under the same identifier.
    pub fn load_planets_data(&mut self, planets: Vec<Planet>) -> (r: Result<(), RepositoryError>)
        ensures
            r is Ok,
            final(self).planets() == upsert_all(old(self).planets(), planets.deep_view()),
            distinct_keys(final(self).planets()),
            final(self).products() == old(self).products(),
            final(self).characters() == old(self).characters(),
    {
        proof {
            use_type_invariant(&*self);
            lemma_upsert_all_distinct(self.planets.deep_view(), planets.deep_view());
        }
        let mut stored: Vec<Planet> = Vec::new();
        assert(stored.deep_view() =~= Seq::empty());
        core::mem::swap(&mut self.planets, &mut stored);
        store_all(&mut stored, &planets);
        self.planets = stored;
        Ok(())
    }

    /// Stores the operators one after another under their names; an operator
    /// takes the place of one stored before under the same name.
    pub fn load_characters_data(&mut self, characters: Vec<Character>) -> (r: Result<
        (),
        RepositoryError,
    >)
        ensures
            r is Ok,
            final(self).characters() == upsert_all(
                old(self).characters(),
                characters.deep_view(),
            ),
            distinct_keys(final(self).characters()),
            final(self).products() == old(self).products(),
            final(self).planets() == old(self).planets(),
    {
        proof {
            use_type_invariant(&*self);
            lemma_upsert_all_distinct(self.characters.deep_view(), characters.deep_view());
        }
        let mut stored: Vec<Character> = Vec::new();
        assert(stored.deep_view() =~= Seq::empty());
        core::mem::swap(&mut self.characters, &mut stored);
        store_all(&mut stored, &characters);
        self.characters = stored;
        Ok(())
    }
}

impl ProductRepository for MemoryRepository {
    closed spec fn products(&self) -> Seq<ProductView> {
        self.products.deep_view()
    }

    fn get_all_products(&self) -> (r: Vec<Product>)
        ensures
            distinct_keys(r.deep_view()),
    {
        proof {
            use_type_invariant(self);
        }
        copy_all(&self.products)
    }

    fn get_product_by_name(&self, name: &str) -> (r: Option<Product>) {
        find_named(&self.products, name)
    }

    fn get_products_by_tier(&self, tier: ProductTier) -> (r: Vec<Product>) {
        let ghost keep = |p: ProductView| p.tier == tier;
        let mut out: Vec<Product> = Vec::new();
        let mut i: usize = 0;
        assert(out.deep_view() =~= select(self.products.deep_view().take(0), keep));
        while i < self.products.len()
            invariant
                i <= self.products.len(),
                keep == |p: ProductView| p.tier == tier,
                out.deep_view() == select(self.products.deep_view().take(i as int), keep),
            decreases self.products.len() - i,
        {
            let ghost before = out.deep_view();
            proof {
                let xs = self.products.deep_view().take(i + 1);
                assert(xs.drop_last() =~= self.products.deep_view().take(i as int));
                assert(xs.last() == self.products[i as int]@);
            }
            if self.products[i].tier == tier {
                out.push(self.products[i].clone());
                assert(out.deep_view() =~= before.push(self.products[i as int]@));
            }
            i += 1;
        }
        assert(self.products.deep_view().take(self.products.len() as int)
            =~= self.products.deep_view());
        out
    }
}

impl PlanetRepository for MemoryRepository {
    closed spec fn planets(&self) -> Seq<PlanetView> {
        self.planets.deep_view()
    }

    fn get_all_planets(&self) -> (r: Vec<Planet>)
        ensures
            distinct_keys(r.deep_view()),
    {
        proof {
            use_type_invariant(self);
        }
        copy_all(&self.planets)
    }

    fn get_planet_by_id(&self, id: &str) -> (r: Option<Planet>) {
        find_named(&self.planets, id)
    }
}

impl CharacterRepository for MemoryRepository {
    closed spec fn characters(&self) -> Seq<CharacterView> {
        self.characters.deep_view()
    }

    fn get_all_characters(&self) -> (r: Vec<Character>)
        ensures
            distinct_keys(r.deep_view()),
    {
        proof {
            use_type_invariant(self);
        }
        copy_all(&self.characters)
    }

    fn get_character_by_name(&self, name: &str) -> (r: Option<Character>) {
        find_named(&self.characters, name)
    }
}

impl Repository for MemoryRepository {

}

} // verus!
