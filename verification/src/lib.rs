//! Planning of tiered manufacturing chains.
//!
//! A catalog lists products by tier together with the ingredients each one is
//! made from. Sites supply raw resources according to their kind, and
//! operators supervise a bounded number of sites.
//!
//! - `domain`, `catalog` and `repository` hold the records, the reference
//!   data and the access to them.
//! - `strategy` states the ways a product can be made on a kind of site;
//!   `factory` computes them.
//! - `plan` states which products a target requires and which plan the
//!   search finds; `solver` computes them.
//! - `text`, `keyed` and `store` deal with strings and with records that are
//!   found by a name.

pub mod text;
pub mod keyed;
pub mod domain;
pub mod store;
pub mod catalog;
pub mod repository;
pub mod strategy;
pub mod factory;
pub mod plan;
pub mod solver;
