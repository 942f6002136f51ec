//! Estimates how many people live in each building of a map extract.
//!
//! Buildings get the house numbers of the address points inside them, a flat
//! count from their tags, and a share of the inhabitants.

pub mod config;
pub mod error;
pub mod parser;
pub mod pbf;
pub mod populate;
pub mod random;
pub mod tags;
pub mod text;

pub use crate::config::Config;
pub use crate::error::{Diagnostic, Error};
pub use crate::pbf::{Building, GenericGeometry};
pub use crate::populate::{load_extract, populate_extract, populate_houses, Extract};
