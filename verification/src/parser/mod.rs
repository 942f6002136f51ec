pub mod grammar;
pub mod housenumber;
pub mod listing;
