pub mod buildings;
pub mod distribution;
pub mod elements;
pub mod flats;
pub mod geometry;
pub mod way;

pub use crate::pbf::geometry::{GenericGeometry, Point, Polygon, Shape};
pub use crate::pbf::way::{GenericWay, HouseNumberPoint};
pub use crate::pbf::buildings::{Building, Buildings};
