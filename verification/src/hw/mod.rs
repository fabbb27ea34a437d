//! A first, simpler mapping of entities to items, with one composite key
//! value per attribute, and the hello-world function that writes with it.

pub mod ddb;
pub mod entity;
pub mod handler;
