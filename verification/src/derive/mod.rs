//! The derive logic: reading the `#[sqlx(...)]` / `#[crudly(...)]` attributes of a struct and
//! planning the trait impls that the derives emit. The struct arrives as plain values
//! ([`model`]); turning tokens into that model and the plans back into tokens happens at the
//! macro boundary.

pub mod model;
pub mod attrs;
pub mod derive_attr;
pub mod fields;
pub mod schema;
pub mod into_row;
pub mod laws;
pub mod attr_laws;
