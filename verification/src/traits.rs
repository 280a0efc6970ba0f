//! The traits that describe how a Rust type maps onto a database table.

use vstd::prelude::*;

verus! {

/// Column list for a row mapping. Split out from the row-binding trait so callers can use
/// `Self::columns()` unambiguously when rows are bound for several databases.
pub trait HasColumns {
    /// The returned columns **MUST NEVER** be empty!
    /// That is because the sql query builders rely on the fact that there will be at least one column.
    ///
    /// # Returns
    /// the column names for this entity (does **NOT** include the id column).
    fn columns() -> Vec<&'static str>;
}

/// An entity with a single id column.
pub trait HasId {
    type Id: Clone + Send + Sync;

    /// # Returns
    /// the name of the id column
    fn id_column() -> &'static str;

    /// # Returns
    /// the db id of `self`
    fn id(&self) -> Self::Id;
}

/// Describes how a rust struct maps to a database table.
pub trait Schema: Send {
    /// # Returns
    /// the name of the table for this entity.
    fn table_name() -> &'static str;

    /// # Returns
    /// All column names for this entity **including** the id column. Unlike
    /// [HasColumns::columns] which excludes the id column.
    fn columns() -> Vec<&'static str>;
}

/// Marker trait that indicates that the id of an entity
/// is assigned by the database using something like an
/// AUTOINCREMENT or SERIAL column.
pub trait DBAssignedId: HasId {}

/// Marker trait that indicates that the id of an entity
/// is assigned not by the database but instead inside rust
/// using something like a uuid.
pub trait ExternallyAssignedId: HasId {}

/// Marker trait for entities that have no id column.
/// Emitted by the schema derive when no field is marked with `#[crudly(id)]`.
pub trait NoId: Send {}

/// Marker trait that opts an entity into the default CRUD implementations for database `DB`.
pub trait CrudlyDefault<DB> {}

} // verus!
