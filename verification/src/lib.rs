//! SQL statement building and derive planning for CRUD helpers over relational databases.
#![allow(unused_imports)]

pub mod text;
pub mod placeholder;
pub mod traits;
pub mod sql;
pub mod executor;
pub mod naming;
pub mod derive;

use vstd::prelude::*;

verus! {
} // verus!
