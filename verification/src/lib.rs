//! An in-process object-construction runtime: given a value, the engine runs
//! every registered child constructor for that value's type key, recursively,
//! and returns a scope that owns the value together with every transitively
//! constructed dependent, tearing dependents down before the value they
//! depend on.  Bridges reactively pair every live instance of one type with
//! every live instance of another.
#![allow(unused_imports)]
use vstd::prelude::*;

pub mod collection;
pub mod constructed;
pub mod definition;
pub mod deps;
pub mod error;
pub mod getter;
pub mod inceptor;
pub mod laws;
pub mod payload;
pub mod registry;
pub mod scope;
pub mod slot_table;

pub use collection::Collection;
pub use constructed::MaybeMutexGuard;
pub use deps::Deps;
pub use error::Error;
pub use scope::Scope;
