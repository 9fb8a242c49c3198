//! Structures that carry detailed validation errors.
use vstd::prelude::*;

use crate::slot_table::items_viewed;

verus! {

/// Circular dependency information: a dependency path whose last item
/// depends on some earlier item.
pub struct CircularDependency {
    /// The dependency path.
    pub path: Vec<String>,
}

impl CircularDependency {
    /// Wraps a dependency path.
    pub fn new(path: Vec<String>) -> (r: CircularDependency)
        ensures
            items_viewed(r.path@) == items_viewed(path@),
    {
        CircularDependency { path }
    }
}

/// Missing-dependency information: a definition's id together with the
/// names of the dependencies that were not found, each listed once.
pub struct DependenciesNotFound {
    /// The definition's id.
    pub id: String,
    /// The missing dependency names.
    pub missing_dependencies: Vec<String>,
}

impl DependenciesNotFound {
    /// Wraps a definition id and its missing dependency names.
    pub fn new(id: &str, missing_dependencies: Vec<String>) -> (r: DependenciesNotFound)
        ensures
            r.id@ == id@,
            items_viewed(r.missing_dependencies@) == items_viewed(missing_dependencies@),
    {
        DependenciesNotFound { id: id.to_owned(), missing_dependencies }
    }
}

} // verus!
