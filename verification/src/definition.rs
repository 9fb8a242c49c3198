//! Stable type descriptors for the static registry's definitions.
use vstd::prelude::*;

verus! {

/// A process-wide type descriptor: a stable numeric identifier together
/// with a human-readable name, used wherever a type-indexed lookup or an
/// error message needs to speak about a type.
pub struct TypeDef {
    id: u64,
    name: String,
}

impl TypeDef {
    /// The stable identifier.
    pub closed spec fn spec_id(&self) -> u64 {
        self.id
    }

    /// The name, as a sequence of characters.
    pub closed spec fn spec_name(&self) -> Seq<char> {
        self.name@
    }

    /// A descriptor from a stable identifier and a name.
    pub fn new(id: u64, name: String) -> (r: TypeDef)
        ensures
            r.spec_id() == id,
            r.spec_name() == name@,
    {
        TypeDef { id, name }
    }

    /// Whether this descriptor stands for the type with identifier `id`.
    pub fn is(&self, id: u64) -> (r: bool)
        ensures
            r == (self.spec_id() == id),
    {
        self.id == id
    }

    /// The type's name.
    pub fn get_name(&self) -> (r: &str)
        ensures
            r@ == self.spec_name(),
    {
        self.name.as_str()
    }

    /// A copy of the descriptor.
    pub fn duplicate(&self) -> (r: TypeDef)
        ensures
            r.spec_id() == self.spec_id(),
            r.spec_name() == self.spec_name(),
    {
        TypeDef { id: self.id, name: self.name.clone() }
    }
}

} // verus!
