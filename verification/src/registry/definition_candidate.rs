//! The key under which a definition candidate is registered.
use vstd::prelude::*;

verus! {

/// A definition candidate's unique key: its id, the name of the type it
/// defines, and the collection it belongs to, if any.
pub struct DefinitionCandidateKey {
    id: String,
    defined_type: String,
    collection_id: Option<String>,
}

impl DefinitionCandidateKey {
    /// The candidate's id.
    pub closed spec fn spec_id(&self) -> Seq<char> {
        self.id@
    }

    /// The defined type's name.
    pub closed spec fn spec_defined_type(&self) -> Seq<char> {
        self.defined_type@
    }

    /// The collection the candidate belongs to, if any.
    pub closed spec fn spec_collection_id(&self) -> Option<Seq<char>> {
        match self.collection_id {
            Some(ref c) => Some(c@),
            None => None,
        }
    }

    /// A key from its parts.
    pub fn new(id: &str, collection_id: Option<&str>, defined_type: &str) -> (r:
        DefinitionCandidateKey)
        ensures
            r.spec_id() == id@,
            r.spec_defined_type() == defined_type@,
            (match collection_id {
                Some(c) => r.spec_collection_id() matches Some(rc) && rc == c@,
                None => r.spec_collection_id() is None,
            }),
    {
        DefinitionCandidateKey {
            id: id.to_owned(),
            defined_type: defined_type.to_owned(),
            collection_id: match collection_id {
                Some(c) => Some(c.to_owned()),
                None => None,
            },
        }
    }
}

} // verus!
