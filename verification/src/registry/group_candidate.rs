//! The key under which a group of same-typed candidates is registered.
use vstd::prelude::*;

verus! {

/// A group candidate's unique key: the collection's id and the name of the
/// type the collection's members share.
pub struct GroupCandidateKey {
    collection_id: String,
    contained_type: String,
}

impl GroupCandidateKey {
    /// The collection's id.
    pub closed spec fn spec_collection_id(&self) -> Seq<char> {
        self.collection_id@
    }

    /// The contained type's name.
    pub closed spec fn spec_contained_type(&self) -> Seq<char> {
        self.contained_type@
    }

    /// A key from the collection's id and the contained type's name.
    pub fn new(collection_id: &str, contained_type: &str) -> (r: GroupCandidateKey)
        ensures
            r.spec_collection_id() == collection_id@,
            r.spec_contained_type() == contained_type@,
    {
        GroupCandidateKey {
            collection_id: collection_id.to_owned(),
            contained_type: contained_type.to_owned(),
        }
    }
}

} // verus!
