//! Collections as the view state sees them: an identifier and whatever
//! else storage keeps, compared by value.

use crate::page::CollectionId;
use vstd::prelude::*;
use vstd::std_specs::cmp::PartialEqSpecImpl;

verus! {

/// A collection as a mathematical value.
pub struct CollectionView {
    pub id: Seq<char>,
    pub content: Seq<u8>,
}

/// One collection of the list that storage owns.
#[derive(Debug, Clone, Eq)]
pub struct Collection {
    /// The identifier of the collection.
    pub id: CollectionId,
    /// Everything else that storage keeps of the collection, in the
    /// encoding of storage. It is compared byte for byte and never read.
    pub content: Vec<u8>,
}

impl View for Collection {
    type V = CollectionView;

    open spec fn view(&self) -> CollectionView {
        CollectionView { id: self.id@, content: self.content@ }
    }
}

/// A list of collections as a mathematical value.
pub open spec fn snapshot_view(list: Seq<Collection>) -> Seq<CollectionView> {
    list.map_values(|c: Collection| c@)
}

impl PartialEq for Collection {
    /// Two collections are equal when their identifiers and their contents
    /// are.
    fn eq(&self, other: &Self) -> (same: bool) {
        let same_id = self.id == other.id;
        let same_content = self.content == other.content;
        proof {
            if same_content {
                assert(self.content@ =~= other.content@);
            }
        }
        same_id && same_content
    }
}

impl PartialEqSpecImpl for Collection {
    open spec fn obeys_eq_spec() -> bool {
        true
    }

    open spec fn eq_spec(&self, other: &Self) -> bool {
        self@ == other@
    }
}

impl Collection {
    /// The identifier of this collection.
    pub fn get_collection_id(&self) -> (id: CollectionId)
        ensures
            id@ == self@.id,
    {
        CollectionId(self.id.0.clone())
    }
}

/// Whether two lists hold equal collections in the same order.
pub fn same_snapshot(a: &Vec<Collection>, b: &Vec<Collection>) -> (same: bool)
    ensures
        same == (snapshot_view(a@) == snapshot_view(b@)),
{
    let same = *a == *b;
    proof {
        let va = snapshot_view(a@);
        let vb = snapshot_view(b@);
        if same {
            assert(va =~= vb);
        }
        if va == vb {
            assert(a@.len() == va.len());
            assert(b@.len() == vb.len());
            assert forall|i: int| 0 <= i < a@.len() implies a@[i]@ == b@[i]@ by {
                assert(va[i] == a@[i]@);
                assert(vb[i] == b@[i]@);
            }
        }
    }
    same
}

} // verus!
