//! How the owner of a pool presents itself.

use vstd::prelude::*;

verus! {

/// The owner's name, links and words.
#[derive(Clone, Debug, PartialEq, Eq)]
pub struct OwnerInfo {
    pub pseudo: Vec<u8>,
    pub url: Vec<u8>,
    pub picture_link: Vec<u8>,
    pub free_text: Vec<u8>,
}

impl OwnerInfo {
    /// Equal in every field, byte strings compared by content.
    pub open spec fn agrees(self, other: OwnerInfo) -> bool {
        &&& self.pseudo@ == other.pseudo@
        &&& self.url@ == other.url@
        &&& self.picture_link@ == other.picture_link@
        &&& self.free_text@ == other.free_text@
    }

    /// A copy that holds the same bytes.
    pub fn duplicate(&self) -> (copy: OwnerInfo)
        ensures
            self.agrees(copy),
    {
        OwnerInfo {
            pseudo: self.pseudo.clone(),
            url: self.url.clone(),
            picture_link: self.picture_link.clone(),
            free_text: self.free_text.clone(),
        }
    }
}

} // verus!
