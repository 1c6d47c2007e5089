use vstd::prelude::*;

verus! {

/// A theater of the listing.
#[derive(Debug, Clone)]
pub struct Theater {
    pub id: String,
    pub name: String,
    pub location: String,
}

} // verus!
