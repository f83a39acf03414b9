use vstd::prelude::*;

verus! {

/// Names one account on one protocol instance.
#[derive(Clone, Debug, PartialEq, Eq, Hash)]
pub struct AccountKey {
    pub origin: String,
    pub identifier: String,
}

impl AccountKey {
    /// Two keys name the same account when their texts agree.
    pub open spec fn same(self, other: AccountKey) -> bool {
        self.origin@ == other.origin@ && self.identifier@ == other.identifier@
    }

    pub fn duplicate(&self) -> (r: AccountKey)
        ensures
            r == *self,
    {
        AccountKey { origin: self.origin.clone(), identifier: self.identifier.clone() }
    }

    pub fn same_as(&self, other: &AccountKey) -> (r: bool)
        ensures
            r == self.same(*other),
    {
        self.origin == other.origin && self.identifier == other.identifier
    }
}

} // verus!
