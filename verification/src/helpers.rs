//! A handle other contracts hold on a deployed lockup contract.

use vstd::prelude::*;

verus! {

/// The address of a deployed lockup contract.
#[derive(Debug)]
pub struct LockupContract(pub String);

impl LockupContract {
    /// The contract's address.
    pub fn addr(&self) -> (a: String)
        ensures
            a == self.0,
    {
        self.0.clone()
    }
}

} // verus!
