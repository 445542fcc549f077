//! Copies of values that keep their view.

use vstd::prelude::*;
use crate::names::AccountId;

verus! {

/// A type whose values can be copied into a value with the same view.
pub trait Duplicate: View + Sized {
    fn duplicate(&self) -> (r: Self)
        ensures
            r@ == self@,
    ;
}

impl Duplicate for u8 {
    fn duplicate(&self) -> (r: u8) {
        *self
    }
}

impl Duplicate for () {
    fn duplicate(&self) -> (r: ()) {
        ()
    }
}

impl Duplicate for AccountId {
    fn duplicate(&self) -> (r: AccountId) {
        self.clone()
    }
}

} // verus!
