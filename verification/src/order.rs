//! Equality and order of `BigNumber`: those of the integers, sign included.

use std::cmp::Ordering;
use vstd::prelude::*;
use vstd::std_specs::cmp::{PartialEqSpecImpl, PartialOrdSpecImpl};

use crate::engine::bn_cmp;
use crate::number::BigNumber;

verus! {

impl PartialEq for BigNumber {
    /// Whether the two numbers are the same integer.
    fn eq(&self, other: &BigNumber) -> (r: bool) {
        match bn_cmp(&self.openssl_bn, &other.openssl_bn) {
            Ordering::Equal => true,
            _ => false,
        }
    }
}

impl PartialEqSpecImpl for BigNumber {
    open spec fn obeys_eq_spec() -> bool {
        true
    }

    open spec fn eq_spec(&self, other: &BigNumber) -> bool {
        self@ == other@
    }
}

impl Eq for BigNumber {

}

impl PartialOrd for BigNumber {
    /// The order of the two numbers as integers; never `None`.
    fn partial_cmp(&self, other: &BigNumber) -> (r: Option<Ordering>) {
        Some(bn_cmp(&self.openssl_bn, &other.openssl_bn))
    }
}

impl PartialOrdSpecImpl for BigNumber {
    open spec fn obeys_partial_cmp_spec() -> bool {
        true
    }

    open spec fn partial_cmp_spec(&self, other: &BigNumber) -> Option<Ordering> {
        if self@ < other@ {
            Some(Ordering::Less)
        } else if self@ == other@ {
            Some(Ordering::Equal)
        } else {
            Some(Ordering::Greater)
        }
    }
}

} // verus!
