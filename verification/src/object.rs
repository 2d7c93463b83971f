//! The objects that a frame handles, as far as a frame looks into them.

use num_bigint::BigInt;
use std::rc::Rc;
use vstd::prelude::*;

verus! {

/// Declares the integers of arbitrary size of the crate `num-bigint`. Nothing is said of what
/// such a value holds: a frame only carries it along.
#[verifier::external_type_specification]
#[verifier::external_body]
pub struct ExBigInt(num_bigint::BigInt);

/// `BigInt::clone`, which the crate derives: the copy has the same sign and the same digits, so
/// it is the same integer.
pub assume_specification[ <BigInt as Clone>::clone ](value: &BigInt) -> (copy: BigInt)
    ensures
        copy == *value,
;

/// What a frame reads of the contents of an object.
#[derive(Debug)]
pub enum PyObjectPayload {
    Integer { value: BigInt },
    NoneValue,
    /// A scope of names; the virtual machine holds what is in it.
    Scope,
    /// Anything else; the virtual machine holds what is in it.
    Other,
}

/// An object of the virtual machine. Two references are to the same object exactly when their
/// `id` is the same.
#[derive(Debug)]
pub struct PyObject {
    pub id: usize,
    pub payload: PyObjectPayload,
}

pub type PyObjectRef = Rc<PyObject>;

} // verus!
