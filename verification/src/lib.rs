pub mod display;
pub mod expr;
pub mod literal;
pub mod ops;
pub mod simplify;

use vstd::prelude::*;

verus! {

/// The sole failure of the simplifier: an exponent whose magnitude cannot
/// drive repeated multiplication.
#[derive(Clone, Debug)]
pub struct Error {
    pub kind: ErrorKind,
    pub msg: String,
}

/// Classifies an `Error`; there is a single kind.
#[derive(Clone, Debug)]
pub enum ErrorKind {
    TooBig,
}

} // verus!
