//! The pages the service renders, as the values their templates are filled with.
use vstd::prelude::*;

pub mod home;
pub mod login;

verus! {

/// A success message with a button back.
#[derive(Debug)]
pub struct SuccessAlertWithButtonTemplate {
    pub msg: String,
}

/// The form to add a function.
#[derive(Debug)]
pub struct FunctionAddTemplate {}

} // verus!
