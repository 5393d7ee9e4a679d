//! The pages of signing in.
use vstd::prelude::*;

verus! {

/// The sign-in page.
#[derive(Debug)]
pub struct LoginTemplate<'a> {
    pub name: &'a str,
}

/// The workspace page shown after signing in.
#[derive(Debug)]
pub struct WorkSpaceTemplate<'a> {
    pub name: &'a str,
}

} // verus!
