//! The pages behind sign-in.
use vstd::prelude::*;

verus! {

/// The home page.
#[derive(Debug)]
pub struct HomePageTemplate<'a> {
    pub data: &'a str,
}

/// The workspace page.
#[derive(Debug)]
pub struct WorkSpaceTemplate<'a> {
    pub data: &'a str,
}

} // verus!
