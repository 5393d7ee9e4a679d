//! Stored functions and their saved versions: a function as it is stored,
//! and the history entry that records one version of it.
use vstd::prelude::*;

verus! {

/// A stored function. Ids are UUIDs as 128-bit numbers and instants are
/// nanoseconds since the Unix epoch.
#[derive(Debug)]
pub struct Function {
    pub function_id: u128,
    pub function_name: String,
    pub status: String,
    pub code: String,
    pub created_by: u128,
    pub call_number: i32,
    pub created_at: i128,
    pub path: String,
    pub version: i32,
    pub updated_by: Option<u128>,
    pub updated_at: Option<i128>,
}

/// A request to record one version of a function in its history.
#[derive(Debug)]
pub struct AddReq {
    pub function_id: u128,
    pub function_name: String,
    pub status: String,
    pub code: String,
    pub created_by: u128,
    pub tag: Option<String>,
    pub path: String,
    pub version: i32,
}

/// The history entry of the version `f` is at: its id, name, status, code,
/// author, path and version, with no tag.
pub open spec fn history_entry(f: Function) -> AddReq {
    AddReq {
        function_id: f.function_id,
        function_name: f.function_name,
        status: f.status,
        code: f.code,
        created_by: f.created_by,
        tag: None,
        path: f.path,
        version: f.version,
    }
}

impl From<Function> for AddReq {
    fn from(value: Function) -> (r: Self) {
        AddReq {
            function_id: value.function_id,
            function_name: value.function_name,
            status: value.status,
            code: value.code,
            created_by: value.created_by,
            tag: None,
            path: value.path,
            version: value.version,
        }
    }
}

impl vstd::std_specs::convert::FromSpecImpl<Function> for AddReq {
    open spec fn obeys_from_spec() -> bool {
        true
    }

    open spec fn from_spec(v: Function) -> AddReq {
        history_entry(v)
    }
}

} // verus!
