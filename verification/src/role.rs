//! Roles: the requests that create, edit and grant them, and a role as
//! listed.
use vstd::prelude::*;

verus! {

/// Filters of a role listing.
#[derive(Debug)]
pub struct SearchReq {
    pub role_id: Option<u128>,
    pub role_ids: Option<Vec<String>>,
    pub role_key: Option<String>,
    pub role_name: Option<String>,
    pub status: Option<String>,
    pub begin_time: Option<String>,
    pub end_time: Option<String>,
}

/// A role as listed.
#[derive(Debug)]
pub struct Resp {
    pub role_id: Option<String>,
    pub role_name: String,
    pub role_key: String,
    pub status: String,
    pub list_order: i32,
    pub remark: String,
    pub data_scope: String,
}

/// A request to create a role with the menus it may reach.
#[derive(Debug)]
pub struct AddReq {
    pub role_name: String,
    pub role_key: String,
    pub list_order: i32,
    pub data_scope: Option<String>,
    pub status: String,
    pub remark: Option<String>,
    pub menu_ids: Vec<String>,
}

/// A request to delete roles.
#[derive(Debug)]
pub struct DeleteReq {
    pub role_ids: Vec<String>,
}

/// A request to edit a role.
#[derive(Debug)]
pub struct EditReq {
    pub role_id: String,
    pub role_name: String,
    pub role_key: String,
    pub list_order: i32,
    pub data_scope: String,
    pub auth_type: String,
    pub status: String,
    pub remark: Option<String>,
    pub menu_ids: Vec<String>,
}

/// A request to change a role's status.
#[derive(Debug)]
pub struct StatusReq {
    pub role_id: String,
    pub status: String,
}

/// A request to change which departments' data a role sees.
#[derive(Debug)]
pub struct DataScopeReq {
    pub role_id: String,
    pub data_scope: String,
    pub dept_ids: Vec<String>,
}

/// A role as stored.
#[derive(Debug, PartialEq, Eq)]
pub struct SysRole {
    pub role_name: String,
    pub role_key: String,
    pub list_order: i32,
    pub data_scope: String,
    pub status: String,
    pub remark: String,
}

/// A request to grant a role to, or take it from, several users.
#[derive(Debug)]
pub struct AddOrCancelAuthRoleReq {
    pub user_ids: Vec<String>,
    pub role_id: String,
}

} // verus!
