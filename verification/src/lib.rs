//! The verified core of the playoh admin and function-runtime service.
pub mod auth;
pub mod config;
pub mod error;
pub mod function;
pub mod ids;
pub mod menu;
pub mod menu_page;
pub mod menu_tree_laws;
pub mod menu_service;
pub mod oper_log;
pub mod pages;
pub mod pg_args;
pub mod pagination;
pub mod password;
pub mod rand_utils;
pub mod run_messages;
pub mod request_query;
pub mod response;
pub mod role;
pub mod runtime;
pub mod sql;
pub mod text;
pub mod transaction;
pub mod user;
