//! The service's settings.
use vstd::prelude::*;

verus! {

/// Session token settings: the signing secret and the lifetime in minutes.
#[derive(Debug)]
pub struct Jwt {
    pub jwt_secret: String,
    pub jwt_exp: i64,
}

/// Logging settings.
#[derive(Debug)]
pub struct LogConfig {
    pub stdout: bool,
    pub log_level: String,
    pub dir: String,
    pub file: String,
}

/// Database settings.
#[derive(Debug)]
pub struct Database {
    pub link: String,
    pub hmac_key: String,
}

/// System settings: the user agent parser and the super users' ids.
#[derive(Debug)]
pub struct System {
    pub user_agent_parser: String,
    pub super_user: Vec<String>,
}

} // verus!
