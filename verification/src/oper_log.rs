//! Operation logging: the endpoint a request is logged under, how its HTTP
//! method is classified, and the record written for a request of a user who
//! is signed in.
use vstd::prelude::*;
use crate::text::str_eq;

verus! {

/// The operation kind recorded for an HTTP method: queries, additions,
/// changes and deletions, and `"0"` for any other method.
pub open spec fn operator_kind(method: Seq<char>) -> Seq<char> {
    if method == "GET"@ {
        "1"@
    } else if method == "POST"@ {
        "2"@
    } else if method == "PUT"@ {
        "3"@
    } else if method == "DELETE"@ {
        "4"@
    } else {
        "0"@
    }
}

/// The operation kind recorded for a request made with `method`.
pub fn operator_type(method: &str) -> (r: String)
    ensures
        r@ == operator_kind(method@),
{
    if str_eq(method, "GET") {
        "1".to_owned()
    } else if str_eq(method, "POST") {
        "2".to_owned()
    } else if str_eq(method, "PUT") {
        "3".to_owned()
    } else if str_eq(method, "DELETE") {
        "4".to_owned()
    } else {
        "0".to_owned()
    }
}

/// An endpoint the service knows, with the title its requests are logged
/// under and how they are logged.
#[derive(Debug)]
pub struct ApiEntry {
    pub path: String,
    pub name: String,
    pub log_method: String,
}

/// The title of the first endpoint in `apis` registered under `path`, and
/// the empty title when none is.
pub open spec fn api_name_in(apis: Seq<ApiEntry>, path: Seq<char>) -> Seq<char>
    decreases apis.len(),
{
    if apis.len() == 0 {
        Seq::empty()
    } else if apis[0].path@ == path {
        apis[0].name@
    } else {
        api_name_in(apis.drop_first(), path)
    }
}

/// The title that requests to `path` are logged under.
pub fn api_name_of(apis: &Vec<ApiEntry>, path: &str) -> (r: String)
    ensures
        r@ == api_name_in(apis@, path@),
{
    let mut i: usize = 0;
    assert(apis@.subrange(0, apis.len() as int) =~= apis@);
    while i < apis.len()
        invariant
            i <= apis.len(),
            api_name_in(apis@, path@) == api_name_in(apis@.subrange(i as int, apis.len() as int), path@),
        decreases apis.len() - i,
    {
        let ghost rest = apis@.subrange(i as int, apis.len() as int);
        assert(rest[0] == apis@[i as int]);
        assert(rest.drop_first() =~= apis@.subrange(i + 1, apis.len() as int));
        if str_eq(apis[i].path.as_str(), path) {
            return apis[i].name.clone();
        }
        i = i + 1;
    }
    String::new()
}

/// What the operation log reads of a request.
#[derive(Debug)]
pub struct OperLogRequest {
    pub path: String,
    pub method: String,
}

/// What the operation log reads of the session a request was made in.
#[derive(Debug)]
pub struct OnlineOperator {
    pub user_id: u128,
    pub user_name: String,
    pub net: String,
}

/// One row of the operation log.
#[derive(Debug)]
pub struct OperLogRecord {
    pub user_id: u128,
    pub title: String,
    pub business_type: String,
    pub method: String,
    pub request_method: String,
    pub operator_type: String,
    pub oper_name: String,
    pub dept_name: String,
    pub oper_url: String,
    pub oper_ip: String,
    pub oper_location: String,
    pub oper_param: String,
    pub json_result: String,
    pub path_param: String,
    pub status: String,
    pub error_msg: String,
    pub duration: i64,
}

/// The row logged for a request to `req` that took `duration_micros`
/// microseconds and answered `res`: none when the session is no longer
/// online; otherwise one that names the user and their address, the
/// endpoint's title, the method (twice, as the method and as the request
/// method) and its operation kind, the path, the answer, the status and the
/// error, with the duration as a signed 64-bit count (the low 64 bits of it).
pub fn oper_log_record(
    req: &OperLogRequest,
    user: Option<OnlineOperator>,
    api_name: String,
    res: String,
    status: String,
    err_msg: String,
    duration_micros: u128,
) -> (r: Option<OperLogRecord>)
    ensures
        user is None ==> r is None,
        user matches Some(u) ==> r matches Some(rec) && rec.user_id == u.user_id
            && rec.title == api_name && rec.business_type@ == "0"@ && rec.method@ == req.method@
            && rec.request_method@ == req.method@ && rec.operator_type@ == operator_kind(
            req.method@,
        ) && rec.oper_name == u.user_name && rec.dept_name@ == "default"@ && rec.oper_url@
            == req.path@ && rec.oper_ip == u.net && rec.oper_location@ == Seq::<char>::empty() && rec.oper_param@
            == Seq::<char>::empty() && rec.json_result == res && rec.path_param@ == Seq::<char>::empty() && rec.status == status
            && rec.error_msg == err_msg && rec.duration == #[verifier::truncate] (duration_micros as i64),
{
    let user = match user {
        Some(u) => u,
        None => return None,
    };
    let duration = #[verifier::truncate] (duration_micros as i64);
    Some(
        OperLogRecord {
            user_id: user.user_id,
            title: api_name,
            business_type: "0".to_owned(),
            method: req.method.clone(),
            request_method: req.method.clone(),
            operator_type: operator_type(req.method.as_str()),
            oper_name: user.user_name,
            dept_name: "default".to_owned(),
            oper_url: req.path.clone(),
            oper_ip: user.net,
            oper_location: String::new(),
            oper_param: String::new(),
            json_result: res,
            path_param: String::new(),
            status,
            error_msg: err_msg,
            duration,
        },
    )
}

} // verus!
