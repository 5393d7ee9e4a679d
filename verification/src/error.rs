//! The errors a request can end in, the HTTP status and error code each is
//! answered with, and the message shown for it.
use vstd::prelude::*;
use vstd::string::StringExecFns;

verus! {

/// Why an authentication failed.
#[derive(Debug, Clone, Copy, PartialEq, Eq)]
pub enum AuthenticateError {
    WrongCredentials,
    TokenCreation,
    InvalidToken,
    Locked,
}

/// A request field that was rejected, and why.
#[derive(Debug)]
pub struct BadRequest {
    pub field: String,
    pub message: String,
}

/// A resource that does not exist.
#[derive(Debug)]
pub struct NotFound {
    pub resource: String,
    pub message: String,
}

/// The messages collected for one request field.
#[derive(Debug)]
pub struct FieldErrors {
    pub key: String,
    pub messages: Vec<String>,
}

/// The errors a request can end in. Errors raised by other libraries are
/// carried by their message.
#[derive(Debug)]
pub enum Error {
    Authenticate(AuthenticateError),
    RunSyncTask(String),
    NotFound(NotFound),
    SerderError(String),
    BadRequest(BadRequest),
    Sqlx(String),
    Uuid(String),
    Anyhow(String),
    Unauthorized,
    Forbidden,
    UnprocessableEntity { errors: Vec<FieldErrors> },
}

pub const STATUS_BAD_REQUEST: u16 = 400;
pub const STATUS_UNAUTHORIZED: u16 = 401;
pub const STATUS_FORBIDDEN: u16 = 403;
pub const STATUS_NOT_FOUND: u16 = 404;
pub const STATUS_UNPROCESSABLE_ENTITY: u16 = 422;
pub const STATUS_LOCKED: u16 = 423;
pub const STATUS_INTERNAL_SERVER_ERROR: u16 = 500;

/// The error code shared by all client errors.
pub const CLIENT_ERROR_CODE: u16 = 40003;

/// The HTTP status and error code that `e` is answered with.
pub open spec fn codes_of(e: Error) -> (u16, u16) {
    match e {
        Error::BadRequest(_) => (STATUS_BAD_REQUEST, CLIENT_ERROR_CODE),
        Error::NotFound(_) => (STATUS_NOT_FOUND, CLIENT_ERROR_CODE),
        Error::Authenticate(AuthenticateError::WrongCredentials) => (STATUS_UNAUTHORIZED, CLIENT_ERROR_CODE),
        Error::Authenticate(AuthenticateError::InvalidToken) => (STATUS_UNAUTHORIZED, CLIENT_ERROR_CODE),
        Error::Authenticate(AuthenticateError::Locked) => (STATUS_LOCKED, CLIENT_ERROR_CODE),
        Error::Authenticate(AuthenticateError::TokenCreation) => (STATUS_INTERNAL_SERVER_ERROR, 5001),
        Error::RunSyncTask(_) => (STATUS_INTERNAL_SERVER_ERROR, 5009),
        Error::Sqlx(_) => (STATUS_INTERNAL_SERVER_ERROR, 5002),
        Error::Anyhow(_) => (STATUS_INTERNAL_SERVER_ERROR, 5003),
        Error::Unauthorized => (STATUS_UNAUTHORIZED, CLIENT_ERROR_CODE),
        Error::Forbidden => (STATUS_FORBIDDEN, CLIENT_ERROR_CODE),
        Error::UnprocessableEntity { .. } => (STATUS_UNPROCESSABLE_ENTITY, CLIENT_ERROR_CODE),
        Error::Uuid(_) => (STATUS_BAD_REQUEST, CLIENT_ERROR_CODE),
        Error::SerderError(_) => (STATUS_BAD_REQUEST, CLIENT_ERROR_CODE),
    }
}

/// The message of an authentication failure.
pub open spec fn authenticate_message(e: AuthenticateError) -> Seq<char> {
    match e {
        AuthenticateError::WrongCredentials => "Wrong authentication credentials"@,
        AuthenticateError::TokenCreation => "Failed to create authentication token"@,
        AuthenticateError::InvalidToken => "Invalid authentication credentials"@,
        AuthenticateError::Locked => "User is locked"@,
    }
}

/// The message of a rejected field.
pub open spec fn bad_request_message(b: BadRequest) -> Seq<char> {
    "Bad request. Field: "@ + b.field@ + ", message: "@ + b.message@
}

/// The message shown for `e`.
pub open spec fn message_of(e: Error) -> Seq<char> {
    match e {
        Error::Authenticate(a) => authenticate_message(a),
        Error::RunSyncTask(m) => m@,
        Error::NotFound(_) => "Not found"@,
        Error::SerderError(m) => m@,
        Error::BadRequest(b) => bad_request_message(b),
        Error::Sqlx(m) => "an error occurred with the database,"@ + m@,
        Error::Uuid(m) => "an error occurred with the uuid,"@ + m@,
        Error::Anyhow(m) => m@ + "an internal server error occurred"@,
        Error::Unauthorized => "authentication required"@,
        Error::Forbidden => "user may not perform that action"@,
        Error::UnprocessableEntity { .. } => "error in the request body"@,
    }
}

impl AuthenticateError {
    /// The message of this failure.
    pub fn message(&self) -> (r: String)
        ensures
            r@ == authenticate_message(*self),
    {
        match self {
            AuthenticateError::WrongCredentials => "Wrong authentication credentials".to_owned(),
            AuthenticateError::TokenCreation => "Failed to create authentication token".to_owned(),
            AuthenticateError::InvalidToken => "Invalid authentication credentials".to_owned(),
            AuthenticateError::Locked => "User is locked".to_owned(),
        }
    }
}

impl BadRequest {
    pub fn new(field: String, message: String) -> (r: Self)
        ensures
            r.field == field,
            r.message == message,
    {
        BadRequest { field, message }
    }

    pub fn empty() -> (r: Self)
        ensures
            r.field@ == Seq::<char>::empty(),
            r.message@ == Seq::<char>::empty(),
    {
        BadRequest { field: String::new(), message: String::new() }
    }

    /// The message of this rejection.
    pub fn message_text(&self) -> (r: String)
        ensures
            r@ == bad_request_message(*self),
    {
        let mut s = "Bad request. Field: ".to_owned();
        s.append(self.field.as_str());
        s.append(", message: ");
        s.append(self.message.as_str());
        assert(s@ =~= bad_request_message(*self));
        s
    }
}

impl NotFound {
    /// The resource `resource` is missing; the message says so.
    pub fn new(resource: String) -> (r: Self)
        ensures
            r.resource == resource,
            r.message@ == resource@ + " not found"@,
    {
        let mut message = resource.clone();
        message.append(" not found");
        NotFound { resource, message }
    }
}

/// The messages given for field `key` in `pairs`, in order.
pub open spec fn messages_for(pairs: Seq<(String, String)>, key: Seq<char>) -> Seq<Seq<char>>
    decreases pairs.len(),
{
    if pairs.len() == 0 {
        Seq::empty()
    } else {
        let rest = messages_for(pairs.drop_last(), key);
        if pairs.last().0@ == key {
            rest.push(pairs.last().1@)
        } else {
            rest
        }
    }
}

/// `pairs` names the field `key`.
pub open spec fn names_field(pairs: Seq<(String, String)>, key: Seq<char>) -> bool {
    exists|i: int| 0 <= i < pairs.len() && #[trigger] pairs[i].0@ == key
}

/// The messages of `pairs` grouped by field.
pub open spec fn grouped(pairs: Seq<(String, String)>) -> Map<Seq<char>, Seq<Seq<char>>> {
    Map::new(|key: Seq<char>| names_field(pairs, key), |key: Seq<char>| messages_for(pairs, key))
}

/// The text of each message of one field.
pub open spec fn message_texts(f: FieldErrors) -> Seq<Seq<char>> {
    f.messages@.map_values(|m: String| m@)
}

/// The field map that a list of field entries stands for.
pub open spec fn field_map(fields: Seq<FieldErrors>) -> Map<Seq<char>, Seq<Seq<char>>> {
    Map::new(
        |key: Seq<char>| exists|j: int| 0 <= j < fields.len() && #[trigger] fields[j].key@ == key,
        |key: Seq<char>|
            message_texts(
                fields[choose|j: int| 0 <= j < fields.len() && #[trigger] fields[j].key@ == key],
            ),
    )
}

/// No field appears in two entries.
pub open spec fn fields_distinct(fields: Seq<FieldErrors>) -> bool {
    forall|a: int, b: int|
        0 <= a < b < fields.len() ==> #[trigger] fields[a].key@ != #[trigger] fields[b].key@
}

fn collect_messages(pairs: &Vec<(String, String)>, key: &String) -> (r: Vec<String>)
    ensures
        r@.map_values(|m: String| m@) == messages_for(pairs@, key@),
{
    let mut out: Vec<String> = Vec::new();
    let mut j: usize = 0;
    while j < pairs.len()
        invariant
            j <= pairs@.len(),
            out@.map_values(|m: String| m@) == messages_for(pairs@.take(j as int), key@),
        decreases pairs@.len() - j,
    {
        proof {
            assert(pairs@.take(j + 1).drop_last() =~= pairs@.take(j as int));
        }
        if pairs[j].0 == *key {
            out.push(pairs[j].1.clone());
        }
        assert(out@.map_values(|m: String| m@) =~= messages_for(pairs@.take(j + 1), key@));
        j = j + 1;
    }
    assert(pairs@.take(pairs@.len() as int) =~= pairs@);
    out
}

fn has_field(fields: &Vec<FieldErrors>, key: &String) -> (r: bool)
    ensures
        r == exists|j: int| 0 <= j < fields@.len() && #[trigger] fields@[j].key@ == key@,
{
    let mut j: usize = 0;
    while j < fields.len()
        invariant
            j <= fields@.len(),
            forall|k: int| 0 <= k < j ==> #[trigger] fields@[k].key@ != key@,
        decreases fields@.len() - j,
    {
        if fields[j].key == *key {
            return true;
        }
        j = j + 1;
    }
    false
}

/// The shape of the answer to an error.
#[derive(Debug)]
pub enum ErrorAnswer {
    /// The field errors, as a JSON object under `errors`, with the status.
    FieldErrors { status: u16 },
    /// The message as plain text with the status and the header
    /// `WWW-Authenticate: Token`.
    Challenge { status: u16, message: String },
    /// A JSON object with the error code and the message, with the status.
    Coded { status: u16, code: u16, message: String },
}

impl Error {
    /// How this error is answered: field errors are listed, a missing
    /// authentication is challenged, and every other error gets its code and
    /// message; each with the status of `codes_of`.
    pub fn answer(&self) -> (r: ErrorAnswer)
        ensures
            self is UnprocessableEntity ==> r == (ErrorAnswer::FieldErrors { status: codes_of(*self).0 }),
            self is Unauthorized ==> (r matches ErrorAnswer::Challenge { status, message }
                && status == codes_of(*self).0 && message@ == message_of(*self)),
            !(self is UnprocessableEntity) && !(self is Unauthorized) ==> (r matches ErrorAnswer::Coded {
                status,
                code,
                message,
            } && status == codes_of(*self).0 && code == codes_of(*self).1 && message@ == message_of(*self)),
    {
        let (status, code) = self.get_codes();
        match self {
            Error::UnprocessableEntity { .. } => ErrorAnswer::FieldErrors { status },
            Error::Unauthorized => ErrorAnswer::Challenge { status, message: self.message() },
            _ => ErrorAnswer::Coded { status, code, message: self.message() },
        }
    }

    /// The HTTP status and error code this error is answered with.
    pub fn get_codes(&self) -> (r: (u16, u16))
        ensures
            r == codes_of(*self),
    {
        match self {
            Error::BadRequest(_) => (STATUS_BAD_REQUEST, CLIENT_ERROR_CODE),
            Error::NotFound(_) => (STATUS_NOT_FOUND, CLIENT_ERROR_CODE),
            Error::Authenticate(AuthenticateError::WrongCredentials) => (STATUS_UNAUTHORIZED, CLIENT_ERROR_CODE),
            Error::Authenticate(AuthenticateError::InvalidToken) => (STATUS_UNAUTHORIZED, CLIENT_ERROR_CODE),
            Error::Authenticate(AuthenticateError::Locked) => (STATUS_LOCKED, CLIENT_ERROR_CODE),
            Error::Authenticate(AuthenticateError::TokenCreation) => (STATUS_INTERNAL_SERVER_ERROR, 5001),
            Error::RunSyncTask(_) => (STATUS_INTERNAL_SERVER_ERROR, 5009),
            Error::Sqlx(_) => (STATUS_INTERNAL_SERVER_ERROR, 5002),
            Error::Anyhow(_) => (STATUS_INTERNAL_SERVER_ERROR, 5003),
            Error::Unauthorized => (STATUS_UNAUTHORIZED, CLIENT_ERROR_CODE),
            Error::Forbidden => (STATUS_FORBIDDEN, CLIENT_ERROR_CODE),
            Error::UnprocessableEntity { .. } => (STATUS_UNPROCESSABLE_ENTITY, CLIENT_ERROR_CODE),
            Error::Uuid(_) => (STATUS_BAD_REQUEST, CLIENT_ERROR_CODE),
            Error::SerderError(_) => (STATUS_BAD_REQUEST, CLIENT_ERROR_CODE),
        }
    }

    /// The message shown for this error.
    pub fn message(&self) -> (r: String)
        ensures
            r@ == message_of(*self),
    {
        match self {
            Error::Authenticate(a) => a.message(),
            Error::RunSyncTask(m) => m.clone(),
            Error::NotFound(_) => "Not found".to_owned(),
            Error::SerderError(m) => m.clone(),
            Error::BadRequest(b) => b.message_text(),
            Error::Sqlx(m) => {
                let s = "an error occurred with the database,".to_owned();
                s.concat(m.as_str())
            },
            Error::Uuid(m) => {
                let s = "an error occurred with the uuid,".to_owned();
                s.concat(m.as_str())
            },
            Error::Anyhow(m) => {
                let s = m.clone();
                s.concat("an internal server error occurred")
            },
            Error::Unauthorized => "authentication required".to_owned(),
            Error::Forbidden => "user may not perform that action".to_owned(),
            Error::UnprocessableEntity { .. } => "error in the request body".to_owned(),
        }
    }

    /// An unprocessable-entity error that collects, for every field named in
    /// `errors`, the messages given for it, in order.
    pub fn unprocessable_entity(errors: Vec<(String, String)>) -> (r: Self)
        ensures
            r matches Error::UnprocessableEntity { errors: fields } && fields_distinct(fields@)
                && field_map(fields@) == grouped(errors@),
    {
        let mut fields: Vec<FieldErrors> = Vec::new();
        let mut i: usize = 0;
        while i < errors.len()
            invariant
                i <= errors@.len(),
                fields_distinct(fields@),
                forall|j: int|
                    0 <= j < fields@.len() ==> message_texts(#[trigger] fields@[j]) == messages_for(
                        errors@,
                        fields@[j].key@,
                    ),
                forall|key: Seq<char>|
                    (exists|j: int| 0 <= j < fields@.len() && #[trigger] fields@[j].key@ == key)
                        <==> names_field(errors@.take(i as int), key),
            decreases errors@.len() - i,
        {
            let key = &errors[i].0;
            let ghost before = fields@;
            if !has_field(&fields, key) {
                let messages = collect_messages(&errors, key);
                fields.push(FieldErrors { key: key.clone(), messages });
                proof {
                    let last = fields@.len() - 1;
                    assert(fields@[last].key@ == key@);
                    assert forall|a: int, b: int|
                        0 <= a < b < fields@.len() implies #[trigger] fields@[a].key@
                        != #[trigger] fields@[b].key@ by {
                        if b == last {
                            assert(before[a] == fields@[a]);
                        } else {
                            assert(before[a] == fields@[a]);
                            assert(before[b] == fields@[b]);
                        }
                    }
                    assert forall|j: int|
                        0 <= j < fields@.len() implies message_texts(#[trigger] fields@[j])
                        == messages_for(errors@, fields@[j].key@) by {
                        if j < last {
                            assert(before[j] == fields@[j]);
                        }
                    }
                }
            }
            proof {
                let now = errors@.take(i + 1);
                assert forall|k: Seq<char>|
                    (exists|j: int| 0 <= j < fields@.len() && #[trigger] fields@[j].key@ == k)
                        <==> names_field(now, k) by {
                    if names_field(now, k) {
                        let w = choose|w: int| 0 <= w < now.len() && #[trigger] now[w].0@ == k;
                        if w < i {
                            assert(errors@.take(i as int)[w] == now[w]);
                            assert(names_field(errors@.take(i as int), k));
                            let j = choose|j: int| 0 <= j < before.len() && #[trigger] before[j].key@ == k;
                            assert(fields@[j] == before[j]);
                        } else {
                            assert(now[w] == errors@[i as int]);
                            if !(exists|j: int| 0 <= j < before.len() && #[trigger] before[j].key@ == k) {
                                assert(fields@[fields@.len() - 1].key@ == k);
                            } else {
                                let j = choose|j: int| 0 <= j < before.len() && #[trigger] before[j].key@ == k;
                                assert(fields@[j] == before[j]);
                            }
                        }
                    }
                    if exists|j: int| 0 <= j < fields@.len() && #[trigger] fields@[j].key@ == k {
                        let j = choose|j: int| 0 <= j < fields@.len() && #[trigger] fields@[j].key@ == k;
                        if j < before.len() {
                            assert(before[j] == fields@[j]);
                            assert(names_field(errors@.take(i as int), k));
                            let w = choose|w: int| 0 <= w < i && #[trigger] errors@.take(i as int)[w].0@ == k;
                            assert(now[w] == errors@.take(i as int)[w]);
                        } else {
                            assert(now[i as int] == errors@[i as int]);
                        }
                    }
                }
            }
            i = i + 1;
        }
        proof {
            assert(errors@.take(errors@.len() as int) =~= errors@);
            assert(field_map(fields@) =~= grouped(errors@)) by {
                assert forall|k: Seq<char>| #[trigger] field_map(fields@).contains_key(k) implies field_map(fields@)[k] == grouped(errors@)[k] by {
                    let j = choose|j: int| 0 <= j < fields@.len() && #[trigger] fields@[j].key@ == k;
                }
            }
        }
        Error::UnprocessableEntity { errors: fields }
    }
}

/// Why a service request was turned down: a malformed id, or a rule of the
/// service, with the message shown for it.
#[derive(Debug)]
pub enum ServiceError {
    InvalidUuid,
    Rejected(String),
}

/// Server errors are answered with a 5xx status and a four-digit code
/// starting with 5; every other error is a client error with a 4xx status and
/// the shared client error code.
pub proof fn lemma_status_classes(e: Error)
    ensures
        codes_of(e).0 >= 500 ==> (codes_of(e).0 == 500 && 5000 < codes_of(e).1 < 6000),
        codes_of(e).0 < 500 ==> (400 <= codes_of(e).0 < 500 && codes_of(e).1 == CLIENT_ERROR_CODE),
{
}

} // verus!
