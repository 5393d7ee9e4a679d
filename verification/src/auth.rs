//! Sign-in: the claims a session token carries, the checks a request's
//! token goes through, and the answers given when they fail.
use vstd::prelude::*;
use vstd::string::StringExecFns;
use vstd::utf8::{
    decode_utf8, encode_scalar, encode_utf8, encode_utf8_decode_utf8, encode_utf8_first_scalar,
    encode_utf8_valid_utf8, is_char_boundary, length_of_first_scalar, pop_first_scalar,
};
use crate::text::str_eq;

verus! {

/// Who signs in.
#[derive(Debug)]
pub struct AuthPayload {
    pub user_id: String,
    pub name: String,
}

/// What a session token carries.
#[derive(Debug)]
pub struct Claims {
    pub id: String,
    pub token_id: String,
    pub name: String,
    pub exp: i64,
}

/// Why a request's credentials were refused.
#[derive(Debug, Clone, Copy, PartialEq, Eq)]
pub enum AuthError {
    WrongCredentials,
    MissingCredentials,
    TokenCreation,
    InvalidToken,
    CheckOutToken,
}

/// The answer to a successful sign-in.
#[derive(Debug)]
pub struct AuthBody {
    pub token: String,
    pub token_type: String,
    pub exp: i64,
    pub exp_in: i64,
}

/// Why a token could not be decoded, as far as sign-in tells the cases apart.
#[derive(Debug, Clone, Copy, PartialEq, Eq)]
pub enum DecodeFailure {
    InvalidToken,
    ExpiredSignature,
    Other,
}

/// The HTTP status a refusal is answered with.
pub open spec fn auth_status(e: AuthError) -> u16 {
    match e {
        AuthError::WrongCredentials => 401,
        AuthError::MissingCredentials => 400,
        AuthError::TokenCreation => 500,
        AuthError::InvalidToken => 400,
        AuthError::CheckOutToken => 401,
    }
}

/// The message a refusal is answered with.
pub open spec fn auth_message(e: AuthError) -> Seq<char> {
    match e {
        AuthError::WrongCredentials => "Wrong credentials"@,
        AuthError::MissingCredentials => "Missing credentials"@,
        AuthError::TokenCreation => "Token creation error"@,
        AuthError::InvalidToken => "Invalid token"@,
        AuthError::CheckOutToken => "该账户已经退出"@,
    }
}

impl AuthError {
    /// The HTTP status and message this refusal is answered with.
    pub fn status_and_message(&self) -> (r: (u16, String))
        ensures
            r.0 == auth_status(*self),
            r.1@ == auth_message(*self),
    {
        match self {
            AuthError::WrongCredentials => (401, "Wrong credentials".to_owned()),
            AuthError::MissingCredentials => (400, "Missing credentials".to_owned()),
            AuthError::TokenCreation => (500, "Token creation error".to_owned()),
            AuthError::InvalidToken => (400, "Invalid token".to_owned()),
            AuthError::CheckOutToken => (401, "该账户已经退出".to_owned()),
        }
    }
}

impl AuthBody {
    /// The answer to a sign-in: the token is the encoded claims followed by the
    /// token id, of type `Bearer`.
    pub fn new(access_token: String, exp: i64, exp_in: i64, token_id: String) -> (r: Self)
        ensures
            r.token@ == access_token@ + token_id@,
            r.token_type@ == "Bearer"@,
            r.exp == exp,
            r.exp_in == exp_in,
    {
        AuthBody {
            token: access_token.concat(token_id.as_str()),
            token_type: "Bearer".to_owned(),
            exp,
            exp_in,
        }
    }
}

/// The claims for a sign-in of `payload` under `token_id`, expiring at `exp`:
/// refused with `MissingCredentials` when the user id or the name is empty.
pub fn authorize(payload: AuthPayload, token_id: String, exp: i64) -> (r: Result<Claims, AuthError>)
    ensures
        (payload.user_id@.len() == 0 || payload.name@.len() == 0) ==> r == Err::<
            Claims,
            AuthError,
        >(AuthError::MissingCredentials),
        (payload.user_id@.len() > 0 && payload.name@.len() > 0) ==> (r matches Ok(c) && c.id
            == payload.user_id && c.token_id == token_id && c.name == payload.name && c.exp == exp),
{
    if payload.user_id.as_str().unicode_len() == 0 || payload.name.as_str().unicode_len() == 0 {
        return Err(AuthError::MissingCredentials);
    }
    Ok(Claims { id: payload.user_id, token_id, name: payload.name, exp })
}

/// The answer to a sign-in once the claims have been encoded: refused with
/// `WrongCredentials` when encoding failed.
pub fn finish_authorize(encoded: Option<String>, claims: &Claims, exp_in: i64) -> (r: Result<
    AuthBody,
    AuthError,
>)
    ensures
        encoded is None ==> r == Err::<AuthBody, AuthError>(AuthError::WrongCredentials),
        encoded matches Some(token) ==> (r matches Ok(body) && body.token@ == token@
            + claims.token_id@ && body.token_type@ == "Bearer"@ && body.exp == claims.exp
            && body.exp_in == exp_in),
{
    match encoded {
        Some(token) => Ok(AuthBody::new(token, claims.exp, exp_in, claims.token_id.clone())),
        None => Err(AuthError::WrongCredentials),
    }
}

/// The bytes of `s` in UTF-8.
pub open spec fn utf8_of(s: Seq<char>) -> Seq<u8> {
    encode_utf8(s)
}

/// The token value of the session cookie, given the cookie's text
/// (`token=<value>`): the text after its first six bytes; refused with
/// `InvalidToken` when the request has no session cookie.
pub fn get_cookie_token(cookie: Option<&str>) -> (r: Result<String, AuthError>)
    requires
        cookie matches Some(text) ==> is_char_boundary(utf8_of(text@), 6),
    ensures
        cookie is None ==> r == Err::<String, AuthError>(AuthError::InvalidToken),
        cookie matches Some(text) ==> (r matches Ok(v) && utf8_of(v@) == utf8_of(text@).subrange(
            6,
            utf8_of(text@).len() as int,
        )),
{
    match cookie {
        None => Err(AuthError::InvalidToken),
        Some(text) => {
            let (_, rest) = text.split_at(6);
            Ok(rest.to_owned())
        },
    }
}

/// The text of the session cookie that holds `token`: `token=` and the token.
pub open spec fn session_cookie_text(token: Seq<char>) -> Seq<char> {
    "token="@ + token
}

/// The UTF-8 of two strings one after the other is the UTF-8 of the first
/// followed by that of the second.
proof fn lemma_utf8_concat(a: Seq<char>, b: Seq<char>)
    ensures
        utf8_of(a + b) == utf8_of(a) + utf8_of(b),
    decreases a.len(),
{
    if a.len() == 0 {
        assert(a + b =~= b);
        assert(utf8_of(a) + utf8_of(b) =~= utf8_of(b));
    } else {
        assert((a + b).drop_first() =~= a.drop_first() + b);
        lemma_utf8_concat(a.drop_first(), b);
        assert(utf8_of(a + b) =~= utf8_of(a) + utf8_of(b));
    }
}

/// Where the UTF-8 of `a` ends in that of `a + b`, a character starts.
proof fn lemma_utf8_boundary_after(a: Seq<char>, b: Seq<char>)
    ensures
        is_char_boundary(utf8_of(a + b), utf8_of(a).len() as int),
    decreases a.len(),
{
    let bytes = encode_utf8(a + b);
    encode_utf8_valid_utf8(a + b);
    lemma_utf8_concat(a, b);
    if a.len() > 0 {
        let ab = a + b;
        encode_utf8_first_scalar(ab);
        assert(ab[0] == a[0]);
        assert(ab.drop_first() =~= a.drop_first() + b);
        assert(pop_first_scalar(bytes) =~= encode_utf8(a.drop_first() + b));
        assert(length_of_first_scalar(bytes) == encode_scalar(a[0] as u32).len());
        lemma_utf8_boundary_after(a.drop_first(), b);
        assert(utf8_of(a).len() == encode_scalar(a[0] as u32).len() + utf8_of(a.drop_first()).len());
        assert(encode_scalar(a[0] as u32).len() > 0);
    }
}

/// The session cookie's text is read back as the token it holds: the
/// six-byte `token=` ends at a character, and the value whose UTF-8 is what
/// follows those six bytes (what `get_cookie_token` gives) is the token.
pub proof fn lemma_cookie_reads_back(token: Seq<char>, v: Seq<char>)
    ensures
        is_char_boundary(utf8_of(session_cookie_text(token)), 6),
        utf8_of(v) == utf8_of(session_cookie_text(token)).subrange(
            6,
            utf8_of(session_cookie_text(token)).len() as int,
        ) ==> v == token,
{
    let prefix = "token="@;
    reveal_strlit("token=");
    assert(utf8_of(prefix).len() == 6) by {
        let p5 = prefix.drop_first();
        let p4 = p5.drop_first();
        let p3 = p4.drop_first();
        let p2 = p3.drop_first();
        let p1 = p2.drop_first();
        let p0 = p1.drop_first();
        assert(p0.len() == 0);
        assert(encode_scalar(prefix[0] as u32).len() == 1);
        assert(encode_scalar(p5[0] as u32).len() == 1);
        assert(encode_scalar(p4[0] as u32).len() == 1);
        assert(encode_scalar(p3[0] as u32).len() == 1);
        assert(encode_scalar(p2[0] as u32).len() == 1);
        assert(encode_scalar(p1[0] as u32).len() == 1);
        assert(utf8_of(p0).len() == 0);
        assert(utf8_of(p1).len() == 1);
        assert(utf8_of(p2).len() == 2);
        assert(utf8_of(p3).len() == 3);
        assert(utf8_of(p4).len() == 4);
        assert(utf8_of(p5).len() == 5);
    }
    lemma_utf8_concat(prefix, token);
    lemma_utf8_boundary_after(prefix, token);
    let all = utf8_of(session_cookie_text(token));
    assert(all.subrange(6, all.len() as int) =~= utf8_of(token));
    if utf8_of(v) == all.subrange(6, all.len() as int) {
        encode_utf8_decode_utf8(v);
        encode_utf8_decode_utf8(token);
        assert(decode_utf8(utf8_of(v)) == decode_utf8(utf8_of(token)));
    }
}

/// The refusal given for a token that could not be decoded.
pub open spec fn decode_refusal(f: DecodeFailure) -> AuthError {
    match f {
        DecodeFailure::InvalidToken => AuthError::InvalidToken,
        DecodeFailure::ExpiredSignature => AuthError::MissingCredentials,
        DecodeFailure::Other => AuthError::WrongCredentials,
    }
}

/// Whether a request's token opens a session: a token that could not be
/// decoded is refused according to why; a decoded token is accepted exactly
/// when its session is still online (`online`), and refused with
/// `CheckOutToken` otherwise.
pub fn check_session(decoded: Result<Claims, DecodeFailure>, online: bool) -> (r: Result<
    Claims,
    AuthError,
>)
    ensures
        decoded matches Err(f) ==> r == Err::<Claims, AuthError>(decode_refusal(f)),
        decoded matches Ok(c) ==> (online ==> r == Ok::<Claims, AuthError>(c)),
        decoded matches Ok(c) ==> (!online ==> r == Err::<Claims, AuthError>(
            AuthError::CheckOutToken,
        )),
{
    match decoded {
        Ok(claims) => {
            if online {
                Ok(claims)
            } else {
                Err(AuthError::CheckOutToken)
            }
        },
        Err(DecodeFailure::InvalidToken) => Err(AuthError::InvalidToken),
        Err(DecodeFailure::ExpiredSignature) => Err(AuthError::MissingCredentials),
        Err(DecodeFailure::Other) => Err(AuthError::WrongCredentials),
    }
}

/// Whether `user_id` is one of the configured super users.
pub fn is_super_user(super_users: &Vec<String>, user_id: &str) -> (r: bool)
    ensures
        r == exists|i: int| 0 <= i < super_users@.len() && #[trigger] super_users@[i]@ == user_id@,
{
    let mut i: usize = 0;
    while i < super_users.len()
        invariant
            i <= super_users@.len(),
            forall|k: int| 0 <= k < i ==> #[trigger] super_users@[k]@ != user_id@,
        decreases super_users@.len() - i,
    {
        if str_eq(super_users[i].as_str(), user_id) {
            return true;
        }
        i = i + 1;
    }
    false
}

/// The online session to record after a sign-in attempt: the token id and the
/// expiry of the token, when the attempt succeeded (status `"1"`) and both
/// are known; nothing otherwise.
pub fn online_session(status: &str, token_id: Option<String>, token: Option<AuthBody>) -> (r: Option<
    (String, i64),
>)
    ensures
        (status@ == "1"@ && token_id is Some && token is Some) ==> r == Some(
            (token_id->0, token->0.exp),
        ),
        !(status@ == "1"@ && token_id is Some && token is Some) ==> r is None,
{
    if str_eq(status, "1") {
        match (token_id, token) {
            (Some(id), Some(body)) => Some((id, body.exp)),
            _ => None,
        }
    } else {
        None
    }
}

} // verus!
