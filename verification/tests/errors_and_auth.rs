use playoh::auth::{
    authorize, check_session, finish_authorize, get_cookie_token, is_super_user, online_session,
    AuthBody, AuthError, AuthPayload, Claims, DecodeFailure,
};
use playoh::error::{AuthenticateError, BadRequest, Error, ErrorAnswer, NotFound};

#[test]
fn error_codes() {
    assert_eq!(Error::BadRequest(BadRequest::empty()).get_codes(), (400, 40003));
    assert_eq!(Error::NotFound(NotFound::new("menu".to_string())).get_codes(), (404, 40003));
    assert_eq!(Error::Authenticate(AuthenticateError::WrongCredentials).get_codes(), (401, 40003));
    assert_eq!(Error::Authenticate(AuthenticateError::InvalidToken).get_codes(), (401, 40003));
    assert_eq!(Error::Authenticate(AuthenticateError::Locked).get_codes(), (423, 40003));
    assert_eq!(Error::Authenticate(AuthenticateError::TokenCreation).get_codes(), (500, 5001));
    assert_eq!(Error::RunSyncTask("j".to_string()).get_codes(), (500, 5009));
    assert_eq!(Error::Sqlx("s".to_string()).get_codes(), (500, 5002));
    assert_eq!(Error::Anyhow("a".to_string()).get_codes(), (500, 5003));
    assert_eq!(Error::Unauthorized.get_codes(), (401, 40003));
    assert_eq!(Error::Forbidden.get_codes(), (403, 40003));
    assert_eq!(Error::Uuid("u".to_string()).get_codes(), (400, 40003));
    assert_eq!(Error::SerderError("j".to_string()).get_codes(), (400, 40003));
    assert_eq!(Error::unprocessable_entity(Vec::new()).get_codes(), (422, 40003));
}

#[test]
fn error_messages() {
    assert_eq!(Error::Sqlx("boom".to_string()).message(), "an error occurred with the database,boom");
    assert_eq!(Error::Uuid("bad".to_string()).message(), "an error occurred with the uuid,bad");
    assert_eq!(Error::Anyhow("oops ".to_string()).message(), "oops an internal server error occurred");
    assert_eq!(Error::Unauthorized.message(), "authentication required");
    assert_eq!(Error::Forbidden.message(), "user may not perform that action");
    assert_eq!(Error::NotFound(NotFound::new("x".to_string())).message(), "Not found");
    assert_eq!(
        Error::BadRequest(BadRequest::new("name".to_string(), "empty".to_string())).message(),
        "Bad request. Field: name, message: empty"
    );
    assert_eq!(Error::Authenticate(AuthenticateError::Locked).message(), "User is locked");
    assert_eq!(Error::unprocessable_entity(Vec::new()).message(), "error in the request body");
}

#[test]
fn not_found_message_names_the_resource() {
    let n = NotFound::new("function".to_string());
    assert_eq!(n.resource, "function");
    assert_eq!(n.message, "function not found");
    let b = BadRequest::empty();
    assert_eq!((b.field.as_str(), b.message.as_str()), ("", ""));
}

#[test]
fn unprocessable_entity_groups_by_field() {
    let e = Error::unprocessable_entity(vec![
        ("email".to_string(), "does not exist".to_string()),
        ("password".to_string(), "too short".to_string()),
        ("email".to_string(), "is taken".to_string()),
    ]);
    match e {
        Error::UnprocessableEntity { errors } => {
            assert_eq!(errors.len(), 2);
            let email = errors.iter().find(|f| f.key == "email").unwrap();
            assert_eq!(email.messages, vec!["does not exist", "is taken"]);
            let pw = errors.iter().find(|f| f.key == "password").unwrap();
            assert_eq!(pw.messages, vec!["too short"]);
        }
        _ => panic!("expected an unprocessable entity"),
    }
}

fn payload(id: &str, name: &str) -> AuthPayload {
    AuthPayload { user_id: id.to_string(), name: name.to_string() }
}

#[test]
fn authorize_needs_user_and_name() {
    assert_eq!(authorize(payload("", "bob"), "t".to_string(), 9).unwrap_err(), AuthError::MissingCredentials);
    assert_eq!(authorize(payload("u", ""), "t".to_string(), 9).unwrap_err(), AuthError::MissingCredentials);
    let c = authorize(payload("u", "bob"), "tid".to_string(), 1700000000).unwrap();
    assert_eq!((c.id.as_str(), c.token_id.as_str(), c.name.as_str(), c.exp), ("u", "tid", "bob", 1700000000));
}

#[test]
fn sign_in_answer() {
    let body = AuthBody::new("abc.def".to_string(), 10, 60, "TID".to_string());
    assert_eq!(body.token, "abc.defTID");
    assert_eq!(body.token_type, "Bearer");
    assert_eq!((body.exp, body.exp_in), (10, 60));
    let claims = Claims { id: "u".to_string(), token_id: "T".to_string(), name: "n".to_string(), exp: 5 };
    let ok = finish_authorize(Some("jwt".to_string()), &claims, 30).unwrap();
    assert_eq!(ok.token, "jwtT");
    assert_eq!((ok.exp, ok.exp_in), (5, 30));
    assert_eq!(finish_authorize(None, &claims, 30).unwrap_err(), AuthError::WrongCredentials);
}

#[test]
fn refusals_answer_with_status_and_message() {
    assert_eq!(AuthError::WrongCredentials.status_and_message(), (401, "Wrong credentials".to_string()));
    assert_eq!(AuthError::MissingCredentials.status_and_message(), (400, "Missing credentials".to_string()));
    assert_eq!(AuthError::TokenCreation.status_and_message(), (500, "Token creation error".to_string()));
    assert_eq!(AuthError::InvalidToken.status_and_message(), (400, "Invalid token".to_string()));
    assert_eq!(AuthError::CheckOutToken.status_and_message(), (401, "该账户已经退出".to_string()));
}

#[test]
fn cookie_value_follows_the_name() {
    assert_eq!(get_cookie_token(Some("token=abc.def")).unwrap(), "abc.def");
    assert_eq!(get_cookie_token(Some("token=")).unwrap(), "");
    assert_eq!(get_cookie_token(None).unwrap_err(), AuthError::InvalidToken);
}

#[test]
fn session_checks() {
    let claims = || Claims { id: "u".to_string(), token_id: "T".to_string(), name: "n".to_string(), exp: 5 };
    assert_eq!(check_session(Ok(claims()), true).unwrap().token_id, "T");
    assert_eq!(check_session(Ok(claims()), false).unwrap_err(), AuthError::CheckOutToken);
    assert_eq!(check_session(Err(DecodeFailure::InvalidToken), true).unwrap_err(), AuthError::InvalidToken);
    assert_eq!(check_session(Err(DecodeFailure::ExpiredSignature), true).unwrap_err(), AuthError::MissingCredentials);
    assert_eq!(check_session(Err(DecodeFailure::Other), true).unwrap_err(), AuthError::WrongCredentials);
}

#[test]
fn super_users_and_online_sessions() {
    let supers = vec!["a".to_string(), "b".to_string()];
    assert!(is_super_user(&supers, "b"));
    assert!(!is_super_user(&supers, "c"));
    assert!(!is_super_user(&Vec::new(), "a"));
    let body = || AuthBody::new("x".to_string(), 99, 60, "T".to_string());
    assert_eq!(online_session("1", Some("T".to_string()), Some(body())), Some(("T".to_string(), 99)));
    assert_eq!(online_session("0", Some("T".to_string()), Some(body())), None);
    assert_eq!(online_session("1", None, Some(body())), None);
    assert_eq!(online_session("1", Some("T".to_string()), None), None);
}

#[test]
fn error_answers() {
    match Error::Unauthorized.answer() {
        ErrorAnswer::Challenge { status, message } => {
            assert_eq!(status, 401);
            assert_eq!(message, "authentication required");
        }
        other => panic!("unexpected {:?}", other),
    }
    match Error::Sqlx("boom".to_string()).answer() {
        ErrorAnswer::Coded { status, code, message } => {
            assert_eq!(status, 500);
            assert_eq!(code, 5002);
            assert_eq!(message, "an error occurred with the database,boom");
        }
        other => panic!("unexpected {:?}", other),
    }
    match Error::unprocessable_entity(vec![("email".to_string(), "taken".to_string())]).answer() {
        ErrorAnswer::FieldErrors { status } => assert_eq!(status, 422),
        other => panic!("unexpected {:?}", other),
    }
}
