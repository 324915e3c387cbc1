use conduit::authentication::{bearer_token, identify, AuthData, Identity};
use conduit::errors::{dispatch_error, Error, FieldError};

fn ada() -> AuthData {
    AuthData { id: 1, username: "ada".to_string(), exp: i32::MAX }
}

#[test]
fn token_scheme_is_case_insensitive() {
    assert_eq!(bearer_token("Token abc.def"), Some("abc.def".to_string()));
    assert_eq!(bearer_token("token abc"), Some("abc".to_string()));
    assert_eq!(bearer_token("TOKEN xyz"), Some("xyz".to_string()));
    assert_eq!(bearer_token("Token "), Some("".to_string()));
}

#[test]
fn other_schemes_and_short_headers_have_no_token() {
    assert_eq!(bearer_token("Bearer abc"), None);
    assert_eq!(bearer_token("Tokenabc"), None);
    assert_eq!(bearer_token("Tok"), None);
    assert_eq!(bearer_token(""), None);
}

#[test]
fn missing_header_is_anonymous_and_unauthorized_where_required() {
    let id = identify(None, None);
    assert!(matches!(id, Identity::Anonymous));
    assert_eq!(id.optional(), None);
    assert!(matches!(id.required(), Err(Error::Unauthorized)));
}

#[test]
fn malformed_or_unverified_header_is_forbidden() {
    let id = identify(Some("Bearer abc"), Some(ada()));
    assert!(matches!(id, Identity::Rejected));
    assert!(matches!(id.required(), Err(Error::Forbidden)));
    let id = identify(Some("Token abc"), None);
    assert!(matches!(id, Identity::Rejected));
    assert_eq!(id.optional(), None);
    assert!(matches!(id.required(), Err(Error::Forbidden)));
}

#[test]
fn verified_token_authenticates() {
    let id = identify(Some("Token abc"), Some(ada()));
    assert_eq!(id.optional(), Some(1));
    match id.required() {
        Ok(d) => {
            assert_eq!(d.id, 1);
            assert_eq!(d.username, "ada");
        }
        Err(e) => panic!("unexpected {:?}", e),
    }
}

#[test]
fn error_status_codes() {
    assert_eq!(Error::NotFound.status(), 404);
    assert_eq!(Error::Forbidden.status(), 403);
    assert_eq!(Error::Unauthorized.status(), 401);
    assert_eq!(Error::AuthError.status(), 422);
    assert_eq!(Error::ValidationFailed(vec![]).status(), 422);
    assert_eq!(Error::Conflict("users".to_string(), "email".to_string()).status(), 422);
    assert_eq!(Error::InternalServerError("a".to_string(), "b".to_string()).status(), 500);
}

#[test]
fn errors_map_to_payloads() {
    let (p, code) = dispatch_error(&Error::Conflict("users".to_string(), "email".to_string()));
    assert_eq!(code, 422);
    assert_eq!(p.len(), 1);
    assert_eq!(p[0].field, "users email");
    assert_eq!(p[0].message, "already exists");
    let (p, code) = dispatch_error(&Error::InternalServerError("password".to_string(), "secret detail".to_string()));
    assert_eq!(code, 500);
    assert_eq!(p[0].field, "password");
    assert_eq!(p[0].message, "internal error");
    let fields = vec![FieldError { field: "body".to_string(), message: "is empty".to_string() }];
    let (p, code) = dispatch_error(&Error::ValidationFailed(fields));
    assert_eq!(code, 422);
    assert_eq!(p[0].field, "body");
    assert_eq!(p[0].message, "is empty");
    let (p, code) = dispatch_error(&Error::NotFound);
    assert_eq!(code, 404);
    assert_eq!(p[0].field, "not found");
    let (p, code) = dispatch_error(&Error::Unauthorized);
    assert_eq!(code, 401);
    assert_eq!(p[0].field, "unauthorized");
}
