use chat_auth::auth::AuthService;
use chat_auth::directory::UserDirectory;
use chat_auth::error::AuthError;
use chat_auth::handler::{credentials_from_header, login, signup, Services, UserRegister};

fn register(name: &str, password: &str) -> UserRegister {
    UserRegister { name: name.to_string(), password: password.to_string() }
}

#[test]
fn second_signup_of_same_name_is_taken() {
    let mut services = Services::init();
    let first = signup(&mut services, register("alice", "one"));
    let second = signup(&mut services, register("alice", "two"));
    assert!(first.is_ok());
    assert_eq!(second.err(), Some(AuthError::NameTaken));
    assert_eq!(services.auth_service.user_count(), 1);
    let found = services.auth_service.login(&"alice".to_string(), &"one".to_string()).unwrap();
    assert_eq!(found.name, "alice");
    assert_eq!(
        services.auth_service.login(&"alice".to_string(), &"two".to_string()).err(),
        Some(AuthError::InvalidCredentials)
    );
}

#[test]
fn signup_then_login_returns_same_identity() {
    let mut services = Services::init();
    let created = signup(&mut services, register("bob", "secret123")).unwrap();
    let logged = login(&services, "Basic Ym9iOnNlY3JldDEyMw==".to_string()).unwrap();
    assert_eq!(logged.id, created.id);
    assert_eq!(logged.name, "bob");
    assert_eq!(created.name, "bob");
}

#[test]
fn wrong_password_is_invalid_credentials() {
    let mut services = Services::init();
    signup(&mut services, register("carol", "right")).unwrap();
    let r = login(&services, "Basic Y2Fyb2w6d3Jvbmc=".to_string());
    assert_eq!(r.err(), Some(AuthError::InvalidCredentials));
    let ok = login(&services, "Basic Y2Fyb2w6cmlnaHQ=".to_string());
    assert!(ok.is_ok());
}

#[test]
fn unknown_user_is_reported() {
    let mut services = Services::init();
    signup(&mut services, register("someone", "pw")).unwrap();
    let r = login(&services, "Basic bm9uZXhpc3RlbnQ6YW55dGhpbmc=".to_string());
    assert_eq!(r.err(), Some(AuthError::UnknownUser));
    let empty = Services::init();
    let r = login(&empty, "Basic bm9uZXhpc3RlbnQ6YW55dGhpbmc=".to_string());
    assert_eq!(r.err(), Some(AuthError::UnknownUser));
}

#[test]
fn dan_signs_up_once() {
    let mut services = Services::init();
    let dan = signup(&mut services, register("dan", "p@ss")).unwrap();
    assert_eq!(dan.name, "dan");
    let again = signup(&mut services, register("dan", "other"));
    assert_eq!(again.err(), Some(AuthError::NameTaken));
    let logged = login(&services, "Basic ZGFuOnBAc3M=".to_string()).unwrap();
    assert_eq!(logged.id, dan.id);
}

#[test]
fn distinct_users_get_distinct_ids() {
    let mut service = AuthService::new();
    let a = service.signup("a".to_string(), "pw".to_string()).unwrap();
    let b = service.signup("b".to_string(), "pw".to_string()).unwrap();
    assert_ne!(a.id, b.id);
    assert_eq!(service.user_count(), 2);
    assert_eq!(service.login(&"a".to_string(), &"pw".to_string()).unwrap().id, a.id);
    assert_eq!(service.login(&"b".to_string(), &"pw".to_string()).unwrap().id, b.id);
}

#[test]
fn malformed_headers_are_rejected() {
    let mut services = Services::init();
    signup(&mut services, register("bob", "secret123")).unwrap();
    for header in [
        "",
        "BasicYm9iOnNlY3JldDEyMw==",
        "Bearer Ym9iOnNlY3JldDEyMw==",
        "Basic Ym9iOnNl Y3JldDEyMw==",
        "Basic bm9jb2xvbg==",
        "Basic !!!notbase64",
    ] {
        assert_eq!(login(&services, header.to_string()).err(), Some(AuthError::MalformedCredentials));
    }
}

#[test]
fn header_is_decoded_into_name_and_password() {
    let (name, password) = credentials_from_header("Basic YTpiOmM=".to_string()).unwrap();
    assert_eq!(name, "a");
    assert_eq!(password, "b:c");
    let (name, password) = credentials_from_header("basic ZGFuOnBAc3M=".to_string()).unwrap();
    assert_eq!(name, "dan");
    assert_eq!(password, "p@ss");
    assert_eq!(
        credentials_from_header("nospace".to_string()).err(),
        Some(AuthError::MalformedCredentials)
    );
}

#[test]
fn directory_refuses_taken_name_and_clashing_id() {
    let mut dir = UserDirectory::new();
    let x = dir.create_with_id("x".to_string(), 5).unwrap();
    assert_eq!(x.id, 5);
    assert_eq!(x.name, "x");
    assert_eq!(dir.create_with_id("x".to_string(), 6).err(), Some(AuthError::NameTaken));
    assert_eq!(dir.create_with_id("y".to_string(), 5).err(), Some(AuthError::StorageError));
    assert_eq!(dir.len(), 1);
    let y = dir.create("y".to_string()).unwrap();
    assert_eq!(dir.len(), 2);
    assert_eq!(dir.find_by_name(&"y".to_string()).unwrap().id, y.id);
    assert_eq!(dir.find_by_name(&"x".to_string()).unwrap().id, 5);
    assert!(dir.find_by_name(&"z".to_string()).is_none());
}

#[test]
fn error_status_codes() {
    assert_eq!(AuthError::NameTaken.status_code(), 400);
    assert_eq!(AuthError::UnknownUser.status_code(), 400);
    assert_eq!(AuthError::InvalidCredentials.status_code(), 403);
    assert_eq!(AuthError::MalformedCredentials.status_code(), 400);
    assert_eq!(AuthError::HashingError.status_code(), 500);
    assert_eq!(AuthError::StorageError.status_code(), 500);
    assert!(AuthError::HashingError.is_internal());
    assert!(AuthError::StorageError.is_internal());
    assert!(!AuthError::NameTaken.is_internal());
    assert!(!AuthError::InvalidCredentials.is_internal());
}

#[test]
fn signup_with_clashing_id_is_storage_error() {
    let mut service = AuthService::new();
    let a = service.signup_with_id("a".to_string(), "pw".to_string(), 42).unwrap();
    assert_eq!(a.id, 42);
    assert_eq!(a.name, "a");
    let clash = service.signup_with_id("b".to_string(), "pw".to_string(), 42);
    assert_eq!(clash.err(), Some(AuthError::StorageError));
    assert_eq!(service.user_count(), 1);
    let taken = service.signup_with_id("a".to_string(), "pw".to_string(), 43);
    assert_eq!(taken.err(), Some(AuthError::NameTaken));
    let b = service.signup_with_id("b".to_string(), "pw2".to_string(), 43).unwrap();
    assert_eq!(b.id, 43);
    assert_eq!(service.login(&"b".to_string(), &"pw2".to_string()).unwrap().id, 43);
    assert_eq!(
        service.login(&"b".to_string(), &"pw".to_string()).err(),
        Some(AuthError::InvalidCredentials)
    );
}
