use vstd::prelude::*;
use vstd::utf8::encode_utf8;
use crate::auth::{login_outcome, result_view, signup_outcome, AuthService};
use crate::directory::Identity;
use crate::error::AuthError;

verus! {

#[verifier::external_type_specification]
#[verifier::external_body]
pub struct ExAuthBasicError(http_auth_basic::AuthBasicError);

/// The name and password that an HTTP `Authorization` header value of the
/// `Basic` scheme carries, or `None` where the value is not one.
pub uninterp spec fn basic_credentials_of(header: Seq<char>) -> Option<(Seq<char>, Seq<char>)>;

/// Relies on http_auth_basic::Credentials::from_header to split a header
/// value into scheme and token, check the scheme, and decode the token into a
/// name and a password. A value without a space has no token and is refused.
#[verifier::external_body]
fn parse_basic_header(header: String) -> (r: Result<(String, String), http_auth_basic::AuthBasicError>)
    ensures
        match r {
            Ok(c) => basic_credentials_of(header@) == Some((c.0@, c.1@)),
            Err(_) => basic_credentials_of(header@) is None,
        },
        !header@.contains(' ') ==> r is Err,
{
    http_auth_basic::Credentials::from_header(header).map(|c| (c.user_id, c.password))
}

/// The name and password that a `Basic` header value carries; any header
/// that cannot be read fails with `MalformedCredentials`.
pub fn credentials_from_header(header: String) -> (r: Result<(String, String), AuthError>)
    ensures
        match r {
            Ok(c) => basic_credentials_of(header@) == Some((c.0@, c.1@)),
            Err(e) => e == AuthError::MalformedCredentials && basic_credentials_of(header@) is None,
        },
        !header@.contains(' ') ==> r == Err::<(String, String), AuthError>(
            AuthError::MalformedCredentials,
        ),
{
    match parse_basic_header(header) {
        Ok(c) => Ok(c),
        Err(_) => Err(AuthError::MalformedCredentials),
    }
}

/// The services that the request layer calls.
pub struct Services {
    pub auth_service: AuthService,
}

impl Services {
    /// Services over empty tables.
    pub fn init() -> (r: Self)
        ensures
            r.auth_service.wf(),
            r.auth_service.identities() == Seq::<(u128, Seq<char>)>::empty(),
            r.auth_service.secrets() == Seq::<(u128, Seq<char>)>::empty(),
    {
        Services { auth_service: AuthService::new() }
    }
}

/// A signup request: the name to register and its password.
pub struct UserRegister {
    pub name: String,
    pub password: String,
}

/// Handles a signup request.
pub fn signup(services: &mut Services, user_register: UserRegister) -> (r: Result<Identity, AuthError>)
    requires
        old(services).auth_service.wf(),
    ensures
        final(services).auth_service.wf(),
        signup_outcome(
            old(services).auth_service.identities(),
            old(services).auth_service.secrets(),
            final(services).auth_service.identities(),
            final(services).auth_service.secrets(),
            user_register.name@,
            encode_utf8(user_register.password@),
            result_view(r),
        ),
{
    services.auth_service.signup(user_register.name, user_register.password)
}

/// Handles a login request that presents an `Authorization` header value. A
/// header that cannot be read fails before any lookup.
pub fn login(services: &Services, auth_header_value: String) -> (r: Result<Identity, AuthError>)
    requires
        services.auth_service.wf(),
    ensures
        match basic_credentials_of(auth_header_value@) {
            None => r == Err::<Identity, AuthError>(AuthError::MalformedCredentials),
            Some(c) => result_view(r) == login_outcome(
                services.auth_service.identities(),
                services.auth_service.secrets(),
                c.0,
                encode_utf8(c.1),
            ),
        },
{
    let (name, password) = match credentials_from_header(auth_header_value) {
        Ok(c) => c,
        Err(e) => {
            return Err(e);
        },
    };
    services.auth_service.login(&name, &password)
}

} // verus!
