use vstd::prelude::*;
use vstd::utf8::encode_utf8;
use crate::directory::{has_name, names_unique, random_id, Identity, UserDirectory};
use crate::error::AuthError;
use crate::secret::{
    hash_accepts, has_user, make_hash, user_ids_unique, verify_hash, SecretStore,
    MAX_PASSWORD_LEN,
};

verus! {

/// A state of the two tables that the service keeps: identity names and ids
/// are unique, and the i-th secret belongs to the i-th identity, so every
/// identity has exactly one secret.
pub open spec fn tables_valid(users: Seq<(u128, Seq<char>)>, secrets: Seq<(u128, Seq<char>)>) -> bool {
    &&& names_unique(users)
    &&& user_ids_unique(users)
    &&& secrets.len() == users.len()
    &&& forall|i: int| 0 <= i < users.len() ==> #[trigger] secrets[i].0 == users[i].0
}

/// Position of the identity named `name`; meaningful where one exists.
pub open spec fn index_of_name(users: Seq<(u128, Seq<char>)>, name: Seq<char>) -> int {
    choose|i: int| 0 <= i < users.len() && #[trigger] users[i].1 == name
}

/// What a login with `name` and `password` yields against the tables: the
/// identity when its stored hash accepts the password, `InvalidCredentials`
/// when it does not, and `UnknownUser` when no identity has that name.
pub open spec fn login_outcome(
    users: Seq<(u128, Seq<char>)>,
    secrets: Seq<(u128, Seq<char>)>,
    name: Seq<char>,
    password: Seq<u8>,
) -> Result<(u128, Seq<char>), AuthError> {
    if has_name(users, name) {
        let i = index_of_name(users, name);
        if hash_accepts(secrets[i].1, password) {
            Ok(users[i])
        } else {
            Err(AuthError::InvalidCredentials)
        }
    } else {
        Err(AuthError::UnknownUser)
    }
}

/// What a signup of `name` with `password` may do to the tables, given its
/// result. A taken name is refused first, before any hashing. Otherwise a
/// password too long to hash is refused, a fresh identity is appended
/// together with a hash that accepts the password, or, where the drawn id
/// clashes with an existing identity, which needs one to exist, a storage
/// fault is reported. Every failure leaves both tables as they were.
pub open spec fn signup_outcome(
    users: Seq<(u128, Seq<char>)>,
    secrets: Seq<(u128, Seq<char>)>,
    users2: Seq<(u128, Seq<char>)>,
    secrets2: Seq<(u128, Seq<char>)>,
    name: Seq<char>,
    password: Seq<u8>,
    r: Result<(u128, Seq<char>), AuthError>,
) -> bool {
    if has_name(users, name) {
        r == Err::<(u128, Seq<char>), AuthError>(AuthError::NameTaken) && users2 == users
            && secrets2 == secrets
    } else if password.len() > MAX_PASSWORD_LEN {
        r == Err::<(u128, Seq<char>), AuthError>(AuthError::HashingError) && users2 == users
            && secrets2 == secrets
    } else {
        match r {
            Ok(x) => {
                &&& x.1 == name
                &&& !has_user(users, x.0)
                &&& users2 == users.push(x)
                &&& secrets2.len() == secrets.len() + 1
                &&& secrets2 == secrets.push((x.0, secrets2.last().1))
                &&& hash_accepts(secrets2.last().1, password)
            },
            Err(e) => e == AuthError::StorageError && users.len() > 0 && users2 == users
                && secrets2 == secrets,
        }
    }
}

/// What a signup of `name` with `password` under the id `id` does to the
/// tables: as [`signup_outcome`], where the storage fault comes exactly when
/// `id` already belongs to an identity, and success otherwise.
pub open spec fn signup_with_id_outcome(
    users: Seq<(u128, Seq<char>)>,
    secrets: Seq<(u128, Seq<char>)>,
    users2: Seq<(u128, Seq<char>)>,
    secrets2: Seq<(u128, Seq<char>)>,
    name: Seq<char>,
    password: Seq<u8>,
    id: u128,
    r: Result<(u128, Seq<char>), AuthError>,
) -> bool {
    if has_name(users, name) {
        r == Err::<(u128, Seq<char>), AuthError>(AuthError::NameTaken) && users2 == users
            && secrets2 == secrets
    } else if password.len() > MAX_PASSWORD_LEN {
        r == Err::<(u128, Seq<char>), AuthError>(AuthError::HashingError) && users2 == users
            && secrets2 == secrets
    } else if has_user(users, id) {
        r == Err::<(u128, Seq<char>), AuthError>(AuthError::StorageError) && users2 == users
            && secrets2 == secrets
    } else {
        &&& r == Ok::<(u128, Seq<char>), AuthError>((id, name))
        &&& users2 == users.push((id, name))
        &&& secrets2.len() == secrets.len() + 1
        &&& secrets2 == secrets.push((id, secrets2.last().1))
        &&& hash_accepts(secrets2.last().1, password)
    }
}

/// The view of a result that carries an identity.
pub open spec fn result_view(r: Result<Identity, AuthError>) -> Result<(u128, Seq<char>), AuthError> {
    match r {
        Ok(x) => Ok(x@),
        Err(e) => Err(e),
    }
}

/// Signs users up and logs them in against a user directory and a secret
/// store that it owns.
pub struct AuthService {
    users: UserDirectory,
    secrets: SecretStore,
}

impl AuthService {
    /// The identities, as (id, name).
    pub closed spec fn identities(&self) -> Seq<(u128, Seq<char>)> {
        self.users@
    }

    /// The secrets, as (user id, encoded hash).
    pub closed spec fn secrets(&self) -> Seq<(u128, Seq<char>)> {
        self.secrets@
    }

    pub open spec fn wf(&self) -> bool {
        tables_valid(self.identities(), self.secrets())
    }

    /// A service with no identities.
    pub fn new() -> (r: AuthService)
        ensures
            r.wf(),
            r.identities() == Seq::<(u128, Seq<char>)>::empty(),
            r.secrets() == Seq::<(u128, Seq<char>)>::empty(),
    {
        AuthService { users: UserDirectory::new(), secrets: SecretStore::new() }
    }

    /// Number of registered identities.
    pub fn user_count(&self) -> (r: usize)
        ensures
            r == self.identities().len(),
    {
        self.users.len()
    }

    /// Registers `name` with `password` under a freshly drawn random id: the
    /// identity and its hashed secret are written together, or neither is.
    pub fn signup(&mut self, name: String, password: String) -> (r: Result<Identity, AuthError>)
        requires
            old(self).wf(),
        ensures
            final(self).wf(),
            signup_outcome(
                old(self).identities(),
                old(self).secrets(),
                final(self).identities(),
                final(self).secrets(),
                name@,
                encode_utf8(password@),
                result_view(r),
            ),
    {
        let id = random_id();
        self.signup_with_id(name, password, id)
    }

    /// Registers `name` with `password` under the id `id`: the identity and
    /// its hashed secret are written together, or neither is.
    pub fn signup_with_id(&mut self, name: String, password: String, id: u128) -> (r: Result<
        Identity,
        AuthError,
    >)
        requires
            old(self).wf(),
        ensures
            final(self).wf(),
            signup_with_id_outcome(
                old(self).identities(),
                old(self).secrets(),
                final(self).identities(),
                final(self).secrets(),
                name@,
                encode_utf8(password@),
                id,
                result_view(r),
            ),
    {
        if self.users.find_by_name(&name).is_some() {
            return Err(AuthError::NameTaken);
        }
        let hash = match make_hash(password.as_str().as_bytes()) {
            Ok(h) => h,
            Err(e) => {
                return Err(e);
            },
        };
        let ghost users0 = self.users@;
        let ghost secrets0 = self.secrets@;
        let identity = match self.users.create_with_id(name, id) {
            Ok(x) => x,
            Err(e) => {
                return Err(e);
            },
        };
        assert(!has_user(secrets0, identity.id)) by {
            if has_user(secrets0, identity.id) {
                let k = choose|k: int| 0 <= k < secrets0.len() && #[trigger] secrets0[k].0 == identity.id;
                assert(users0[k].0 == identity.id);
            }
        };
        let ghost hash_view = hash@;
        match self.secrets.insert(identity.id, hash) {
            Ok(()) => {
                assert(self.secrets@.last().1 == hash_view);
                Ok(identity)
            },
            Err(e) => Err(e),
        }
    }

    /// Logs in with a name and a password.
    pub fn login(&self, name: &String, password: &String) -> (r: Result<Identity, AuthError>)
        requires
            self.wf(),
        ensures
            result_view(r) == login_outcome(
                self.identities(),
                self.secrets(),
                name@,
                encode_utf8(password@),
            ),
    {
        let identity = match self.users.find_by_name(name) {
            Some(x) => x,
            None => {
                return Err(AuthError::UnknownUser);
            },
        };
        let ghost users = self.users@;
        let ghost secrets = self.secrets@;
        let ghost i = choose|i: int| 0 <= i < users.len() && #[trigger] users[i] == identity@;
        assert(users[i].1 == name@);
        assert(index_of_name(users, name@) == i);
        assert(secrets[i].0 == identity.id);
        let hash = match self.secrets.hash_for(identity.id) {
            Some(h) => h,
            None => {
                return Err(AuthError::StorageError);
            },
        };
        let ghost j = choose|j: int| 0 <= j < secrets.len() && #[trigger] secrets[j] == (identity.id, hash@);
        assert(secrets[j].0 == identity.id);
        assert(users[j].0 == identity.id);
        assert(j == i);
        if verify_hash(hash.as_str(), password.as_str().as_bytes()) {
            Ok(identity)
        } else {
            Err(AuthError::InvalidCredentials)
        }
    }
}

} // verus!

verus! {

/// Once a signup of `name` has succeeded, every later signup of `name`
/// fails with `NameTaken` and changes nothing, and the tables hold exactly
/// one identity with that name.
pub proof fn lemma_name_taken_after_signup(
    users: Seq<(u128, Seq<char>)>,
    secrets: Seq<(u128, Seq<char>)>,
    users1: Seq<(u128, Seq<char>)>,
    secrets1: Seq<(u128, Seq<char>)>,
    users2: Seq<(u128, Seq<char>)>,
    secrets2: Seq<(u128, Seq<char>)>,
    name: Seq<char>,
    password1: Seq<u8>,
    password2: Seq<u8>,
    first: (u128, Seq<char>),
    second: Result<(u128, Seq<char>), AuthError>,
)
    requires
        tables_valid(users, secrets),
        signup_outcome(users, secrets, users1, secrets1, name, password1, Ok(first)),
        signup_outcome(users1, secrets1, users2, secrets2, name, password2, second),
    ensures
        second == Err::<(u128, Seq<char>), AuthError>(AuthError::NameTaken),
        users2 == users1,
        secrets2 == secrets1,
        has_name(users2, name),
        forall|i: int, j: int|
            0 <= i < users2.len() && 0 <= j < users2.len() && #[trigger] users2[i].1 == name
                && #[trigger] users2[j].1 == name ==> i == j,
{
    assert(users1[users.len() as int].1 == name);
    assert(!has_name(users, name));
    assert forall|i: int, j: int|
        0 <= i < users2.len() && 0 <= j < users2.len() && #[trigger] users2[i].1 == name
            && #[trigger] users2[j].1 == name implies i == j by {
        if i < users.len() {
            assert(users[i].1 == name);
        }
        if j < users.len() {
            assert(users[j].1 == name);
        }
    }
}

/// After a successful signup of `name`, a login with `name` is never refused
/// as an unknown user: it returns the new identity exactly when the stored
/// hash accepts the password, which it does for the password signed up with,
/// and fails with `InvalidCredentials` otherwise.
pub proof fn lemma_login_after_signup(
    users: Seq<(u128, Seq<char>)>,
    secrets: Seq<(u128, Seq<char>)>,
    users1: Seq<(u128, Seq<char>)>,
    secrets1: Seq<(u128, Seq<char>)>,
    name: Seq<char>,
    password: Seq<u8>,
    identity: (u128, Seq<char>),
    other: Seq<u8>,
)
    requires
        tables_valid(users, secrets),
        signup_outcome(users, secrets, users1, secrets1, name, password, Ok(identity)),
    ensures
        tables_valid(users1, secrets1),
        identity.1 == name,
        login_outcome(users1, secrets1, name, password) == Ok::<(u128, Seq<char>), AuthError>(
            identity,
        ),
        login_outcome(users1, secrets1, name, other) == if hash_accepts(secrets1.last().1, other) {
            Ok::<(u128, Seq<char>), AuthError>(identity)
        } else {
            Err::<(u128, Seq<char>), AuthError>(AuthError::InvalidCredentials)
        },
{
    let n = users.len() as int;
    assert(users1[n] == identity);
    assert(!has_name(users, name));
    assert(has_name(users1, name));
    let i = index_of_name(users1, name);
    if i < n {
        assert(users[i].1 == name);
    }
    assert(i == n);
    assert(secrets1[n] == secrets1.last());
    assert forall|a: int, b: int|
        0 <= a < users1.len() && 0 <= b < users1.len() && a != b implies #[trigger] users1[a].0
        != #[trigger] users1[b].0 && users1[a].1 != users1[b].1 by {
        if a == n {
            assert(secrets[b].0 == users[b].0);
            assert(users[b].1 != name) by {
                if users[b].1 == name {
                    assert(has_name(users, name));
                }
            }
        } else if b == n {
            assert(users[a].1 != name) by {
                if users[a].1 == name {
                    assert(has_name(users, name));
                }
            }
        }
    }
    assert forall|k: int| 0 <= k < users1.len() implies #[trigger] secrets1[k].0 == users1[k].0 by {
        if k < n {
            assert(secrets1[k] == secrets[k]);
        }
    }
}

/// A login with a name that no identity has fails with `UnknownUser`,
/// whatever the password and whatever the stored secrets.
pub proof fn lemma_unknown_user(
    users: Seq<(u128, Seq<char>)>,
    secrets: Seq<(u128, Seq<char>)>,
    name: Seq<char>,
    password: Seq<u8>,
)
    requires
        !has_name(users, name),
    ensures
        login_outcome(users, secrets, name, password) == Err::<(u128, Seq<char>), AuthError>(
            AuthError::UnknownUser,
        ),
{
}

} // verus!
