use vstd::prelude::*;
use crate::error::AuthError;
use rand::Rng;

verus! {

#[verifier::external_type_specification]
#[verifier::external_body]
pub struct ExArgon2Error(argon2::Error);

/// Largest password, in bytes, that Argon2 accepts.
pub const MAX_PASSWORD_LEN: u64 = 0xFFFF_FFFF;

/// The leading fields of every hash this library writes: variant Argon2i,
/// version 19 (0x13), 4096 KiB of memory, 3 passes, 1 lane, then the field
/// separator before the salt.
pub const OWN_PARAMS: &'static str = "$argon2i$v=19$m=4096,t=3,p=1$";

/// The characters of [`OWN_PARAMS`].
pub open spec fn own_params() -> Seq<char> {
    OWN_PARAMS@
}

/// Whether an encoded hash begins with the parameters that this library
/// hashes with.
pub open spec fn has_own_params(encoded: Seq<char>) -> bool {
    own_params().len() <= encoded.len() && encoded.subrange(0, own_params().len() as int)
        == own_params()
}

/// Whether an encoded hash has this library's parameters followed by exactly
/// two more fields, the salt and the digest, as every hash it writes has.
pub open spec fn well_framed(encoded: Seq<char>) -> bool {
    has_own_params(encoded) && encoded.subrange(own_params().len() as int, encoded.len() as int).filter(
        |c: char| c == '$',
    ).len() == 1
}

/// The encoded string that Argon2, with its default parameters, computes for
/// a password and a salt.
pub uninterp spec fn argon2_encoding(password: Seq<u8>, salt: Seq<u8>) -> Seq<char>;

/// Whether Argon2 accepts a password against an encoded hash: the string
/// decodes, and the digest recomputed from the password equals the stored one.
pub uninterp spec fn argon2_accepts(encoded: Seq<char>, password: Seq<u8>) -> bool;

/// Whether a stored hash lets a password in: it carries this library's
/// parameters and Argon2 accepts the password against it.
pub open spec fn hash_accepts(encoded: Seq<char>, password: Seq<u8>) -> bool {
    has_own_params(encoded) && argon2_accepts(encoded, password)
}

/// Relies on rand::thread_rng, a generator seeded from the operating system,
/// for the salt bytes.
#[verifier::external_body]
fn random_salt() -> (r: [u8; 32]) {
    rand::thread_rng().gen::<[u8; 32]>()
}

/// Relies on argon2::hash_encoded with the default configuration (Argon2i,
/// version 0x13, m=4096, t=3, p=1). It fails only where the password or the
/// salt has a length out of Argon2's bounds. The string it returns is those
/// parameters, then the salt and the digest in unpadded base64, which has no
/// `$`; so the salt can be read back from it, and it decodes to what
/// argon2::verify_encoded recomputes, so the same password is accepted.
#[verifier::external_body]
fn argon2_hash_encoded(password: &[u8], salt: &[u8]) -> (r: Result<String, argon2::Error>)
    ensures
        r is Ok <==> (password@.len() <= MAX_PASSWORD_LEN && 8 <= salt@.len() <= 0xFFFF_FFFF),
        r matches Ok(h) ==> h@ == argon2_encoding(password@, salt@),
        r matches Ok(h) ==> argon2_accepts(h@, password@),
        r matches Ok(h) ==> well_framed(h@),
        r matches Ok(h) ==> forall|s: Seq<u8>|
            8 <= s.len() <= 0xFFFF_FFFF && #[trigger] argon2_encoding(password@, s) == h@ ==> s
                == salt@,
{
    argon2::hash_encoded(password, salt, &argon2::Config::default())
}

/// Relies on argon2::verify_encoded, which compares digests in constant
/// time: `Ok(true)` exactly when the password is accepted. With this
/// library's parameters in front, the string splits on `$` into six fields
/// only where one `$` follows them; any other count is a decoding error. Those
/// parameters ask for one lane and three passes over 4096 KiB, so the call
/// runs in one thread and returns.
#[verifier::external_body]
fn argon2_verify_encoded(encoded: &str, password: &[u8]) -> (r: Result<bool, argon2::Error>)
    requires
        has_own_params(encoded@),
    ensures
        (r is Ok && r->Ok_0) == argon2_accepts(encoded@, password@),
        !well_framed(encoded@) ==> r is Err,
{
    argon2::verify_encoded(encoded, password)
}

/// Whether `encoded` begins with [`OWN_PARAMS`].
fn starts_with_own_params(encoded: &str) -> (r: bool)
    ensures
        r == has_own_params(encoded@),
{
    let n = OWN_PARAMS.unicode_len();
    if encoded.unicode_len() < n {
        return false;
    }
    let mut i: usize = 0;
    while i < n
        invariant
            n == own_params().len(),
            n <= encoded@.len(),
            i <= n,
            forall|k: int| 0 <= k < i ==> encoded@[k] == own_params()[k],
        decreases n - i,
    {
        if encoded.get_char(i) != OWN_PARAMS.get_char(i) {
            assert(encoded@.subrange(0, n as int)[i as int] != own_params()[i as int]);
            return false;
        }
        i = i + 1;
    }
    assert(encoded@.subrange(0, n as int) =~= own_params());
    true
}

/// Hashes a password with a given salt. It succeeds for every password that
/// Argon2 can take, whatever its content, and hashes under distinct salts
/// differ.
pub fn hash_with_salt(password: &[u8], salt: &[u8; 32]) -> (r: Result<String, AuthError>)
    ensures
        r is Ok <==> password@.len() <= MAX_PASSWORD_LEN,
        r matches Ok(h) ==> h@ == argon2_encoding(password@, salt@),
        r matches Ok(h) ==> argon2_accepts(h@, password@),
        r matches Ok(h) ==> well_framed(h@),
        r matches Ok(h) ==> forall|s: Seq<u8>|
            s.len() == 32 && #[trigger] argon2_encoding(password@, s) == h@ ==> s == salt@,
        r matches Err(e) ==> e == AuthError::HashingError,
{
    match argon2_hash_encoded(password, salt.as_slice()) {
        Ok(h) => Ok(h),
        Err(_) => Err(AuthError::HashingError),
    }
}

/// Hashes a password under a freshly drawn random 32-byte salt into a
/// self-describing encoded string (algorithm, parameters, salt and digest).
/// The same password is accepted by [`verify_hash`] against the result.
pub fn make_hash(password: &[u8]) -> (r: Result<String, AuthError>)
    ensures
        r is Ok <==> password@.len() <= MAX_PASSWORD_LEN,
        r matches Ok(h) ==> exists|s: Seq<u8>|
            s.len() == 32 && #[trigger] argon2_encoding(password@, s) == h@,
        r matches Ok(h) ==> hash_accepts(h@, password@),
        r matches Ok(h) ==> well_framed(h@),
        r matches Err(e) ==> e == AuthError::HashingError,
{
    let salt = random_salt();
    hash_with_salt(password, &salt)
}

/// Checks a password against an encoded hash. Only hashes with this library's
/// own parameters are checked; any other string, malformed or with other
/// parameters, gives `false`, as does a wrong password.
pub fn verify_hash(hash: &str, password: &[u8]) -> (r: bool)
    ensures
        r == hash_accepts(hash@, password@),
        !well_framed(hash@) ==> !r,
{
    if !starts_with_own_params(hash) {
        return false;
    }
    match argon2_verify_encoded(hash, password) {
        Ok(b) => b,
        Err(_) => false,
    }
}

} // verus!

verus! {

/// The stored secret of one identity: the encoded hash of its password.
pub struct Secret {
    pub user_id: u128,
    pub hash: String,
}

/// Whether no two records share a user id.
pub open spec fn user_ids_unique(s: Seq<(u128, Seq<char>)>) -> bool {
    forall|i: int, j: int|
        0 <= i < s.len() && 0 <= j < s.len() && i != j ==> #[trigger] s[i].0 != #[trigger] s[j].0
}

/// Whether some record belongs to `user_id`.
pub open spec fn has_user(s: Seq<(u128, Seq<char>)>, user_id: u128) -> bool {
    exists|i: int| 0 <= i < s.len() && #[trigger] s[i].0 == user_id
}

/// The table of credential secrets, at most one per identity. A secret is
/// written once and never replaced.
pub struct SecretStore {
    secrets: Vec<Secret>,
}

impl SecretStore {
    /// The records, in the order they were written, as (user id, hash).
    pub closed spec fn view(&self) -> Seq<(u128, Seq<char>)> {
        Seq::new(self.secrets.len() as nat, |i: int| (self.secrets[i].user_id, self.secrets[i].hash@))
    }

    pub open spec fn wf(&self) -> bool {
        user_ids_unique(self@)
    }

    /// An empty store.
    pub fn new() -> (r: SecretStore)
        ensures
            r@ == Seq::<(u128, Seq<char>)>::empty(),
            r.wf(),
    {
        let r = SecretStore { secrets: Vec::new() };
        assert(r@ =~= Seq::<(u128, Seq<char>)>::empty());
        r
    }

    /// Number of stored secrets.
    pub fn len(&self) -> (r: usize)
        ensures
            r == self@.len(),
    {
        self.secrets.len()
    }

    /// The hash stored for `user_id`, if any.
    pub fn hash_for(&self, user_id: u128) -> (r: Option<String>)
        requires
            self.wf(),
        ensures
            r is None <==> !has_user(self@, user_id),
            r matches Some(h) ==> exists|i: int|
                0 <= i < self@.len() && #[trigger] self@[i] == (user_id, h@),
    {
        let mut i: usize = 0;
        while i < self.secrets.len()
            invariant
                i <= self.secrets.len(),
                forall|k: int| 0 <= k < i ==> #[trigger] self@[k].0 != user_id,
            decreases self.secrets.len() - i,
        {
            if self.secrets[i].user_id == user_id {
                let h = self.secrets[i].hash.clone();
                assert(self@[i as int] == (user_id, h@));
                assert(self@[i as int].0 == user_id);
                return Some(h);
            }
            i = i + 1;
        }
        None
    }

    /// Stores the hash of an identity that has none yet. A second secret for
    /// the same identity is refused as a storage fault and leaves the store
    /// unchanged.
    pub fn insert(&mut self, user_id: u128, hash: String) -> (r: Result<(), AuthError>)
        requires
            old(self).wf(),
        ensures
            final(self).wf(),
            has_user(old(self)@, user_id) ==> r == Err::<(), AuthError>(AuthError::StorageError)
                && final(self)@ == old(self)@,
            !has_user(old(self)@, user_id) ==> r is Ok && final(self)@ == old(self)@.push(
                (user_id, hash@),
            ),
    {
        if self.hash_for(user_id).is_some() {
            return Err(AuthError::StorageError);
        }
        let ghost before = self@;
        self.secrets.push(Secret { user_id, hash });
        assert(self@ =~= before.push((user_id, hash@)));
        Ok(())
    }
}

} // verus!
