use vstd::prelude::*;
use crate::error::AuthError;
use crate::secret::{has_user, user_ids_unique};

verus! {

/// A registered user: an opaque unique id and a unique name.
pub struct Identity {
    pub id: u128,
    pub name: String,
}

impl View for Identity {
    type V = (u128, Seq<char>);

    open spec fn view(&self) -> (u128, Seq<char>) {
        (self.id, self.name@)
    }
}

/// Whether no two identities share a name.
pub open spec fn names_unique(s: Seq<(u128, Seq<char>)>) -> bool {
    forall|i: int, j: int|
        0 <= i < s.len() && 0 <= j < s.len() && i != j ==> #[trigger] s[i].1 != #[trigger] s[j].1
}

/// Whether some identity is named `name`.
pub open spec fn has_name(s: Seq<(u128, Seq<char>)>, name: Seq<char>) -> bool {
    exists|i: int| 0 <= i < s.len() && #[trigger] s[i].1 == name
}

/// Relies on uuid::Uuid::new_v4, drawn from the operating system's random
/// source, for a new identity id.
#[verifier::external_body]
pub(crate) fn random_id() -> (r: u128) {
    uuid::Uuid::new_v4().as_u128()
}

/// The identities, with names and ids unique across all of them.
pub struct UserDirectory {
    identities: Vec<Identity>,
}

impl UserDirectory {
    /// The identities, in the order they were created, as (id, name).
    pub closed spec fn view(&self) -> Seq<(u128, Seq<char>)> {
        Seq::new(self.identities.len() as nat, |i: int| self.identities[i]@)
    }

    pub open spec fn wf(&self) -> bool {
        names_unique(self@) && user_ids_unique(self@)
    }

    /// An empty directory.
    pub fn new() -> (r: UserDirectory)
        ensures
            r@ == Seq::<(u128, Seq<char>)>::empty(),
            r.wf(),
    {
        let r = UserDirectory { identities: Vec::new() };
        assert(r@ =~= Seq::<(u128, Seq<char>)>::empty());
        r
    }

    /// Number of identities.
    pub fn len(&self) -> (r: usize)
        ensures
            r == self@.len(),
    {
        self.identities.len()
    }

    /// Position of the identity named `name`, if any.
    fn position_of(&self, name: &String) -> (r: Option<usize>)
        ensures
            r is None <==> !has_name(self@, name@),
            r matches Some(i) ==> i < self@.len() && self@[i as int].1 == name@,
    {
        let mut i: usize = 0;
        while i < self.identities.len()
            invariant
                i <= self.identities.len(),
                forall|k: int| 0 <= k < i ==> #[trigger] self@[k].1 != name@,
            decreases self.identities.len() - i,
        {
            if self.identities[i].name == *name {
                assert(self@[i as int].1 == name@);
                return Some(i);
            }
            i = i + 1;
        }
        None
    }

    /// The identity named `name`. Absence is a normal outcome, not a failure.
    pub fn find_by_name(&self, name: &String) -> (r: Option<Identity>)
        requires
            self.wf(),
        ensures
            r is None <==> !has_name(self@, name@),
            r matches Some(x) ==> x.name@ == name@ && exists|i: int|
                0 <= i < self@.len() && #[trigger] self@[i] == x@,
    {
        match self.position_of(name) {
            Some(i) => {
                let x = Identity { id: self.identities[i].id, name: self.identities[i].name.clone() };
                assert(self@[i as int] == x@);
                Some(x)
            },
            None => None,
        }
    }

    /// Whether an identity has id `id`.
    fn contains_id(&self, id: u128) -> (r: bool)
        ensures
            r == has_user(self@, id),
    {
        let mut i: usize = 0;
        while i < self.identities.len()
            invariant
                i <= self.identities.len(),
                forall|k: int| 0 <= k < i ==> #[trigger] self@[k].0 != id,
            decreases self.identities.len() - i,
        {
            if self.identities[i].id == id {
                assert(self@[i as int].0 == id);
                return true;
            }
            i = i + 1;
        }
        false
    }

    /// Registers `name` under the id `id`. A name already present fails with
    /// `NameTaken`; an id already present is a key clash of the store and
    /// fails with `StorageError`. Either failure leaves the directory as it
    /// was.
    pub fn create_with_id(&mut self, name: String, id: u128) -> (r: Result<Identity, AuthError>)
        requires
            old(self).wf(),
        ensures
            final(self).wf(),
            has_name(old(self)@, name@) ==> r == Err::<Identity, AuthError>(AuthError::NameTaken)
                && final(self)@ == old(self)@,
            !has_name(old(self)@, name@) && has_user(old(self)@, id) ==> r == Err::<
                Identity,
                AuthError,
            >(AuthError::StorageError) && final(self)@ == old(self)@,
            !has_name(old(self)@, name@) && !has_user(old(self)@, id) ==> (r matches Ok(x) && x@ == (
                id,
                name@,
            )) && final(self)@ == old(self)@.push((id, name@)),
    {
        if self.position_of(&name).is_some() {
            return Err(AuthError::NameTaken);
        }
        if self.contains_id(id) {
            return Err(AuthError::StorageError);
        }
        let ghost before = self@;
        let created = Identity { id, name: name.clone() };
        self.identities.push(Identity { id, name });
        assert(self@ =~= before.push((id, created.name@)));
        Ok(created)
    }

    /// Registers `name` under a freshly drawn random id. A name already
    /// present fails with `NameTaken` and leaves the directory unchanged.
    pub fn create(&mut self, name: String) -> (r: Result<Identity, AuthError>)
        requires
            old(self).wf(),
        ensures
            final(self).wf(),
            has_name(old(self)@, name@) ==> r == Err::<Identity, AuthError>(AuthError::NameTaken)
                && final(self)@ == old(self)@,
            !has_name(old(self)@, name@) ==> match r {
                Ok(x) => x.name@ == name@ && !has_user(old(self)@, x.id) && final(self)@ == old(
                    self,
                )@.push(x@),
                Err(e) => e == AuthError::StorageError && old(self)@.len() > 0 && final(self)@ == old(
                    self,
                )@,
            },
    {
        let id = random_id();
        self.create_with_id(name, id)
    }
}

} // verus!
