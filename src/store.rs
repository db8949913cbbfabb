//! The record store: users with an activation flag and a data log, and a
//! store-level mirror of each user's log.
use vstd::prelude::*;

use crate::account::AccountId;
use crate::assoc::{
    assoc_map, keys_unique, lemma_assoc_absent, lemma_assoc_at, lemma_assoc_push,
    lemma_assoc_remove, lemma_assoc_update,
};

verus! {

/// Why an operation on the store was refused.
#[derive(Clone, Copy, Debug, PartialEq, Eq, Structural)]
pub enum StorageError {
    /// No record exists for the key.
    UserNotFound,
    /// The record exists but its activation flag is off.
    UserInactive,
    /// The record exists and is active, but nothing was ever appended to it.
    NoDataForUser,
}

/// Notification that a user record was created or replaced.
#[derive(Clone, Copy, Debug, PartialEq, Eq)]
pub struct UserAdded {
    pub user_id: AccountId,
}

/// Notification that a user record was removed (sent even when none existed).
#[derive(Clone, Copy, Debug, PartialEq, Eq)]
pub struct UserRemoved {
    pub user_id: AccountId,
}

/// A user record: identity, display name, activation flag and data log.
pub struct User {
    id: AccountId,
    name: Vec<u8>,
    data: Vec<Vec<u8>>,
    is_active: bool,
}

/// The mathematical content of a user record.
pub struct UserModel {
    pub id: AccountId,
    pub name: Seq<u8>,
    pub data: Seq<Seq<u8>>,
    pub active: bool,
}

/// The mathematical content of a whole store.
pub struct StoreModel {
    pub owner: AccountId,
    /// The user records, by key.
    pub users: Map<AccountId, UserModel>,
    /// The store-level data logs, by key.
    pub logs: Map<AccountId, Seq<Seq<u8>>>,
}

/// The payloads of a log, as byte sequences.
pub open spec fn log_view(v: Seq<Vec<u8>>) -> Seq<Seq<u8>> {
    v.map_values(|e: Vec<u8>| e@)
}

impl View for User {
    type V = UserModel;

    closed spec fn view(&self) -> UserModel {
        UserModel { id: self.id, name: self.name@, data: log_view(self.data@), active: self.is_active }
    }
}

impl UserModel {
    /// A freshly created record: active, with an empty log.
    pub open spec fn fresh(id: AccountId, name: Seq<u8>) -> UserModel {
        UserModel { id, name, data: Seq::empty(), active: true }
    }
}

impl StoreModel {
    /// The store-level logs mirror the users' own logs: a log exists exactly
    /// for the users that have appended something, and holds the same entries.
    pub open spec fn mirrored(self) -> bool {
        &&& forall|k: AccountId| #[trigger]
            self.logs.contains_key(k) ==> self.users.contains_key(k) && self.logs[k]
                == self.users[k].data
        &&& forall|k: AccountId| #[trigger]
            self.users.contains_key(k) && self.users[k].data.len() > 0 ==> self.logs.contains_key(
                k,
            )
    }

    /// State after creating (or replacing) the record of `id`.
    pub open spec fn with_user_added(self, id: AccountId, name: Seq<u8>) -> StoreModel {
        StoreModel {
            owner: self.owner,
            users: self.users.insert(id, UserModel::fresh(id, name)),
            logs: self.logs.remove(id),
        }
    }

    /// State after deleting the record and the log of `id`.
    pub open spec fn with_user_removed(self, id: AccountId) -> StoreModel {
        StoreModel { owner: self.owner, users: self.users.remove(id), logs: self.logs.remove(id) }
    }

    /// The error of an operation that needs `id` to exist and be active.
    pub open spec fn access_error(self, id: AccountId) -> Option<StorageError> {
        if !self.users.contains_key(id) {
            Some(StorageError::UserNotFound)
        } else if !self.users[id].active {
            Some(StorageError::UserInactive)
        } else {
            None
        }
    }

    /// Outcome of appending `payload` to the log of `id`.
    pub open spec fn add_data_outcome(self, id: AccountId, payload: Seq<u8>) -> Result<
        StoreModel,
        StorageError,
    > {
        match self.access_error(id) {
            Some(e) => Err(e),
            None => {
                let u = self.users[id];
                let data = u.data.push(payload);
                Ok(
                    StoreModel {
                        owner: self.owner,
                        users: self.users.insert(id, UserModel { data, ..u }),
                        logs: self.logs.insert(id, data),
                    },
                )
            },
        }
    }

    /// Outcome of setting the activation flag of `id`.
    pub open spec fn set_active_outcome(self, id: AccountId, active: bool) -> Result<
        StoreModel,
        StorageError,
    > {
        if !self.users.contains_key(id) {
            Err(StorageError::UserNotFound)
        } else {
            Ok(
                StoreModel {
                    owner: self.owner,
                    users: self.users.insert(id, UserModel { active, ..self.users[id] }),
                    logs: self.logs,
                },
            )
        }
    }

    /// What reading the log of `id` gives.
    pub open spec fn data_of(self, id: AccountId) -> Result<Seq<Seq<u8>>, StorageError> {
        match self.access_error(id) {
            Some(e) => Err(e),
            None => if self.logs.contains_key(id) {
                Ok(self.logs[id])
            } else {
                Err(StorageError::NoDataForUser)
            },
        }
    }

    /// What reading the record of `id` gives.
    pub open spec fn user_of(self, id: AccountId) -> Result<UserModel, StorageError> {
        if self.users.contains_key(id) {
            Ok(self.users[id])
        } else {
            Err(StorageError::UserNotFound)
        }
    }
}

/// A store-level data log.
struct DataLog {
    id: AccountId,
    entries: Vec<Vec<u8>>,
}

spec fn user_pairs(s: Seq<User>) -> Seq<(AccountId, UserModel)> {
    s.map_values(|u: User| (u.id, u@))
}

spec fn log_pairs(s: Seq<DataLog>) -> Seq<(AccountId, Seq<Seq<u8>>)> {
    s.map_values(|d: DataLog| (d.id, log_view(d.entries@)))
}

/// The record store.
pub struct ComplexStorage {
    owner: AccountId,
    users: Vec<User>,
    data: Vec<DataLog>,
}

impl View for ComplexStorage {
    type V = StoreModel;

    closed spec fn view(&self) -> StoreModel {
        StoreModel {
            owner: self.owner,
            users: assoc_map(user_pairs(self.users@)),
            logs: assoc_map(log_pairs(self.data@)),
        }
    }
}

impl ComplexStorage {
    /// Keys are unique in both lists, and the logs mirror the users' logs.
    pub closed spec fn wf(&self) -> bool {
        &&& keys_unique(user_pairs(self.users@))
        &&& keys_unique(log_pairs(self.data@))
        &&& self@.mirrored()
    }

    /// An empty store owned by `owner`.
    pub fn new(owner: AccountId) -> (r: ComplexStorage)
        ensures
            r.wf(),
            r@ == (StoreModel { owner, users: Map::empty(), logs: Map::empty() }),
    {
        let r = ComplexStorage { owner, users: Vec::new(), data: Vec::new() };
        proof {
            assert(user_pairs(r.users@) =~= Seq::empty());
            assert(log_pairs(r.data@) =~= Seq::empty());
            assert(r@.users =~= Map::empty());
            assert(r@.logs =~= Map::empty());
        }
        r
    }

    fn find_user(&self, id: &AccountId) -> (r: Option<usize>)
        ensures
            match r {
                Some(i) => i < self.users@.len() && self.users@[i as int].id == *id,
                None => forall|j: int| 0 <= j < self.users@.len() ==> self.users@[j].id != *id,
            },
    {
        let mut i: usize = 0;
        while i < self.users.len()
            invariant
                i <= self.users@.len(),
                forall|j: int| 0 <= j < i ==> self.users@[j].id != *id,
            decreases self.users@.len() - i,
        {
            if self.users[i].id.same(id) {
                return Some(i);
            }
            i = i + 1;
        }
        None
    }

    fn find_log(&self, id: &AccountId) -> (r: Option<usize>)
        ensures
            match r {
                Some(i) => i < self.data@.len() && self.data@[i as int].id == *id,
                None => forall|j: int| 0 <= j < self.data@.len() ==> self.data@[j].id != *id,
            },
    {
        let mut i: usize = 0;
        while i < self.data.len()
            invariant
                i <= self.data@.len(),
                forall|j: int| 0 <= j < i ==> self.data@[j].id != *id,
            decreases self.data@.len() - i,
        {
            if self.data[i].id.same(id) {
                return Some(i);
            }
            i = i + 1;
        }
        None
    }

    /// Deletes the store-level log of `id`, if there is one.
    fn drop_log(&mut self, id: &AccountId)
        requires
            keys_unique(log_pairs(old(self).data@)),
        ensures
            keys_unique(log_pairs(final(self).data@)),
            final(self).users == old(self).users,
            final(self).owner == old(self).owner,
            assoc_map(log_pairs(final(self).data@)) == assoc_map(log_pairs(old(self).data@)).remove(
                *id,
            ),
    {
        let ghost p = log_pairs(self.data@);
        match self.find_log(id) {
            Some(i) => {
                proof {
                    lemma_assoc_remove(p, i as int);
                }
                self.data.remove(i);
                proof {
                    assert(log_pairs(self.data@) =~= p.remove(i as int));
                }
            },
            None => {
                proof {
                    lemma_assoc_absent(p, *id);
                    assert(assoc_map(p).remove(*id) =~= assoc_map(p));
                }
            },
        }
    }

    /// Creates the record of `id`, active and with an empty log, replacing
    /// any earlier record and discarding its log. Returns the notification
    /// to publish.
    pub fn add_user(&mut self, id: AccountId, name: Vec<u8>) -> (ev: UserAdded)
        requires
            old(self).wf(),
        ensures
            final(self).wf(),
            final(self)@ == old(self)@.with_user_added(id, name@),
            ev == (UserAdded { user_id: id }),
    {
        let ghost before = self@;
        let ghost p = user_pairs(self.users@);
        let ghost fresh = UserModel::fresh(id, name@);
        let user = User { id, name, data: Vec::new(), is_active: true };
        proof {
            assert(log_view(user.data@) =~= Seq::empty());
            assert(user@ == fresh);
        }
        match self.find_user(&id) {
            Some(i) => {
                proof {
                    lemma_assoc_update(p, i as int, fresh);
                }
                self.users[i] = user;
                proof {
                    assert(user_pairs(self.users@) =~= p.update(i as int, (p[i as int].0, fresh)));
                }
            },
            None => {
                proof {
                    lemma_assoc_absent(p, id);
                    lemma_assoc_push(p, id, fresh);
                }
                self.users.push(user);
                proof {
                    assert(user_pairs(self.users@) =~= p.push((id, fresh)));
                }
            },
        }
        self.drop_log(&id);
        proof {
            assert(self@.users == before.users.insert(id, fresh));
            assert(self@.logs == before.logs.remove(id));
            assert(self@ =~= before.with_user_added(id, name@));
        }
        UserAdded { user_id: id }
    }

    /// Deletes the record and the log of `id`; nothing happens to the store
    /// when there is none. Returns the notification to publish either way.
    pub fn remove_user(&mut self, id: AccountId) -> (ev: UserRemoved)
        requires
            old(self).wf(),
        ensures
            final(self).wf(),
            final(self)@ == old(self)@.with_user_removed(id),
            ev == (UserRemoved { user_id: id }),
    {
        let ghost before = self@;
        let ghost p = user_pairs(self.users@);
        match self.find_user(&id) {
            Some(i) => {
                proof {
                    lemma_assoc_remove(p, i as int);
                }
                self.users.remove(i);
                proof {
                    assert(user_pairs(self.users@) =~= p.remove(i as int));
                }
            },
            None => {
                proof {
                    lemma_assoc_absent(p, id);
                    assert(assoc_map(p).remove(id) =~= assoc_map(p));
                }
            },
        }
        self.drop_log(&id);
        proof {
            assert(self@ =~= before.with_user_removed(id));
        }
        UserRemoved { user_id: id }
    }

    /// Appends `data` to the log of `id` and to its store-level mirror
    /// (creating the mirror on the first append). Refused, with the store
    /// unchanged, when `id` has no record or is inactive.
    pub fn add_data(&mut self, id: AccountId, data: Vec<u8>) -> (r: Result<(), StorageError>)
        requires
            old(self).wf(),
        ensures
            final(self).wf(),
            match r {
                Ok(()) => old(self)@.add_data_outcome(id, data@) == Ok::<StoreModel, StorageError>(
                    final(self)@,
                ),
                Err(e) => old(self)@.add_data_outcome(id, data@) == Err::<StoreModel, StorageError>(
                    e,
                ) && final(self)@ == old(self)@,
            },
    {
        let ghost before = self@;
        let ghost p = user_pairs(self.users@);
        let i = match self.find_user(&id) {
            Some(i) => i,
            None => {
                proof {
                    lemma_assoc_absent(p, id);
                }
                return Err(StorageError::UserNotFound);
            },
        };
        proof {
            lemma_assoc_at(p, i as int);
        }
        if !self.users[i].is_active {
            return Err(StorageError::UserInactive);
        }
        let ghost u_old = self.users@[i as int]@;
        let ghost entries = u_old.data.push(data@);
        let ghost u_new = UserModel { data: entries, ..u_old };
        let copy = data.clone();
        proof {
            assert(copy@ =~= data@);
        }
        let ghost before_data = self.users@[i as int].data@;
        self.users[i].data.push(copy);
        proof {
            assert(log_view(self.users@[i as int].data@) =~= log_view(before_data).push(data@));
            assert(self.users@[i as int]@ == u_new);
            lemma_assoc_update(p, i as int, u_new);
            assert(user_pairs(self.users@) =~= p.update(i as int, (p[i as int].0, u_new)));
        }
        let ghost q = log_pairs(self.data@);
        match self.find_log(&id) {
            Some(j) => {
                proof {
                    lemma_assoc_at(q, j as int);
                    lemma_assoc_update(q, j as int, entries);
                }
                let ghost log_before = self.data@[j as int].entries@;
                self.data[j].entries.push(data);
                proof {
                    assert(log_view(self.data@[j as int].entries@) =~= log_view(log_before).push(
                        data@,
                    ));
                    assert(log_pairs(self.data@) =~= q.update(j as int, (q[j as int].0, entries)));
                }
            },
            None => {
                proof {
                    lemma_assoc_absent(q, id);
                    lemma_assoc_push(q, id, entries);
                    assert(u_old.data.len() == 0);
                }
                let mut log: Vec<Vec<u8>> = Vec::new();
                log.push(data);
                let ghost fresh_log = log@;
                self.data.push(DataLog { id, entries: log });
                proof {
                    assert(log_view(fresh_log) =~= entries);
                    assert(log_pairs(self.data@) =~= q.push((id, entries)));
                }
            },
        }
        proof {
            assert(self@ =~= before.add_data_outcome(id, data@).unwrap());
        }
        Ok(())
    }

    /// Sets the activation flag of `id`.
    fn set_active(&mut self, id: AccountId, active: bool) -> (r: Result<(), StorageError>)
        requires
            old(self).wf(),
        ensures
            final(self).wf(),
            match r {
                Ok(()) => old(self)@.set_active_outcome(id, active) == Ok::<
                    StoreModel,
                    StorageError,
                >(final(self)@),
                Err(e) => old(self)@.set_active_outcome(id, active) == Err::<
                    StoreModel,
                    StorageError,
                >(e) && final(self)@ == old(self)@,
            },
    {
        let ghost before = self@;
        let ghost p = user_pairs(self.users@);
        match self.find_user(&id) {
            Some(i) => {
                let ghost u_new = UserModel { active, ..self.users@[i as int]@ };
                proof {
                    lemma_assoc_at(p, i as int);
                    lemma_assoc_update(p, i as int, u_new);
                }
                self.users[i].is_active = active;
                proof {
                    assert(user_pairs(self.users@) =~= p.update(i as int, (p[i as int].0, u_new)));
                    assert(self@ =~= before.set_active_outcome(id, active).unwrap());
                }
                Ok(())
            },
            None => {
                proof {
                    lemma_assoc_absent(p, id);
                }
                Err(StorageError::UserNotFound)
            },
        }
    }

    /// Turns the activation flag of `id` off; refused when `id` has no record.
    pub fn deactivate_user(&mut self, id: AccountId) -> (r: Result<(), StorageError>)
        requires
            old(self).wf(),
        ensures
            final(self).wf(),
            match r {
                Ok(()) => old(self)@.set_active_outcome(id, false) == Ok::<
                    StoreModel,
                    StorageError,
                >(final(self)@),
                Err(e) => old(self)@.set_active_outcome(id, false) == Err::<
                    StoreModel,
                    StorageError,
                >(e) && final(self)@ == old(self)@,
            },
    {
        self.set_active(id, false)
    }

    /// Turns the activation flag of `id` on; refused when `id` has no record.
    pub fn activate_user(&mut self, id: AccountId) -> (r: Result<(), StorageError>)
        requires
            old(self).wf(),
        ensures
            final(self).wf(),
            match r {
                Ok(()) => old(self)@.set_active_outcome(id, true) == Ok::<
                    StoreModel,
                    StorageError,
                >(final(self)@),
                Err(e) => old(self)@.set_active_outcome(id, true) == Err::<
                    StoreModel,
                    StorageError,
                >(e) && final(self)@ == old(self)@,
            },
    {
        self.set_active(id, true)
    }

    /// A copy of the store-level log of `id`, oldest entry first.
    pub fn get_data(&self, id: AccountId) -> (r: Result<Vec<Vec<u8>>, StorageError>)
        requires
            self.wf(),
        ensures
            match r {
                Ok(v) => self@.data_of(id) == Ok::<Seq<Seq<u8>>, StorageError>(log_view(v@)),
                Err(e) => self@.data_of(id) == Err::<Seq<Seq<u8>>, StorageError>(e),
            },
    {
        let ghost p = user_pairs(self.users@);
        let i = match self.find_user(&id) {
            Some(i) => i,
            None => {
                proof {
                    lemma_assoc_absent(p, id);
                }
                return Err(StorageError::UserNotFound);
            },
        };
        proof {
            lemma_assoc_at(p, i as int);
        }
        if !self.users[i].is_active {
            return Err(StorageError::UserInactive);
        }
        let ghost q = log_pairs(self.data@);
        match self.find_log(&id) {
            Some(j) => {
                proof {
                    lemma_assoc_at(q, j as int);
                }
                Ok(copy_log(&self.data[j].entries))
            },
            None => {
                proof {
                    lemma_assoc_absent(q, id);
                }
                Err(StorageError::NoDataForUser)
            },
        }
    }

    /// A copy of the record of `id`, whatever its activation flag.
    pub fn get_user(&self, id: AccountId) -> (r: Result<User, StorageError>)
        requires
            self.wf(),
        ensures
            match r {
                Ok(u) => self@.user_of(id) == Ok::<UserModel, StorageError>(u@),
                Err(e) => self@.user_of(id) == Err::<UserModel, StorageError>(e),
            },
    {
        let ghost p = user_pairs(self.users@);
        match self.find_user(&id) {
            Some(i) => {
                proof {
                    lemma_assoc_at(p, i as int);
                }
                Ok(self.users[i].copy())
            },
            None => {
                proof {
                    lemma_assoc_absent(p, id);
                }
                Err(StorageError::UserNotFound)
            },
        }
    }

    /// The key the store was created for.
    pub fn owner(&self) -> (r: AccountId)
        ensures
            r == self@.owner,
    {
        self.owner
    }
}

/// A deep copy of a log.
fn copy_log(v: &Vec<Vec<u8>>) -> (r: Vec<Vec<u8>>)
    ensures
        log_view(r@) == log_view(v@),
{
    let mut r: Vec<Vec<u8>> = Vec::new();
    let mut i: usize = 0;
    while i < v.len()
        invariant
            i <= v@.len(),
            r@.len() == i,
            forall|j: int| 0 <= j < i ==> (#[trigger] r@[j])@ == v@[j]@,
        decreases v@.len() - i,
    {
        let e = v[i].clone();
        proof {
            assert(e@ =~= v@[i as int]@);
        }
        r.push(e);
        i = i + 1;
    }
    proof {
        assert(log_view(r@) =~= log_view(v@));
    }
    r
}

impl User {
    /// The key of this record.
    pub fn id(&self) -> (r: AccountId)
        ensures
            r == self@.id,
    {
        self.id
    }

    /// The display name.
    pub fn name(&self) -> (r: &[u8])
        ensures
            r@ == self@.name,
    {
        self.name.as_slice()
    }

    /// The record's own data log, oldest entry first.
    pub fn data(&self) -> (r: &Vec<Vec<u8>>)
        ensures
            log_view(r@) == self@.data,
    {
        &self.data
    }

    /// The activation flag.
    pub fn is_active(&self) -> (r: bool)
        ensures
            r == self@.active,
    {
        self.is_active
    }

    /// A deep copy of the record.
    pub fn copy(&self) -> (r: User)
        ensures
            r@ == self@,
    {
        let name = self.name.clone();
        proof {
            assert(name@ =~= self.name@);
        }
        User { id: self.id, name, data: copy_log(&self.data), is_active: self.is_active }
    }
}

} // verus!
