//! Laws of the record store, stated over its model. The store's operations
//! are tied to the model by their contracts, so each law holds of them.
use vstd::prelude::*;

use crate::account::AccountId;
use crate::store::{StorageError, StoreModel, UserModel};

verus! {

/// A key without a record is refused with `UserNotFound` by every operation
/// that reads or changes a record.
pub proof fn lemma_unknown_user_not_found(m: StoreModel, k: AccountId, payload: Seq<u8>)
    requires
        !m.users.contains_key(k),
    ensures
        m.user_of(k) == Err::<UserModel, StorageError>(StorageError::UserNotFound),
        m.add_data_outcome(k, payload) == Err::<StoreModel, StorageError>(
            StorageError::UserNotFound,
        ),
        m.data_of(k) == Err::<Seq<Seq<u8>>, StorageError>(StorageError::UserNotFound),
        m.set_active_outcome(k, true) == Err::<StoreModel, StorageError>(
            StorageError::UserNotFound,
        ),
        m.set_active_outcome(k, false) == Err::<StoreModel, StorageError>(
            StorageError::UserNotFound,
        ),
{
}

/// Only adding a user under a key creates a record for it: every other
/// operation keeps an absent key absent.
pub proof fn lemma_only_add_user_creates(
    m: StoreModel,
    k: AccountId,
    id: AccountId,
    name: Seq<u8>,
    payload: Seq<u8>,
    active: bool,
)
    requires
        !m.users.contains_key(k),
    ensures
        id != k ==> !m.with_user_added(id, name).users.contains_key(k),
        !m.with_user_removed(id).users.contains_key(k),
        m.add_data_outcome(id, payload) is Ok ==> !m.add_data_outcome(
            id,
            payload,
        )->Ok_0.users.contains_key(k),
        m.set_active_outcome(id, active) is Ok ==> !m.set_active_outcome(
            id,
            active,
        )->Ok_0.users.contains_key(k),
{
}

/// A user just added has the given name, is active, and has an empty log.
pub proof fn lemma_added_user_is_fresh(m: StoreModel, k: AccountId, name: Seq<u8>)
    ensures
        m.with_user_added(k, name).user_of(k) == Ok::<UserModel, StorageError>(
            UserModel { id: k, name, data: Seq::empty(), active: true },
        ),
{
}

/// Once deactivated, a user can be neither appended to nor read from, but its
/// record can still be read.
pub proof fn lemma_deactivated_user_is_gated(
    m: StoreModel,
    k: AccountId,
    name: Seq<u8>,
    payload: Seq<u8>,
)
    ensures
        m.with_user_added(k, name).set_active_outcome(k, false) is Ok,
        ({
            let s = m.with_user_added(k, name).set_active_outcome(k, false)->Ok_0;
            &&& s.add_data_outcome(k, payload) == Err::<StoreModel, StorageError>(
                StorageError::UserInactive,
            )
            &&& s.data_of(k) == Err::<Seq<Seq<u8>>, StorageError>(StorageError::UserInactive)
            &&& s.user_of(k) is Ok
        }),
{
}

/// Two appends to a new user are read back in the order they were made.
pub proof fn lemma_appends_in_order(
    m: StoreModel,
    k: AccountId,
    name: Seq<u8>,
    p1: Seq<u8>,
    p2: Seq<u8>,
)
    ensures
        m.with_user_added(k, name).add_data_outcome(k, p1) is Ok,
        m.with_user_added(k, name).add_data_outcome(k, p1)->Ok_0.add_data_outcome(k, p2) is Ok,
        m.with_user_added(k, name).add_data_outcome(k, p1)->Ok_0.add_data_outcome(
            k,
            p2,
        )->Ok_0.data_of(k) == Ok::<Seq<Seq<u8>>, StorageError>(seq![p1, p2]),
{
    let s1 = m.with_user_added(k, name).add_data_outcome(k, p1)->Ok_0;
    assert(s1.users[k].data =~= seq![p1]);
    let s2 = s1.add_data_outcome(k, p2)->Ok_0;
    assert(s2.logs[k] =~= seq![p1, p2]);
}

/// Appending to an active user extends its log by exactly that entry.
pub proof fn lemma_append_extends_log(m: StoreModel, k: AccountId, payload: Seq<u8>)
    requires
        m.mirrored(),
        m.users.contains_key(k),
        m.users[k].active,
    ensures
        m.add_data_outcome(k, payload) is Ok,
        m.add_data_outcome(k, payload)->Ok_0.data_of(k) == Ok::<Seq<Seq<u8>>, StorageError>(
            m.users[k].data.push(payload),
        ),
{
}

/// After a user is removed, neither its record nor its log can be read.
pub proof fn lemma_removed_user_is_gone(m: StoreModel, k: AccountId)
    ensures
        m.with_user_removed(k).user_of(k) == Err::<UserModel, StorageError>(
            StorageError::UserNotFound,
        ),
        m.with_user_removed(k).data_of(k) == Err::<Seq<Seq<u8>>, StorageError>(
            StorageError::UserNotFound,
        ),
        !m.with_user_removed(k).logs.contains_key(k),
{
}

/// Removing a key that has no record leaves the store as it was.
pub proof fn lemma_remove_unknown_is_noop(m: StoreModel, k: AccountId)
    requires
        m.mirrored(),
        !m.users.contains_key(k),
    ensures
        m.with_user_removed(k) == m,
{
    assert(m.with_user_removed(k).users =~= m.users);
    assert(m.with_user_removed(k).logs =~= m.logs);
}

/// Adding a user again forgets everything about the earlier record: the
/// store is as if the key had been removed first, and its log is gone.
pub proof fn lemma_readd_resets_log(m: StoreModel, k: AccountId, name: Seq<u8>)
    ensures
        m.with_user_added(k, name) == m.with_user_removed(k).with_user_added(k, name),
        m.with_user_added(k, name).data_of(k) == Err::<Seq<Seq<u8>>, StorageError>(
            StorageError::NoDataForUser,
        ),
{
    assert(m.with_user_added(k, name).users =~= m.with_user_removed(k).with_user_added(
        k,
        name,
    ).users);
    assert(m.with_user_added(k, name).logs =~= m.with_user_removed(k).with_user_added(
        k,
        name,
    ).logs);
}

} // verus!
