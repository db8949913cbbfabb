//! An access-gated record store: users keyed by account, each with a name,
//! an activation flag and an append-only log of opaque payloads.

pub mod account;
pub mod assoc;
pub mod laws;
pub mod store;

pub use account::AccountId;
pub use store::{ComplexStorage, StorageError, StoreModel, User, UserAdded, UserModel, UserRemoved};
