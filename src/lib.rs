//! A local secret store: safe mapping of hierarchical keys to files under a
//! store root, an atomic replace protocol for writing secret files, key
//! enumeration and password generation.
pub mod error;
pub mod key;
pub mod listing;
pub mod generator;
pub mod atomic;
pub mod store;
pub mod crypto;

pub use error::StoreError;
pub use key::{key_to_path, sanitize_key_part, StorePath};
pub use listing::{list_keys, DirEntryInfo, Walker};
pub use generator::generate;
pub use atomic::{AtomicWrite, WriteAction, WritePhase};

