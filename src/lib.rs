//! Storage addressing for metadata-described chains: a model of the chain's
//! metadata, the hashers that build storage keys, key derivation from textual
//! paths, and a write-once cell for the shared metadata; beside them, the
//! descriptions of hosted applications and the messages of a front end.

pub mod hasher;
pub mod error;
pub mod meta;
pub mod path;
pub mod cache;
pub mod key;
pub mod decode;
pub mod app_info;
pub mod io;

pub use cache::{MetaCell, Sube};
pub use decode::from_bytes;
pub use error::Error;
pub use hasher::{hash, Hasher};
pub use key::StorageKey;
pub use meta::{EntryMeta, EntryType, Metadata, PalletMeta, StorageMeta};
