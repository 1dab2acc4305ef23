//! The closed set of failures that the library reports.

use vstd::prelude::*;
use vstd::string::*;

verus! {

/// Every failure of the library, by kind.
#[derive(Clone, Debug, PartialEq, Eq)]
pub enum Error {
    /// The transport could not reach the endpoint.
    ChainUnavailable,
    /// Caller-supplied data is malformed.
    BadInput,
    /// A key fragment or a constructed key is structurally invalid.
    BadKey,
    /// A metadata blob is present but cannot be used.
    BadMetadata,
    /// The codec could not read bytes as the requested type; holds its message.
    Decode(String),
    /// No metadata has been loaded yet.
    NoMetadataLoaded,
    /// The remote endpoint answered with this error message.
    Node(String),
    /// A textual storage path has fewer than two segments.
    ParseStorageItem,
    /// A pallet, an item or the required key fragments could not be resolved.
    StorageKeyNotFound,
}

impl Error {
    /// What a front end shows: the remote message verbatim for `Node`, the
    /// codec's message after the kind for `Decode`, the kind's name otherwise.
    pub fn message(&self) -> (r: String)
        ensures
            self matches Error::Node(m) ==> r@ == m@,
            self matches Error::Decode(m) ==> r@ == "Decode: "@ + m@,
            self is ChainUnavailable ==> r@ == "ChainUnavailable"@,
            self is BadInput ==> r@ == "BadInput"@,
            self is BadKey ==> r@ == "BadKey"@,
            self is BadMetadata ==> r@ == "BadMetadata"@,
            self is NoMetadataLoaded ==> r@ == "NoMetadataLoaded"@,
            self is ParseStorageItem ==> r@ == "ParseStorageItem"@,
            self is StorageKeyNotFound ==> r@ == "StorageKeyNotFound"@,
    {
        match self {
            Error::ChainUnavailable => "ChainUnavailable".to_owned(),
            Error::BadInput => "BadInput".to_owned(),
            Error::BadKey => "BadKey".to_owned(),
            Error::BadMetadata => "BadMetadata".to_owned(),
            Error::Decode(m) => "Decode: ".to_owned().concat(m.as_str()),
            Error::NoMetadataLoaded => "NoMetadataLoaded".to_owned(),
            Error::Node(m) => m.clone(),
            Error::ParseStorageItem => "ParseStorageItem".to_owned(),
            Error::StorageKeyNotFound => "StorageKeyNotFound".to_owned(),
        }
    }
}

} // verus!
