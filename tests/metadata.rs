use frame_metadata::v14::{
    ExtrinsicMetadata, PalletMetadata, PalletStorageMetadata, RuntimeMetadataV14,
    StorageEntryMetadata, StorageEntryModifier, StorageEntryType, StorageHasher,
};
use frame_metadata::RuntimeMetadataPrefixed;
use parity_scale_codec::Encode;
use scale_info::meta_type;
use sube::cache::{MetaCell, Sube};
use sube::key::StorageKey;
use sube::meta::{EntryType, Metadata};
use sube::{from_bytes, Error, Hasher};

fn blob() -> Vec<u8> {
    let pallets = vec![
        PalletMetadata {
            name: "Timestamp",
            storage: Some(PalletStorageMetadata {
                prefix: "Timestamp",
                entries: vec![StorageEntryMetadata {
                    name: "Now",
                    modifier: StorageEntryModifier::Default,
                    ty: StorageEntryType::Plain(meta_type::<u64>()),
                    default: vec![0; 8],
                    docs: vec![],
                }],
            }),
            calls: None,
            event: None,
            constants: vec![],
            error: None,
            index: 0,
        },
        PalletMetadata {
            name: "System",
            storage: Some(PalletStorageMetadata {
                prefix: "System",
                entries: vec![StorageEntryMetadata {
                    name: "Account",
                    modifier: StorageEntryModifier::Default,
                    ty: StorageEntryType::Map {
                        hashers: vec![StorageHasher::Blake2_128Concat],
                        key: meta_type::<[u8; 32]>(),
                        value: meta_type::<Option<u128>>(),
                    },
                    default: vec![],
                    docs: vec![],
                }, StorageEntryMetadata {
                    name: "Pair",
                    modifier: StorageEntryModifier::Optional,
                    ty: StorageEntryType::Map {
                        hashers: vec![StorageHasher::Twox64Concat, StorageHasher::Identity, StorageHasher::Twox256],
                        key: meta_type::<(u32, u32, u32)>(),
                        value: meta_type::<u8>(),
                    },
                    default: vec![],
                    docs: vec![],
                }],
            }),
            calls: None,
            event: None,
            constants: vec![],
            error: None,
            index: 1,
        },
        PalletMetadata {
            name: "Utility",
            storage: None,
            calls: None,
            event: None,
            constants: vec![],
            error: None,
            index: 2,
        },
    ];
    let extrinsic = ExtrinsicMetadata {
        ty: meta_type::<()>(),
        version: 4,
        signed_extensions: vec![],
    };
    let meta = RuntimeMetadataV14::new(pallets, extrinsic, meta_type::<()>());
    let prefixed: RuntimeMetadataPrefixed = meta.into();
    prefixed.encode()
}

#[test]
fn decodes_a_version_14_blob() {
    let meta = from_bytes(&blob()).unwrap();
    assert_eq!(meta.pallets.len(), 3);
    assert_eq!(meta.pallets[0].name, "Timestamp");
    assert_eq!(meta.pallets[1].name, "System");
    assert!(meta.pallets[2].storage.is_none());
    let account = meta.storage_entry("system", "Account").unwrap();
    match &account.ty {
        EntryType::NMap { hashers } => assert_eq!(hashers, &vec![Hasher::Blake2_128Concat]),
        EntryType::Plain => panic!("Account is a map"),
    }
    assert!(matches!(meta.storage_entry("timestamp", "Now").unwrap().ty, EntryType::Plain));
    match &meta.storage_entry("system", "Pair").unwrap().ty {
        EntryType::NMap { hashers } => assert_eq!(
            hashers,
            &vec![Hasher::Twox64Concat, Hasher::Identity, Hasher::Twox256]
        ),
        EntryType::Plain => panic!("Pair is a map"),
    }
    let found = meta.find_ids("OPTION");
    assert_eq!(found.len(), 1);
    assert!(meta.types.iter().any(|t| t.id == found[0] && t.path == vec!["Option".to_string()]));
    let k = StorageKey::from_path(&meta, "timestamp/now").unwrap();
    assert_eq!(
        k.to_string(),
        "0xf0c365c3cf59d671eb72da0e7a4113c49f1f0515f462cdcf84e0f1d6045dfcbb"
    );
}

#[test]
fn unknown_version_is_bad_metadata() {
    let mut b = blob();
    b[4] = 200;
    assert_eq!(from_bytes(&b).unwrap_err(), Error::BadMetadata);
    assert_eq!(from_bytes(&[0x6d, 0x65, 0x74, 0x61, 9, 0, 0]).unwrap_err(), Error::BadMetadata);
}

#[test]
fn short_blob_is_bad_metadata() {
    assert_eq!(from_bytes(&[]).unwrap_err(), Error::BadMetadata);
    assert_eq!(from_bytes(&[0x6d, 0x65, 0x74, 0x61]).unwrap_err(), Error::BadMetadata);
}

#[test]
fn truncated_payload_is_a_decode_error() {
    let b = blob();
    let cut = &b[..b.len() / 2];
    assert!(matches!(from_bytes(cut), Err(Error::Decode(_))));
}

fn named(name: &str) -> Metadata {
    let mut m = from_bytes(&blob()).unwrap();
    m.pallets[0].name = name.to_string();
    m
}

#[test]
fn cell_keeps_the_first_commit() {
    let mut cell = MetaCell::new();
    assert!(cell.get().is_none());
    assert!(cell.commit(named("First")));
    assert!(!cell.commit(named("Second")));
    assert!(!cell.commit(named("Third")));
    assert_eq!(cell.get().unwrap().pallets[0].name, "First");
}

#[test]
fn seeded_cell_ignores_later_commits() {
    let mut cell = MetaCell::with_meta(named("Seed"));
    assert!(!cell.commit(named("Fetched")));
    assert_eq!(cell.get().unwrap().pallets[0].name, "Seed");
}

#[test]
fn facade_hands_back_its_backend() {
    let s = Sube::new(7u32);
    assert_eq!(*s.inner(), 7);
}
