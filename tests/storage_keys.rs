use sube::cache::MetaCell;
use sube::key::StorageKey;
use sube::meta::{EntryMeta, EntryType, Metadata, PalletMeta, StorageMeta, TypeEntry};
use sube::path::{split_path, to_camel};
use sube::{hash, Error, Hasher};

fn entry(name: &str, ty: EntryType) -> EntryMeta {
    EntryMeta { name: name.to_string(), ty }
}

fn pallet(name: &str, entries: Vec<EntryMeta>) -> PalletMeta {
    PalletMeta {
        name: name.to_string(),
        storage: Some(StorageMeta { prefix: name.to_string(), entries }),
    }
}

fn sample_meta() -> Metadata {
    Metadata {
        pallets: vec![
            pallet(
                "System",
                vec![
                    entry("Number", EntryType::Plain),
                    entry(
                        "Account",
                        EntryType::NMap { hashers: vec![Hasher::Blake2_128Concat] },
                    ),
                    entry(
                        "Pair",
                        EntryType::NMap { hashers: vec![Hasher::Twox64Concat, Hasher::Identity] },
                    ),
                ],
            ),
            pallet("Timestamp", vec![entry("Now", EntryType::Plain)]),
            PalletMeta { name: "Sudo".to_string(), storage: None },
        ],
        types: vec![
            TypeEntry { id: 0, path: vec![] },
            TypeEntry { id: 1, path: keys(&["frame_system", "AccountInfo"]) },
            TypeEntry { id: 2, path: keys(&["pallet_balances", "AccountData"]) },
            TypeEntry { id: 3, path: keys(&["sp_core", "crypto", "AccountId32"]) },
        ],
    }
}

fn keys(v: &[&str]) -> Vec<String> {
    v.iter().map(|s| s.to_string()).collect()
}

fn prefix(p: &str, i: &str) -> Vec<u8> {
    let mut k = sp_core_hashing::twox_128(p.as_bytes()).to_vec();
    k.extend_from_slice(&sp_core_hashing::twox_128(i.as_bytes()));
    k
}

#[test]
fn timestamp_now_path() {
    let meta = sample_meta();
    let k = StorageKey::from_path(&meta, "timestamp/now").unwrap();
    assert_eq!(
        k.to_string(),
        "0xf0c365c3cf59d671eb72da0e7a4113c49f1f0515f462cdcf84e0f1d6045dfcbb"
    );
    assert_eq!(k.as_bytes(), prefix("Timestamp", "Now").as_slice());
}

#[test]
fn system_account_path() {
    let meta = sample_meta();
    let k = StorageKey::from_path(&meta, "system/account/0xdeadbeef").unwrap();
    let mut expected = prefix("System", "Account");
    assert_eq!(
        hex::encode(&expected),
        "26aa394eea5630e07c48ae0c9558cef7b99d880ec681799c0cf30e8886371da9"
    );
    expected.extend_from_slice(&sp_core_hashing::blake2_128(b"0xdeadbeef"));
    expected.extend_from_slice(b"0xdeadbeef");
    assert_eq!(k.as_bytes(), expected.as_slice());
}

#[test]
fn plain_entry_ignores_fragments() {
    let meta = sample_meta();
    let a = StorageKey::derive(&meta, "System", "Number", &keys(&[])).unwrap();
    let b = StorageKey::derive(&meta, "System", "Number", &keys(&["x", ""])).unwrap();
    assert_eq!(a, b);
    assert_eq!(a.as_bytes(), prefix("System", "Number").as_slice());
}

#[test]
fn map_entry_needs_a_fragment() {
    let meta = sample_meta();
    assert_eq!(
        StorageKey::derive(&meta, "System", "Account", &keys(&[])),
        Err(Error::StorageKeyNotFound)
    );
    assert_eq!(
        StorageKey::derive(&meta, "System", "Account", &keys(&[""])),
        Err(Error::StorageKeyNotFound)
    );
    assert_eq!(
        StorageKey::from_path(&meta, "system/account/"),
        Err(Error::StorageKeyNotFound)
    );
}

#[test]
fn double_map_order_and_arity() {
    let meta = sample_meta();
    assert_eq!(
        StorageKey::derive(&meta, "System", "Pair", &keys(&["a"])),
        Err(Error::StorageKeyNotFound)
    );
    assert_eq!(
        StorageKey::derive(&meta, "System", "Pair", &keys(&["a", ""])),
        Err(Error::StorageKeyNotFound)
    );
    let k = StorageKey::derive(&meta, "System", "Pair", &keys(&["ab", "cd"])).unwrap();
    let mut expected = prefix("System", "Pair");
    expected.extend_from_slice(&sp_core_hashing::twox_64(b"ab"));
    expected.extend_from_slice(b"ab");
    expected.extend_from_slice(b"cd");
    assert_eq!(k.as_bytes(), expected.as_slice());
    let swapped = StorageKey::derive(&meta, "System", "Pair", &keys(&["cd", "ab"])).unwrap();
    assert_ne!(k, swapped);
}

#[test]
fn unknown_names_are_not_found() {
    let meta = sample_meta();
    assert_eq!(
        StorageKey::derive(&meta, "Balances", "Account", &keys(&["a"])),
        Err(Error::StorageKeyNotFound)
    );
    assert_eq!(
        StorageKey::derive(&meta, "System", "Nothing", &keys(&[])),
        Err(Error::StorageKeyNotFound)
    );
    assert_eq!(
        StorageKey::derive(&meta, "Sudo", "Key", &keys(&[])),
        Err(Error::StorageKeyNotFound)
    );
}

#[test]
fn short_paths_do_not_parse() {
    let meta = sample_meta();
    assert_eq!(StorageKey::from_path(&meta, "system"), Err(Error::ParseStorageItem));
    assert_eq!(StorageKey::from_path(&meta, ""), Err(Error::ParseStorageItem));
}

#[test]
fn derivation_is_deterministic() {
    let meta = sample_meta();
    let a = StorageKey::from_path(&meta, "system/pair/x/y").unwrap();
    let b = StorageKey::from_path(&meta, "system/pair/x/y").unwrap();
    assert_eq!(a, b);
    assert_eq!(a.to_string(), b.to_string());
}

#[test]
fn rendering_is_lower_hex_of_the_bytes() {
    let meta = sample_meta();
    let k = StorageKey::from_path(&meta, "system/pair/x/y").unwrap();
    let s = k.to_string();
    assert!(s.starts_with("0x"));
    assert_eq!(s.len(), 2 + 2 * k.as_bytes().len());
    assert_eq!(hex::decode(&s[2..]).unwrap(), k.as_bytes());
    assert_eq!(s, s.to_lowercase());
}

#[test]
fn pallet_lookup_ignores_case() {
    let meta = sample_meta();
    let a = meta.pallet_index("System");
    assert_eq!(a, Some(0));
    assert_eq!(meta.pallet_index("system"), a);
    assert_eq!(meta.pallet_index("SYSTEM"), a);
    assert_eq!(meta.pallet_by_name("sYsTeM").unwrap().name, "System");
    assert!(meta.pallet_by_name("balances").is_none());
}

#[test]
fn entry_lookup_is_exact() {
    let meta = sample_meta();
    let system = meta.pallet_by_name("system").unwrap();
    let storage = system.storage().unwrap();
    assert_eq!(storage.entry_index("Account"), Some(1));
    assert!(storage.entry("account").is_none());
    assert_eq!(meta.storage_entry("SYSTEM", "Pair").unwrap().name, "Pair");
}

#[test]
fn keys_need_loaded_metadata() {
    let empty = MetaCell::new();
    assert_eq!(StorageKey::parse(&empty, "timestamp/now"), Err(Error::NoMetadataLoaded));
    assert_eq!(
        StorageKey::from_parts(&empty, "Timestamp", "Now", &keys(&[])),
        Err(Error::NoMetadataLoaded)
    );
    let full = MetaCell::with_meta(sample_meta());
    let a = StorageKey::parse(&full, "timestamp/now").unwrap();
    let b = StorageKey::from_parts(&full, "Timestamp", "Now", &keys(&[])).unwrap();
    assert_eq!(a, b);
}

#[test]
fn camel_case_conversion() {
    assert_eq!(to_camel("account-nonce"), "AccountNonce");
    assert_eq!(to_camel("timestamp"), "Timestamp");
    assert_eq!(to_camel("--a--b-"), "AB");
    assert_eq!(to_camel("Already"), "Already");
    assert_eq!(to_camel(""), "");
}

#[test]
fn path_splitting() {
    assert_eq!(split_path("a/b/c"), vec!["a", "b", "c"]);
    assert_eq!(split_path(""), vec![""]);
    assert_eq!(split_path("/x/"), vec!["", "x", ""]);
}

#[test]
fn hashers_give_known_digests() {
    assert_eq!(
        hex::encode(hash(&Hasher::Twox128, b"System")),
        "26aa394eea5630e07c48ae0c9558cef7"
    );
    assert_eq!(hash(&Hasher::Identity, b"abc"), b"abc".to_vec());
    let c = hash(&Hasher::Blake2_128Concat, b"abc");
    assert_eq!(&c[..16], &sp_core_hashing::blake2_128(b"abc"));
    assert_eq!(&c[16..], b"abc");
    let t = hash(&Hasher::Twox64Concat, b"abc");
    assert_eq!(&t[..8], &sp_core_hashing::twox_64(b"abc"));
    assert_eq!(&t[8..], b"abc");
    assert_eq!(hash(&Hasher::Blake2_256, b"abc"), sp_core_hashing::blake2_256(b"abc").to_vec());
    assert_eq!(hash(&Hasher::Twox256, b"abc"), sp_core_hashing::twox_256(b"abc").to_vec());
    assert_eq!(hash(&Hasher::Blake2_128, b"abc"), sp_core_hashing::blake2_128(b"abc").to_vec());
}

#[test]
fn registry_search_ignores_case_and_returns_every_match() {
    let meta = sample_meta();
    assert_eq!(meta.find_ids("account"), vec![1, 2, 3]);
    assert_eq!(meta.find_ids("ACCOUNTINFO"), vec![1]);
    assert_eq!(meta.find_ids("balances"), vec![2]);
    assert_eq!(meta.find_ids("nothing"), Vec::<u32>::new());
    assert_eq!(meta.find_ids(""), vec![1, 2, 3]);
}

#[test]
fn error_messages() {
    assert_eq!(Error::Node("boom: bad".to_string()).message(), "boom: bad");
    assert_eq!(Error::StorageKeyNotFound.message(), "StorageKeyNotFound");
    assert_eq!(Error::ParseStorageItem.message(), "ParseStorageItem");
    assert_eq!(Error::Decode("eof".to_string()).message(), "Decode: eof");
}

#[test]
fn block_info_bytes_are_its_hash() {
    let b = sube::meta::BlockInfo { number: 7, hash: [3u8; 32], parent: [1u8; 32] };
    assert_eq!(b.into_bytes(), vec![3u8; 32]);
}

#[test]
fn extra_fragments_are_ignored() {
    let meta = sample_meta();
    let a = StorageKey::from_path(&meta, "system/account/0xdeadbeef").unwrap();
    let b = StorageKey::from_path(&meta, "system/account/0xdeadbeef/more").unwrap();
    assert_eq!(a, b);
    let c = StorageKey::from_path(&meta, "timestamp/now/whatever").unwrap();
    assert_eq!(c.as_bytes(), prefix("Timestamp", "Now").as_slice());
}

#[test]
fn hyphenated_names_become_camel_case() {
    let meta = Metadata {
        pallets: vec![pallet("Balances", vec![entry("TotalIssuance", EntryType::Plain)])],
        types: vec![],
    };
    let k = StorageKey::from_path(&meta, "balances/total-issuance").unwrap();
    assert_eq!(k.as_bytes(), prefix("Balances", "TotalIssuance").as_slice());
}

#[test]
fn short_paths_fail_to_parse_without_metadata() {
    let empty = MetaCell::new();
    assert_eq!(StorageKey::parse(&empty, "timestamp"), Err(Error::ParseStorageItem));
    assert_eq!(StorageKey::parse(&empty, ""), Err(Error::ParseStorageItem));
    let full = MetaCell::with_meta(sample_meta());
    assert_eq!(StorageKey::parse(&full, "timestamp"), Err(Error::ParseStorageItem));
}

#[test]
fn every_key_starts_with_the_hashed_names() {
    let meta = sample_meta();
    let plain = StorageKey::derive(&meta, "Timestamp", "Now", &keys(&[])).unwrap();
    assert_eq!(plain.as_bytes().len(), 32);
    let map = StorageKey::derive(&meta, "System", "Account", &keys(&["ab"])).unwrap();
    assert_eq!(&map.as_bytes()[..32], prefix("System", "Account").as_slice());
    assert_eq!(map.as_bytes().len(), 32 + 16 + 2);
}
