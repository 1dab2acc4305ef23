//! Storage keys: derivation from an entry and its key fragments, parsing of
//! textual paths, and the `0x`-prefixed hex rendering.

use vstd::prelude::*;
use vstd::string::*;
use crate::cache::MetaCell;
use crate::error::Error;
use vstd::utf8::encode_utf8;
use crate::hasher::{hash_spec, Hasher};
use crate::meta::{find_entry_from, find_pallet, find_storage_entry, fragments_fit, hashed_fragments, key_spec, name_prefix, EntryMeta, EntryType, Metadata};
use crate::path::{camel_spec, split_path, split_spec, string_views, to_camel};

verus! {

/// The byte address of a storage cell.
#[derive(Clone, Debug, PartialEq, Eq, Hash)]
pub struct StorageKey(Vec<u8>);

impl View for StorageKey {
    type V = Seq<u8>;

    closed spec fn view(&self) -> Seq<u8> {
        self.0@
    }
}

/// The key of item `item` of pallet `pallet` with fragments `frags`, or why there is none.
pub open spec fn derive_spec(meta: Metadata, pallet: Seq<char>, item: Seq<char>, frags: Seq<Seq<char>>) -> Result<Seq<u8>, Error> {
    match find_storage_entry(meta, pallet, item) {
        None => Err(Error::StorageKeyNotFound),
        Some(e) => match key_spec(e.ty, pallet, item, frags) {
            None => Err(Error::StorageKeyNotFound),
            Some(k) => Ok(k),
        },
    }
}

/// The key that the textual path `path` names: its first two segments, in
/// camel case, name the pallet and the item, and the rest are key fragments.
pub open spec fn path_spec(meta: Metadata, path: Seq<char>) -> Result<Seq<u8>, Error> {
    let segs = split_spec(path);
    if segs.len() < 2 {
        Err(Error::ParseStorageItem)
    } else {
        derive_spec(meta, camel_spec(segs[0]), camel_spec(segs[1]), segs.skip(2))
    }
}

/// Lower-case hex digit of a value below 16.
pub open spec fn hex_digit(d: u8) -> char {
    if d < 10 {
        (d + 48) as u8 as char
    } else {
        (d + 87) as u8 as char
    }
}

/// Two lower-case hex digits for each byte, most significant first.
pub open spec fn lower_hex(b: Seq<u8>) -> Seq<char>
    decreases b.len(),
{
    if b.len() == 0 {
        seq![]
    } else {
        seq![hex_digit(b[0] / 16), hex_digit(b[0] % 16)] + lower_hex(b.drop_first())
    }
}

/// The value of a lower-case hex digit.
pub open spec fn digit_value(c: char) -> u8 {
    if '0' <= c && c <= '9' {
        ((c as u8) - 48) as u8
    } else {
        ((c as u8) - 87) as u8
    }
}

/// The bytes that a string of lower-case hex digit pairs spells.
pub open spec fn from_lower_hex(s: Seq<char>) -> Seq<u8>
    decreases s.len(),
{
    if s.len() < 2 {
        seq![]
    } else {
        seq![(digit_value(s[0]) * 16 + digit_value(s[1])) as u8] + from_lower_hex(s.skip(2))
    }
}

/// Each hex digit reads back as its value.
proof fn lemma_digit_round_trip(d: u8)
    requires
        d < 16,
    ensures
        digit_value(hex_digit(d)) == d,
{
}

/// Reading the hex of a byte sequence back gives the same bytes.
pub proof fn lemma_hex_round_trip(b: Seq<u8>)
    ensures
        lower_hex(b).len() == 2 * b.len(),
        from_lower_hex(lower_hex(b)) == b,
    decreases b.len(),
{
    if b.len() > 0 {
        lemma_hex_round_trip(b.drop_first());
        let x = b[0];
        lemma_digit_round_trip(x / 16);
        lemma_digit_round_trip(x % 16);
        let h = lower_hex(b);
        assert(h.skip(2) =~= lower_hex(b.drop_first()));
        assert((x / 16) * 16 + x % 16 == x);
        assert(from_lower_hex(h) =~= b);
    }
}

/// The rendering of a key is `0x` followed by text that reads back as
/// exactly the key's bytes.
pub proof fn lemma_rendering_round_trips(k: StorageKey, rendered: Seq<char>)
    requires
        rendered == seq!['0', 'x'] + lower_hex(k@),
    ensures
        rendered.len() == 2 + 2 * k@.len(),
        rendered.subrange(0, 2) == seq!['0', 'x'],
        from_lower_hex(rendered.skip(2)) == k@,
{
    lemma_hex_round_trip(k@);
    assert(rendered.skip(2) =~= lower_hex(k@));
    assert(rendered.subrange(0, 2) =~= seq!['0', 'x']);
}

/// Relies on hex::encode: two lower-case hex digits for each byte, in order.
#[verifier::external_body]
fn hex_encode(b: &[u8]) -> (r: String)
    ensures
        r@ == lower_hex(b@),
{
    hex::encode(b)
}

impl StorageKey {
    /// Derives the key of `item` in `pallet` from `map_keys`: the hashed names,
    /// then each required fragment hashed as the entry declares.
    pub fn derive(meta: &Metadata, pallet: &str, item: &str, map_keys: &Vec<String>) -> (r: Result<StorageKey, Error>)
        ensures
            r matches Ok(k) ==> derive_spec(*meta, pallet@, item@, string_views(map_keys@)) == Ok::<Seq<u8>, Error>(k@),
            r matches Err(e) ==> derive_spec(*meta, pallet@, item@, string_views(map_keys@)) == Err::<Seq<u8>, Error>(e),
            r matches Ok(k) ==> k@.len() >= 32 && k@.subrange(0, 32) == name_prefix(pallet@, item@),
            r matches Ok(k) ==> (find_storage_entry(*meta, pallet@, item@) matches Some(e) ==> (e.ty is Plain ==> k@.len() == 32)),
    {
        match meta.storage_entry(pallet, item) {
            None => Err(Error::StorageKeyNotFound),
            Some(entry) => match entry.ty.key(pallet, item, map_keys) {
                None => Err(Error::StorageKeyNotFound),
                Some(k) => Ok(StorageKey(k)),
            },
        }
    }

    /// Derives a key against the metadata held by `cell`.
    pub fn from_parts(cell: &MetaCell, module: &str, item: &str, map_keys: &Vec<String>) -> (r: Result<StorageKey, Error>)
        ensures
            cell@ is None ==> r == Err::<StorageKey, Error>(Error::NoMetadataLoaded),
            cell@ matches Some(m) ==> {
                &&& r matches Ok(k) ==> derive_spec(m, module@, item@, string_views(map_keys@)) == Ok::<Seq<u8>, Error>(k@)
                &&& r matches Err(e) ==> derive_spec(m, module@, item@, string_views(map_keys@)) == Err::<Seq<u8>, Error>(e)
            },
            r matches Ok(k) ==> k@.len() >= 32 && k@.subrange(0, 32) == name_prefix(module@, item@),
    {
        match cell.get() {
            None => Err(Error::NoMetadataLoaded),
            Some(meta) => StorageKey::derive(meta, module, item, map_keys),
        }
    }

    /// Derives the key that a path `pallet/item[/key1[/key2...]]` names.
    pub fn from_path(meta: &Metadata, path: &str) -> (r: Result<StorageKey, Error>)
        ensures
            r matches Ok(k) ==> path_spec(*meta, path@) == Ok::<Seq<u8>, Error>(k@),
            r matches Err(e) ==> path_spec(*meta, path@) == Err::<Seq<u8>, Error>(e),
            r matches Ok(k) ==> k@.len() >= 32 && k@.subrange(0, 32) == name_prefix(
                camel_spec(split_spec(path@)[0]),
                camel_spec(split_spec(path@)[1]),
            ),
    {
        let mut segs = split_path(path);
        if segs.len() < 2 {
            return Err(Error::ParseStorageItem);
        }
        let ghost all = string_views(segs@);
        let module_raw = segs.remove(0);
        let item_raw = segs.remove(0);
        let module = to_camel(module_raw.as_str());
        let item = to_camel(item_raw.as_str());
        proof {
            assert(string_views(segs@) =~= all.skip(2));
            assert(module_raw@ == all[0]);
            assert(item_raw@ == all[1]);
        }
        StorageKey::derive(meta, module.as_str(), item.as_str(), &segs)
    }

    /// Parses a path against the metadata held by `cell`. A path of fewer
    /// than two segments is refused whether or not metadata is loaded.
    pub fn parse(cell: &MetaCell, path: &str) -> (r: Result<StorageKey, Error>)
        ensures
            split_spec(path@).len() < 2 ==> r == Err::<StorageKey, Error>(Error::ParseStorageItem),
            split_spec(path@).len() >= 2 && cell@ is None ==> r == Err::<StorageKey, Error>(Error::NoMetadataLoaded),
            cell@ matches Some(m) ==> {
                &&& r matches Ok(k) ==> path_spec(m, path@) == Ok::<Seq<u8>, Error>(k@)
                &&& r matches Err(e) ==> path_spec(m, path@) == Err::<Seq<u8>, Error>(e)
            },
            r matches Ok(k) ==> k@.len() >= 32 && k@.subrange(0, 32) == name_prefix(
                camel_spec(split_spec(path@)[0]),
                camel_spec(split_spec(path@)[1]),
            ),
    {
        match cell.get() {
            None => {
                let segs = split_path(path);
                proof {
                    assert(string_views(segs@).len() == segs@.len());
                }
                if segs.len() < 2 {
                    Err(Error::ParseStorageItem)
                } else {
                    Err(Error::NoMetadataLoaded)
                }
            },
            Some(meta) => StorageKey::from_path(meta, path),
        }
    }

    /// The key's bytes.
    pub fn as_bytes(&self) -> (r: &[u8])
        ensures
            r@ == self@,
    {
        self.0.as_slice()
    }

    /// The key as `0x` followed by the lower-case hex of its bytes.
    pub fn to_string(&self) -> (r: String)
        ensures
            r@ == seq!['0', 'x'] + lower_hex(self@),
    {
        let digits = hex_encode(self.0.as_slice());
        let prefix = "0x".to_owned();
        proof {
            reveal_strlit("0x");
        }
        let r = prefix.concat(digits.as_str());
        assert(r@ =~= seq!['0', 'x'] + lower_hex(self@));
        r
    }
}

/// Deriving is deterministic: keys derived from the same path against the
/// same metadata are byte-identical.
pub proof fn lemma_path_deterministic(meta: Metadata, path: Seq<char>, k1: StorageKey, k2: StorageKey)
    requires
        path_spec(meta, path) == Ok::<Seq<u8>, Error>(k1@),
        path_spec(meta, path) == Ok::<Seq<u8>, Error>(k2@),
    ensures
        k1@ == k2@,
{
}

/// The key of a plain entry is the hashed pallet name followed by the hashed
/// item name, whatever fragments are supplied.
pub proof fn lemma_plain_key(meta: Metadata, pallet: Seq<char>, item: Seq<char>, frags: Seq<Seq<char>>, e: EntryMeta)
    requires
        find_storage_entry(meta, pallet, item) == Some(e),
        e.ty is Plain,
    ensures
        derive_spec(meta, pallet, item, frags) == Ok::<Seq<u8>, Error>(
            hash_spec(Hasher::Twox128, encode_utf8(pallet)) + hash_spec(Hasher::Twox128, encode_utf8(item)),
        ),
{
}

/// The key of a map entry with hasher `h` is the plain prefix followed by the
/// first fragment hashed with `h`; no fragment, or an empty one, finds nothing.
pub proof fn lemma_map_key(meta: Metadata, pallet: Seq<char>, item: Seq<char>, frags: Seq<Seq<char>>, e: EntryMeta, h: Hasher)
    requires
        find_storage_entry(meta, pallet, item) == Some(e),
        e.ty matches EntryType::NMap { hashers } && hashers@ == seq![h],
    ensures
        frags.len() == 0 ==> derive_spec(meta, pallet, item, frags) == Err::<Seq<u8>, Error>(Error::StorageKeyNotFound),
        (exists|i: int| 0 <= i < frags.len() && #[trigger] frags[i].len() == 0)
            ==> derive_spec(meta, pallet, item, frags) == Err::<Seq<u8>, Error>(Error::StorageKeyNotFound),
        (frags.len() >= 1 && forall|i: int| 0 <= i < frags.len() ==> #[trigger] frags[i].len() > 0)
            ==> derive_spec(meta, pallet, item, frags) == Ok::<Seq<u8>, Error>(
                name_prefix(pallet, item) + hash_spec(h, encode_utf8(frags[0])),
            ),
{
    if frags.len() >= 1 {
        let hs = seq![h];
        assert(hs.drop_last() =~= Seq::<Hasher>::empty());
        assert(hashed_fragments(hs.drop_last(), frags) == Seq::<u8>::empty());
        assert(hashed_fragments(hs, frags) =~= hash_spec(h, encode_utf8(frags[0])));
    }
}

/// An entry keyed by several hashers finds nothing with too few fragments or
/// an empty one; otherwise each fragment is hashed with the hasher of its
/// position, in declaration order.
pub proof fn lemma_multi_key(meta: Metadata, pallet: Seq<char>, item: Seq<char>, frags: Seq<Seq<char>>, e: EntryMeta, hs: Seq<Hasher>)
    requires
        find_storage_entry(meta, pallet, item) == Some(e),
        e.ty matches EntryType::NMap { hashers } && hashers@ == hs,
        hs.len() >= 1,
    ensures
        frags.len() < hs.len() ==> derive_spec(meta, pallet, item, frags) == Err::<Seq<u8>, Error>(Error::StorageKeyNotFound),
        (exists|i: int| 0 <= i < frags.len() && #[trigger] frags[i].len() == 0)
            ==> derive_spec(meta, pallet, item, frags) == Err::<Seq<u8>, Error>(Error::StorageKeyNotFound),
        fragments_fit(hs, frags) ==> derive_spec(meta, pallet, item, frags) == Ok::<Seq<u8>, Error>(
            name_prefix(pallet, item) + hashed_fragments(hs, frags),
        ),
        (hs.len() == 2 && fragments_fit(hs, frags)) ==> derive_spec(meta, pallet, item, frags) == Ok::<Seq<u8>, Error>(
            name_prefix(pallet, item) + hash_spec(hs[0], encode_utf8(frags[0])) + hash_spec(hs[1], encode_utf8(frags[1])),
        ),
{
    if hs.len() == 2 && frags.len() >= 2 {
        let one = hs.drop_last();
        assert(one.drop_last() =~= Seq::<Hasher>::empty());
        assert(hashed_fragments(one.drop_last(), frags) == Seq::<u8>::empty());
        assert(hashed_fragments(one, frags) =~= hash_spec(hs[0], encode_utf8(frags[0])));
        assert(hashed_fragments(hs, frags) =~= hash_spec(hs[0], encode_utf8(frags[0])) + hash_spec(hs[1], encode_utf8(frags[1])));
        assert(name_prefix(pallet, item) + hashed_fragments(hs, frags) =~= name_prefix(pallet, item) + hash_spec(hs[0], encode_utf8(frags[0])) + hash_spec(hs[1], encode_utf8(frags[1])));
    }
}

/// An unknown pallet, a pallet without storage, and an unknown item in a
/// known pallet all find nothing.
pub proof fn lemma_unknown_names(meta: Metadata, pallet: Seq<char>, item: Seq<char>, frags: Seq<Seq<char>>)
    requires
        find_pallet(meta.pallets@, pallet) matches Some(i) ==> (meta.pallets@[i].storage matches Some(s)
            ==> find_entry_from(s.entries@, item, 0) is None),
    ensures
        derive_spec(meta, pallet, item, frags) == Err::<Seq<u8>, Error>(Error::StorageKeyNotFound),
{
}

/// A text without `/` is one segment.
proof fn lemma_split_without_slash(s: Seq<char>)
    requires
        forall|i: int| 0 <= i < s.len() ==> s[i] != '/',
    ensures
        split_spec(s).len() == 1,
    decreases s.len(),
{
    if s.len() > 0 {
        lemma_split_without_slash(s.drop_last());
    }
}

/// A path without a `/` has fewer than two segments and does not parse.
pub proof fn lemma_one_segment(meta: Metadata, path: Seq<char>)
    requires
        forall|i: int| 0 <= i < path.len() ==> path[i] != '/',
    ensures
        path_spec(meta, path) == Err::<Seq<u8>, Error>(Error::ParseStorageItem),
{
    lemma_split_without_slash(path);
}

} // verus!
