//! A version-independent model of chain metadata: pallets, their storage
//! sections and entries, and how an entry turns key fragments into a key.

use vstd::prelude::*;
use vstd::string::*;
use vstd::utf8::encode_utf8;
use crate::hasher::{hash, hash_spec, extend_bytes, Hasher};
use crate::path::string_views;

verus! {

/// Decoded chain metadata: its pallets in declaration order, and the
/// entries of its type registry.
#[derive(Clone, Debug)]
pub struct Metadata {
    pub pallets: Vec<PalletMeta>,
    pub types: Vec<TypeEntry>,
}

/// A type of the registry: its id and the segments of its path.
#[derive(Clone, Debug)]
pub struct TypeEntry {
    pub id: u32,
    pub path: Vec<String>,
}

/// A named module of the chain, with its storage section if it has one.
#[derive(Clone, Debug)]
pub struct PalletMeta {
    pub name: String,
    pub storage: Option<StorageMeta>,
}

/// The storage section of a pallet: its prefix and its entries in declaration order.
#[derive(Clone, Debug)]
pub struct StorageMeta {
    pub prefix: String,
    pub entries: Vec<EntryMeta>,
}

/// One addressable storage item.
#[derive(Clone, Debug)]
pub struct EntryMeta {
    pub name: String,
    pub ty: EntryType,
}

/// How an entry is keyed: a plain value takes no key fragment, an n-ary map takes
/// one fragment for each of its hashers, hashed in declaration order.
#[derive(Clone, Debug)]
pub enum EntryType {
    Plain,
    NMap { hashers: Vec<Hasher> },
}

/// A block: its number, its hash and its parent's hash.
#[derive(Clone, Copy, Debug, PartialEq, Eq)]
pub struct BlockInfo {
    pub number: u64,
    pub hash: [u8; 32],
    pub parent: [u8; 32],
}

impl BlockInfo {
    /// The block's hash as bytes.
    pub fn into_bytes(self) -> (r: Vec<u8>)
        ensures
            r@ == self.hash@,
    {
        let mut out: Vec<u8> = Vec::new();
        let mut i: usize = 0;
        while i < 32
            invariant
                i <= 32,
                self.hash@.len() == 32,
                out@ == self.hash@.subrange(0, i as int),
            decreases 32 - i,
        {
            out.push(self.hash[i]);
            i = i + 1;
            assert(out@ =~= self.hash@.subrange(0, i as int));
        }
        assert(self.hash@.subrange(0, 32) =~= self.hash@);
        out
    }
}

/// The case-folded form of a string, as `str::to_lowercase` computes it.
pub uninterp spec fn lower_of(s: Seq<char>) -> Seq<char>;

/// Relies on str::to_lowercase: the result depends on the characters alone.
#[verifier::external_body]
fn lowercase(s: &str) -> (r: String)
    ensures
        r@ == lower_of(s@),
{
    s.to_lowercase()
}

/// Index of the first pallet at or after `i` whose folded name is `key`.
pub open spec fn find_pallet_from(ps: Seq<PalletMeta>, key: Seq<char>, i: int) -> Option<int>
    decreases ps.len() - i,
{
    if i < 0 || i >= ps.len() {
        None
    } else if lower_of(ps[i].name@) == key {
        Some(i)
    } else {
        find_pallet_from(ps, key, i + 1)
    }
}

/// Index of the first pallet whose name equals `name` up to case.
pub open spec fn find_pallet(ps: Seq<PalletMeta>, name: Seq<char>) -> Option<int> {
    find_pallet_from(ps, lower_of(name), 0)
}

/// Index of the first entry at or after `i` named exactly `name`.
pub open spec fn find_entry_from(es: Seq<EntryMeta>, name: Seq<char>, i: int) -> Option<int>
    decreases es.len() - i,
{
    if i < 0 || i >= es.len() {
        None
    } else if es[i].name@ == name {
        Some(i)
    } else {
        find_entry_from(es, name, i + 1)
    }
}

/// A pallet found from `i` on lies at or after `i` and matches.
pub proof fn lemma_find_pallet_from_in_range(ps: Seq<PalletMeta>, key: Seq<char>, i: int)
    requires
        0 <= i,
    ensures
        find_pallet_from(ps, key, i) matches Some(k) ==> i <= k < ps.len() && lower_of(ps[k].name@) == key,
    decreases ps.len() - i,
{
    if i < ps.len() && lower_of(ps[i].name@) != key {
        lemma_find_pallet_from_in_range(ps, key, i + 1);
    }
}

/// An entry found from `i` on lies at or after `i` and has the name.
pub proof fn lemma_find_entry_from_in_range(es: Seq<EntryMeta>, name: Seq<char>, i: int)
    requires
        0 <= i,
    ensures
        find_entry_from(es, name, i) matches Some(k) ==> i <= k < es.len() && es[k].name@ == name,
    decreases es.len() - i,
{
    if i < es.len() && es[i].name@ != name {
        lemma_find_entry_from_in_range(es, name, i + 1);
    }
}

/// The entry named `item` in the storage section of the pallet found by `pallet`.
pub open spec fn find_storage_entry(m: Metadata, pallet: Seq<char>, item: Seq<char>) -> Option<EntryMeta> {
    match find_pallet(m.pallets@, pallet) {
        None => None,
        Some(i) => match m.pallets@[i].storage {
            None => None,
            Some(s) => match find_entry_from(s.entries@, item, 0) {
                None => None,
                Some(j) => Some(s.entries@[j]),
            },
        },
    }
}

/// Whether `needle` occurs as a contiguous run of `hay`.
pub open spec fn contains(hay: Seq<char>, needle: Seq<char>) -> bool {
    exists|i: int| 0 <= i && i + needle.len() <= hay.len() && #[trigger] hay.subrange(i, i + needle.len()) == needle
}

/// Whether some segment of the type's path contains `q`, both case-folded.
pub open spec fn type_matches(t: TypeEntry, q: Seq<char>) -> bool {
    exists|s: int| 0 <= s < t.path@.len() && contains(lower_of(#[trigger] t.path@[s]@), lower_of(q))
}

/// The ids of the types that match `q`, in registry order.
pub open spec fn matching_ids(ts: Seq<TypeEntry>, q: Seq<char>) -> Seq<u32>
    decreases ts.len(),
{
    if ts.len() == 0 {
        seq![]
    } else {
        let rest = matching_ids(ts.drop_last(), q);
        if type_matches(ts.last(), q) {
            rest.push(ts.last().id)
        } else {
            rest
        }
    }
}

/// The characters of `s`, in order.
pub fn chars_of(s: &str) -> (r: Vec<char>)
    ensures
        r@ == s@,
{
    let n = s.unicode_len();
    let mut out: Vec<char> = Vec::new();
    let mut i: usize = 0;
    while i < n
        invariant
            n == s@.len(),
            i <= n,
            out@ == s@.subrange(0, i as int),
        decreases n - i,
    {
        out.push(s.get_char(i));
        i = i + 1;
        assert(out@ =~= s@.subrange(0, i as int));
    }
    assert(s@.subrange(0, n as int) =~= s@);
    out
}

/// Whether `needle` occurs as a contiguous run of `hay`.
pub fn contains_chars(hay: &Vec<char>, needle: &Vec<char>) -> (r: bool)
    ensures
        r == contains(hay@, needle@),
{
    let hl = hay.len();
    let nl = needle.len();
    if nl > hl {
        return false;
    }
    if nl == 0 {
        assert(hay@.subrange(0int, 0int + needle@.len()) =~= needle@);
        return true;
    }
    let mut i: usize = 0;
    while i <= hl - nl
        invariant
            hl == hay@.len(),
            nl == needle@.len(),
            1 <= nl <= hl,
            i <= hl - nl + 1,
            forall|k: int| 0 <= k < i ==> #[trigger] hay@.subrange(k, k + nl) != needle@,
        decreases hl - nl + 1 - i,
    {
        let mut j: usize = 0;
        let mut same = true;
        while j < nl && same
            invariant
                hl == hay@.len(),
                nl == needle@.len(),
                i + nl <= hl,
                j <= nl,
                same ==> forall|m: int| 0 <= m < j ==> hay@[i + m] == needle@[m],
                !same ==> hay@.subrange(i as int, i + nl) != needle@,
            decreases nl - j + (if same { 1int } else { 0int }),
        {
            if hay[i + j] != needle[j] {
                same = false;
                assert(hay@.subrange(i as int, i + nl)[j as int] != needle@[j as int]);
            } else {
                j = j + 1;
            }
        }
        if same {
            assert(hay@.subrange(i as int, i + nl) =~= needle@);
            return true;
        }
        i = i + 1;
    }
    false
}

/// Pallet lookup ignores case: two names with the same folded form find the same pallet.
pub proof fn lemma_lookup_ignores_case(ps: Seq<PalletMeta>, a: Seq<char>, b: Seq<char>)
    requires
        lower_of(a) == lower_of(b),
    ensures
        find_pallet(ps, a) == find_pallet(ps, b),
{
}

impl Metadata {
    /// The ids of the registry's types with a path segment that contains `q`,
    /// ignoring case, in registry order. Every match is returned.
    pub fn find_ids(&self, q: &str) -> (r: Vec<u32>)
        ensures
            r@ == matching_ids(self.types@, q@),
    {
        let folded_q = lowercase(q);
        let needle = chars_of(folded_q.as_str());
        let mut out: Vec<u32> = Vec::new();
        let mut k: usize = 0;
        while k < self.types.len()
            invariant
                k <= self.types@.len(),
                needle@ == lower_of(q@),
                out@ == matching_ids(self.types@.subrange(0, k as int), q@),
            decreases self.types@.len() - k,
        {
            let t = &self.types[k];
            let mut matched = false;
            let mut j: usize = 0;
            while j < t.path.len()
                invariant
                    *t == self.types@[k as int],
                    j <= t.path@.len(),
                    needle@ == lower_of(q@),
                    matched == exists|s: int| 0 <= s < j && contains(lower_of(#[trigger] t.path@[s]@), lower_of(q@)),
                decreases t.path@.len() - j,
            {
                let folded = lowercase(t.path[j].as_str());
                let hay = chars_of(folded.as_str());
                if contains_chars(&hay, &needle) {
                    matched = true;
                }
                j = j + 1;
            }
            proof {
                assert(self.types@.subrange(0, k + 1).drop_last() =~= self.types@.subrange(0, k as int));
            }
            if matched {
                out.push(t.id);
            }
            k = k + 1;
        }
        assert(self.types@.subrange(0, self.types@.len() as int) =~= self.types@);
        out
    }

    /// Index of the first pallet whose name equals `name` up to case.
    pub fn pallet_index(&self, name: &str) -> (r: Option<usize>)
        ensures
            r matches Some(i) ==> find_pallet(self.pallets@, name@) == Some(i as int),
            r is None ==> find_pallet(self.pallets@, name@) is None,
    {
        let key = lowercase(name);
        let mut i: usize = 0;
        while i < self.pallets.len()
            invariant
                i <= self.pallets@.len(),
                key@ == lower_of(name@),
                find_pallet(self.pallets@, name@) == find_pallet_from(self.pallets@, key@, i as int),
            decreases self.pallets@.len() - i,
        {
            let folded = lowercase(self.pallets[i].name.as_str());
            if folded == key {
                return Some(i);
            }
            i = i + 1;
        }
        None
    }

    /// The first pallet whose name equals `name` up to case.
    pub fn pallet_by_name(&self, name: &str) -> (r: Option<&PalletMeta>)
        ensures
            r matches Some(p) ==> find_pallet(self.pallets@, name@) matches Some(i)
                && *p == self.pallets@[i],
            r is None ==> find_pallet(self.pallets@, name@) is None,
    {
        match self.pallet_index(name) {
            Some(i) => {
                proof { lemma_find_pallet_from_in_range(self.pallets@, lower_of(name@), 0); }
                Some(&self.pallets[i])
            },
            None => None,
        }
    }

    /// The entry named exactly `item` in the storage of the pallet found by `pallet`.
    pub fn storage_entry(&self, pallet: &str, item: &str) -> (r: Option<&EntryMeta>)
        ensures
            r matches Some(e) ==> find_storage_entry(*self, pallet@, item@) == Some(*e),
            r is None ==> find_storage_entry(*self, pallet@, item@) is None,
    {
        match self.pallet_by_name(pallet) {
            None => None,
            Some(p) => match &p.storage {
                None => None,
                Some(s) => s.entry(item),
            },
        }
    }
}

impl PalletMeta {
    /// The pallet's storage section, if it has one.
    pub fn storage(&self) -> (r: Option<&StorageMeta>)
        ensures
            r matches Some(s) ==> self.storage == Some(*s),
            r is None ==> self.storage is None,
    {
        match &self.storage {
            Some(s) => Some(s),
            None => None,
        }
    }
}

impl StorageMeta {
    /// Index of the first entry named exactly `name`.
    pub fn entry_index(&self, name: &str) -> (r: Option<usize>)
        ensures
            r matches Some(j) ==> find_entry_from(self.entries@, name@, 0) == Some(j as int),
            r is None ==> find_entry_from(self.entries@, name@, 0) is None,
    {
        let wanted = name.to_owned();
        let mut j: usize = 0;
        while j < self.entries.len()
            invariant
                j <= self.entries@.len(),
                wanted@ == name@,
                find_entry_from(self.entries@, name@, 0) == find_entry_from(self.entries@, name@, j as int),
            decreases self.entries@.len() - j,
        {
            if self.entries[j].name == wanted {
                return Some(j);
            }
            j = j + 1;
        }
        None
    }

    /// The first entry named exactly `name`.
    pub fn entry(&self, name: &str) -> (r: Option<&EntryMeta>)
        ensures
            r matches Some(e) ==> find_entry_from(self.entries@, name@, 0) matches Some(j)
                && *e == self.entries@[j],
            r is None ==> find_entry_from(self.entries@, name@, 0) is None,
    {
        match self.entry_index(name) {
            Some(j) => {
                proof { lemma_find_entry_from_in_range(self.entries@, name@, 0); }
                Some(&self.entries[j])
            },
            None => None,
        }
    }
}

/// The part of every key that names the item: the 128-bit xxHash of the
/// pallet name followed by that of the item name.
pub open spec fn name_prefix(pallet: Seq<char>, item: Seq<char>) -> Seq<u8> {
    hash_spec(Hasher::Twox128, encode_utf8(pallet)) + hash_spec(Hasher::Twox128, encode_utf8(item))
}

/// Each of the first `hs.len()` fragments hashed with the hasher of its position, in order.
pub open spec fn hashed_fragments(hs: Seq<Hasher>, frags: Seq<Seq<char>>) -> Seq<u8>
    decreases hs.len(),
{
    if hs.len() == 0 {
        seq![]
    } else {
        hashed_fragments(hs.drop_last(), frags) + hash_spec(hs.last(), encode_utf8(frags[hs.len() - 1]))
    }
}

/// Whether the fragments can key an entry with these hashers: none are
/// needed when it has no hasher, else at least one per hasher and none empty.
pub open spec fn fragments_fit(hs: Seq<Hasher>, frags: Seq<Seq<char>>) -> bool {
    hs.len() == 0 || (frags.len() >= hs.len() && forall|i: int| 0 <= i < frags.len() ==> #[trigger] frags[i].len() > 0)
}

/// The key of an entry with hashers `hs`, or `None` where the fragments do not fit.
pub open spec fn map_key_spec(pallet: Seq<char>, item: Seq<char>, frags: Seq<Seq<char>>, hs: Seq<Hasher>) -> Option<Seq<u8>> {
    if fragments_fit(hs, frags) {
        Some(name_prefix(pallet, item) + hashed_fragments(hs, frags))
    } else {
        None
    }
}

/// The key of an entry of type `ty`; a plain entry ignores every fragment.
pub open spec fn key_spec(ty: EntryType, pallet: Seq<char>, item: Seq<char>, frags: Seq<Seq<char>>) -> Option<Seq<u8>> {
    match ty {
        EntryType::Plain => Some(name_prefix(pallet, item)),
        EntryType::NMap { hashers } => map_key_spec(pallet, item, frags, hashers@),
    }
}

/// Builds the key of an entry whose positions are hashed with `hashers`.
pub fn build_key(pallet: &str, item: &str, map_keys: &Vec<String>, hashers: &Vec<Hasher>) -> (r: Option<Vec<u8>>)
    ensures
        r matches Some(k) ==> map_key_spec(pallet@, item@, string_views(map_keys@), hashers@) == Some(k@),
        r is None ==> map_key_spec(pallet@, item@, string_views(map_keys@), hashers@) is None,
        r matches Some(k) ==> k@.len() >= 32 && k@.subrange(0, 32) == name_prefix(pallet@, item@),
        r matches Some(k) ==> (hashers@.len() == 0 ==> k@.len() == 32),
{
    if hashers.len() > 0 {
        if map_keys.len() < hashers.len() {
            return None;
        }
        let mut i: usize = 0;
        while i < map_keys.len()
            invariant
                i <= map_keys@.len(),
                hashers@.len() > 0,
                forall|j: int| 0 <= j < i ==> #[trigger] string_views(map_keys@)[j].len() > 0,
            decreases map_keys@.len() - i,
        {
            let fragment: &str = map_keys[i].as_str();
            if fragment.unicode_len() == 0 {
                assert(string_views(map_keys@)[i as int].len() == 0);
                return None;
            }
            i = i + 1;
        }
    }
    let mut key = hash(&Hasher::Twox128, pallet.as_bytes());
    let item_hash = hash(&Hasher::Twox128, item.as_bytes());
    extend_bytes(&mut key, item_hash.as_slice());
    let ghost prefix = key@;
    assert(prefix.len() == 32);
    let mut i: usize = 0;
    while i < hashers.len()
        invariant
            i <= hashers@.len(),
            prefix.len() == 32,
            hashers@.len() <= map_keys@.len() || hashers@.len() == 0,
            prefix == name_prefix(pallet@, item@),
            key@ == prefix + hashed_fragments(hashers@.subrange(0, i as int), string_views(map_keys@)),
        decreases hashers@.len() - i,
    {
        let h = hash(&hashers[i], map_keys[i].as_str().as_bytes());
        extend_bytes(&mut key, h.as_slice());
        i = i + 1;
        assert(hashers@.subrange(0, i as int).drop_last() == hashers@.subrange(0, i - 1));
        assert(key@ == prefix + hashed_fragments(hashers@.subrange(0, i as int), string_views(map_keys@)));
    }
    assert(hashers@.subrange(0, hashers@.len() as int) == hashers@);
    assert(key@.subrange(0, 32) =~= prefix);
    proof {
        if hashers@.len() == 0 {
            assert(hashers@ =~= Seq::<Hasher>::empty());
            assert(key@ =~= prefix);
        }
    }
    Some(key)
}

impl EntryType {
    /// The key of an entry of this type named `item` in `pallet`, from `map_keys`.
    pub fn key(&self, pallet: &str, item: &str, map_keys: &Vec<String>) -> (r: Option<Vec<u8>>)
        ensures
            r matches Some(k) ==> key_spec(*self, pallet@, item@, string_views(map_keys@)) == Some(k@),
            r is None ==> key_spec(*self, pallet@, item@, string_views(map_keys@)) is None,
            r matches Some(k) ==> k@.len() >= 32 && k@.subrange(0, 32) == name_prefix(pallet@, item@),
            r matches Some(k) ==> (self is Plain ==> k@.len() == 32),
    {
        match self {
            EntryType::Plain => {
                let no_keys: Vec<String> = Vec::new();
                let no_hashers: Vec<Hasher> = Vec::new();
                let r = build_key(pallet, item, &no_keys, &no_hashers);
                assert(hashed_fragments(no_hashers@, string_views(no_keys@)) == Seq::<u8>::empty());
                assert(name_prefix(pallet@, item@) + Seq::<u8>::empty() == name_prefix(pallet@, item@));
                r
            },
            EntryType::NMap { hashers } => build_key(pallet, item, map_keys, hashers),
        }
    }
}

impl EntryMeta {
    /// The key of this entry in `pallet`, from `map_keys`.
    pub fn key(&self, pallet: &str, map_keys: &Vec<String>) -> (r: Option<Vec<u8>>)
        ensures
            r matches Some(k) ==> key_spec(self.ty, pallet@, self.name@, string_views(map_keys@)) == Some(k@),
            r is None ==> key_spec(self.ty, pallet@, self.name@, string_views(map_keys@)) is None,
            r matches Some(k) ==> k@.len() >= 32 && k@.subrange(0, 32) == name_prefix(pallet@, self.name@),
            r matches Some(k) ==> (self.ty is Plain ==> k@.len() == 32),
    {
        self.ty.key(pallet, self.name.as_str(), map_keys)
    }
}

} // verus!
