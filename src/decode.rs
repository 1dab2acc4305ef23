//! Decoding of the raw metadata blob: the codec reads it, and each supported
//! schema version is read into the version-independent model.

use vstd::prelude::*;
use frame_metadata::v14::StorageEntryType;
use frame_metadata::RuntimeMetadata::{V14, V15};
use frame_metadata::RuntimeMetadataPrefixed;
use parity_scale_codec::Decode;
use parity_scale_codec::Error as CodecError;
use crate::error::Error;
use crate::hasher::Hasher;
use crate::meta::{EntryMeta, EntryType, Metadata, PalletMeta, StorageMeta, TypeEntry};
use crate::path::string_views;

verus! {

#[verifier::external_type_specification]
#[verifier::external_body]
pub struct ExCodecError(CodecError);

/// Whether the codec reads a prefixed metadata value from the bytes.
pub uninterp spec fn codec_reads(b: Seq<u8>) -> bool;

/// The pallets that the codec reads from a version 14 or 15 blob: each name,
/// with the prefix of its storage section if it has one.
pub uninterp spec fn blob_pallets(b: Seq<u8>) -> Seq<(Seq<char>, Option<Seq<char>>)>;

/// The storage entries of each pallet that the codec reads from a version 14
/// or 15 blob: each name, with the codes of its hashers if it is a map.
pub uninterp spec fn blob_entries(b: Seq<u8>) -> Seq<Seq<(Seq<char>, Option<Seq<u8>>)>>;

/// The registry types that the codec reads from a version 14 or 15 blob: each
/// id with the segments of its path.
pub uninterp spec fn blob_types(b: Seq<u8>) -> Seq<(u32, Seq<Seq<char>>)>;

pub open spec fn opt_chars(o: Option<String>) -> Option<Seq<char>> {
    match o {
        Some(s) => Some(s@),
        None => None,
    }
}

pub open spec fn opt_bytes(o: Option<Vec<u8>>) -> Option<Seq<u8>> {
    match o {
        Some(v) => Some(v@),
        None => None,
    }
}

pub open spec fn raw_pallets_view(v: Seq<(String, Option<String>)>) -> Seq<(Seq<char>, Option<Seq<char>>)> {
    v.map_values(|x: (String, Option<String>)| (x.0@, opt_chars(x.1)))
}

pub open spec fn raw_entries_view(v: Seq<(String, Option<Vec<u8>>)>) -> Seq<(Seq<char>, Option<Seq<u8>>)> {
    v.map_values(|x: (String, Option<Vec<u8>>)| (x.0@, opt_bytes(x.1)))
}

pub open spec fn raw_entry_lists_view(v: Seq<Vec<(String, Option<Vec<u8>>)>>) -> Seq<Seq<(Seq<char>, Option<Seq<u8>>)>> {
    v.map_values(|x: Vec<(String, Option<Vec<u8>>)>| raw_entries_view(x@))
}

pub open spec fn raw_types_view(v: Seq<(u32, Vec<String>)>) -> Seq<(u32, Seq<Seq<char>>)> {
    v.map_values(|x: (u32, Vec<String>)| (x.0, string_views(x.1@)))
}

/// Relies on `Decode for RuntimeMetadataPrefixed` (frame-metadata): whether
/// the codec reads a value depends on the bytes alone.
#[verifier::external_body]
fn decode_prefixed(bytes: &[u8]) -> (r: Result<(), CodecError>)
    ensures
        r is Ok == codec_reads(bytes@),
{
    RuntimeMetadataPrefixed::decode(&mut &bytes[..]).map(|_| ())
}

/// Relies on `Display for parity_scale_codec::Error`: the codec's message.
#[verifier::external_body]
fn codec_message(e: &CodecError) -> String {
    e.to_string()
}

/// Relies on `Decode for RuntimeMetadataPrefixed`: the name and storage
/// prefix of each pallet, which depend on the bytes alone.
#[verifier::external_body]
fn blob_pallet_list(bytes: &[u8]) -> (r: Vec<(String, Option<String>)>)
    ensures
        raw_pallets_view(r@) == blob_pallets(bytes@),
{
    match RuntimeMetadataPrefixed::decode(&mut &bytes[..]).map(|m| m.1) {
        Ok(V14(v)) => v.pallets.into_iter().map(|p| (p.name, p.storage.map(|s| s.prefix))).collect(),
        Ok(V15(v)) => v.pallets.into_iter().map(|p| (p.name, p.storage.map(|s| s.prefix))).collect(),
        _ => Vec::new(),
    }
}

/// Relies on `Decode for RuntimeMetadataPrefixed`: the entries of each
/// pallet, each hasher given by its declaration index (its codec index).
#[verifier::external_body]
fn blob_entry_lists(bytes: &[u8]) -> (r: Vec<Vec<(String, Option<Vec<u8>>)>>)
    ensures
        raw_entry_lists_view(r@) == blob_entries(bytes@),
{
    let storages: Vec<_> = match RuntimeMetadataPrefixed::decode(&mut &bytes[..]).map(|m| m.1) {
        Ok(V14(v)) => v.pallets.into_iter().map(|p| p.storage).collect(),
        Ok(V15(v)) => v.pallets.into_iter().map(|p| p.storage).collect(),
        _ => vec![],
    };
    storages.into_iter().map(|s| s.into_iter().flat_map(|s| s.entries).map(|e| (e.name, match e.ty {
        StorageEntryType::Plain(_) => None,
        StorageEntryType::Map { hashers, .. } => Some(hashers.into_iter().map(|h| h as u8).collect()),
    })).collect()).collect()
}

/// Relies on `Decode for RuntimeMetadataPrefixed`: the id and path segments
/// of each registry type.
#[verifier::external_body]
fn blob_type_list(bytes: &[u8]) -> (r: Vec<(u32, Vec<String>)>)
    ensures
        raw_types_view(r@) == blob_types(bytes@),
{
    let types = match RuntimeMetadataPrefixed::decode(&mut &bytes[..]).map(|m| m.1) {
        Ok(V14(v)) => v.types.types,
        Ok(V15(v)) => v.types.types,
        _ => Vec::new(),
    };
    types.into_iter().map(|t| (t.id, t.ty.path.segments)).collect()
}

/// The code of a hasher: its index in the metadata's declaration.
pub open spec fn hasher_code(h: Hasher) -> u8 {
    match h {
        Hasher::Blake2_128 => 0,
        Hasher::Blake2_256 => 1,
        Hasher::Blake2_128Concat => 2,
        Hasher::Twox128 => 3,
        Hasher::Twox256 => 4,
        Hasher::Twox64Concat => 5,
        Hasher::Identity => 6,
    }
}

/// Whether every code names a hasher.
pub open spec fn codes_valid(cs: Seq<u8>) -> bool {
    forall|k: int| 0 <= k < cs.len() ==> #[trigger] cs[k] < 7
}

/// Whether the hashers of an entry are known.
pub open spec fn entry_valid(e: (Seq<char>, Option<Seq<u8>>)) -> bool {
    match e.1 {
        Some(cs) => codes_valid(cs),
        None => true,
    }
}

/// Whether the hashers of every entry are known.
pub open spec fn entries_valid(es: Seq<(Seq<char>, Option<Seq<u8>>)>) -> bool {
    forall|j: int| 0 <= j < es.len() ==> entry_valid(#[trigger] es[j])
}

/// Whether what the codec reads from a blob makes a model: one entry list per
/// pallet, none for a pallet without storage, and only known hashers.
pub open spec fn blob_consistent(b: Seq<u8>) -> bool {
    &&& blob_entries(b).len() == blob_pallets(b).len()
    &&& forall|i: int| 0 <= i < blob_pallets(b).len() ==> {
        &&& (#[trigger] blob_pallets(b)[i]).1 is None ==> blob_entries(b)[i].len() == 0
        &&& entries_valid(blob_entries(b)[i])
    }
}

/// An entry as plain values: its name, and its hasher codes if it is a map.
pub open spec fn entry_view(e: EntryMeta) -> (Seq<char>, Option<Seq<u8>>) {
    (e.name@, match e.ty {
        EntryType::Plain => None,
        EntryType::NMap { hashers } => Some(hashers@.map_values(|h: Hasher| hasher_code(h))),
    })
}

/// A pallet's name and storage prefix.
pub open spec fn pallet_head(p: PalletMeta) -> (Seq<char>, Option<Seq<char>>) {
    (p.name@, match p.storage {
        Some(s) => Some(s.prefix@),
        None => None,
    })
}

/// A pallet's entries as plain values; none without storage.
pub open spec fn pallet_entries(p: PalletMeta) -> Seq<(Seq<char>, Option<Seq<u8>>)> {
    match p.storage {
        Some(s) => s.entries@.map_values(|e: EntryMeta| entry_view(e)),
        None => seq![],
    }
}

/// A registry type as plain values.
pub open spec fn type_view(t: TypeEntry) -> (u32, Seq<Seq<char>>) {
    (t.id, string_views(t.path@))
}

/// Whether `m` is the model of what the codec reads from `b`.
pub open spec fn models_blob(m: Metadata, b: Seq<u8>) -> bool {
    &&& m.pallets@.map_values(|p: PalletMeta| pallet_head(p)) == blob_pallets(b)
    &&& m.pallets@.map_values(|p: PalletMeta| pallet_entries(p)) == blob_entries(b)
    &&& m.types@.map_values(|t: TypeEntry| type_view(t)) == blob_types(b)
}

/// The schema versions this library reads.
pub open spec fn supported_version(v: u8) -> bool {
    v == 14 || v == 15
}

/// Whether a blob announces a supported version: the discriminant follows
/// the four bytes of the magic number.
pub open spec fn header_supported(b: Seq<u8>) -> bool {
    b.len() >= 5 && supported_version(b[4])
}

fn hasher_of_code(c: u8) -> (r: Option<Hasher>)
    ensures
        r matches Some(h) ==> hasher_code(h) == c,
        r is None <==> c >= 7,
{
    match c {
        0 => Some(Hasher::Blake2_128),
        1 => Some(Hasher::Blake2_256),
        2 => Some(Hasher::Blake2_128Concat),
        3 => Some(Hasher::Twox128),
        4 => Some(Hasher::Twox256),
        5 => Some(Hasher::Twox64Concat),
        6 => Some(Hasher::Identity),
        _ => None,
    }
}

fn convert_codes(cs: &Vec<u8>) -> (r: Option<Vec<Hasher>>)
    ensures
        r matches Some(hs) ==> hs@.map_values(|h: Hasher| hasher_code(h)) == cs@,
        r is None <==> !codes_valid(cs@),
{
    let mut out: Vec<Hasher> = Vec::new();
    let mut i: usize = 0;
    while i < cs.len()
        invariant
            i <= cs@.len(),
            out@.map_values(|h: Hasher| hasher_code(h)) == cs@.subrange(0, i as int),
            forall|k: int| 0 <= k < i ==> #[trigger] cs@[k] < 7,
        decreases cs@.len() - i,
    {
        let h = match hasher_of_code(cs[i]) {
            None => {
                return None;
            },
            Some(h) => h,
        };
        let ghost prev = out@;
        out.push(h);
        proof {
            assert(out@.map_values(|h: Hasher| hasher_code(h)) =~= prev.map_values(|h: Hasher| hasher_code(h)).push(hasher_code(h)));
            assert(cs@.subrange(0, i + 1) =~= cs@.subrange(0, i as int).push(cs@[i as int]));
        }
        i = i + 1;
    }
    assert(cs@.subrange(0, cs@.len() as int) =~= cs@);
    Some(out)
}

fn convert_entries(raw: &Vec<(String, Option<Vec<u8>>)>) -> (r: Option<Vec<EntryMeta>>)
    ensures
        r matches Some(es) ==> es@.map_values(|e: EntryMeta| entry_view(e)) == raw_entries_view(raw@),
        r is None <==> !entries_valid(raw_entries_view(raw@)),
{
    let ghost want = raw_entries_view(raw@);
    let mut out: Vec<EntryMeta> = Vec::new();
    let mut j: usize = 0;
    while j < raw.len()
        invariant
            j <= raw@.len(),
            want == raw_entries_view(raw@),
            out@.map_values(|e: EntryMeta| entry_view(e)) == want.subrange(0, j as int),
            forall|k: int| 0 <= k < j ==> entry_valid(#[trigger] want[k]),
        decreases raw@.len() - j,
    {
        let name = raw[j].0.clone();
        let ty = match &raw[j].1 {
            None => EntryType::Plain,
            Some(cs) => match convert_codes(cs) {
                None => {
                    assert(!entry_valid(want[j as int]));
                    return None;
                },
                Some(hs) => EntryType::NMap { hashers: hs },
            },
        };
        let e = EntryMeta { name, ty };
        assert(entry_view(e) == want[j as int]);
        let ghost prev = out@;
        out.push(e);
        proof {
            assert(out@.map_values(|e: EntryMeta| entry_view(e)) =~= prev.map_values(|e: EntryMeta| entry_view(e)).push(entry_view(e)));
            assert(want.subrange(0, j + 1) =~= want.subrange(0, j as int).push(want[j as int]));
        }
        j = j + 1;
    }
    assert(want.subrange(0, raw@.len() as int) =~= want);
    Some(out)
}

fn convert_types(raw: &Vec<(u32, Vec<String>)>) -> (r: Vec<TypeEntry>)
    ensures
        r@.map_values(|t: TypeEntry| type_view(t)) == raw_types_view(raw@),
{
    let ghost want = raw_types_view(raw@);
    let mut out: Vec<TypeEntry> = Vec::new();
    let mut k: usize = 0;
    while k < raw.len()
        invariant
            k <= raw@.len(),
            want == raw_types_view(raw@),
            out@.map_values(|t: TypeEntry| type_view(t)) == want.subrange(0, k as int),
        decreases raw@.len() - k,
    {
        let id = raw[k].0;
        let path = clone_strings(&raw[k].1);
        let t = TypeEntry { id, path };
        assert(type_view(t) =~= want[k as int]);
        let ghost prev = out@;
        out.push(t);
        proof {
            assert(out@.map_values(|t: TypeEntry| type_view(t)) =~= prev.map_values(|t: TypeEntry| type_view(t)).push(type_view(t)));
            assert(want.subrange(0, k + 1) =~= want.subrange(0, k as int).push(want[k as int]));
        }
        k = k + 1;
    }
    assert(want.subrange(0, raw@.len() as int) =~= want);
    out
}

fn clone_strings(v: &Vec<String>) -> (r: Vec<String>)
    ensures
        string_views(r@) == string_views(v@),
{
    let mut out: Vec<String> = Vec::new();
    let mut i: usize = 0;
    while i < v.len()
        invariant
            i <= v@.len(),
            string_views(out@) == string_views(v@).subrange(0, i as int),
        decreases v@.len() - i,
    {
        let c = v[i].clone();
        let ghost prev = out@;
        out.push(c);
        proof {
            assert(string_views(out@) =~= string_views(prev).push(c@));
            assert(string_views(v@).subrange(0, i + 1) =~= string_views(v@).subrange(0, i as int).push(v@[i as int]@));
        }
        i = i + 1;
    }
    assert(string_views(v@).subrange(0, v@.len() as int) =~= string_views(v@));
    out
}

/// Builds the model from what the codec read; `None` where it does not make one.
fn assemble(
    heads: &Vec<(String, Option<String>)>,
    lists: &Vec<Vec<(String, Option<Vec<u8>>)>>,
    raw_types: &Vec<(u32, Vec<String>)>,
) -> (r: Option<Metadata>)
    ensures
        r is Some <==> {
            &&& raw_entry_lists_view(lists@).len() == raw_pallets_view(heads@).len()
            &&& forall|i: int| 0 <= i < raw_pallets_view(heads@).len() ==> {
                &&& (#[trigger] raw_pallets_view(heads@)[i]).1 is None ==> raw_entry_lists_view(lists@)[i].len() == 0
                &&& entries_valid(raw_entry_lists_view(lists@)[i])
            }
        },
        r matches Some(m) ==> {
            &&& m.pallets@.map_values(|p: PalletMeta| pallet_head(p)) == raw_pallets_view(heads@)
            &&& m.pallets@.map_values(|p: PalletMeta| pallet_entries(p)) == raw_entry_lists_view(lists@)
            &&& m.types@.map_values(|t: TypeEntry| type_view(t)) == raw_types_view(raw_types@)
        },
{
    let ghost hv = raw_pallets_view(heads@);
    let ghost lv = raw_entry_lists_view(lists@);
    if heads.len() != lists.len() {
        return None;
    }
    let mut pallets: Vec<PalletMeta> = Vec::new();
    let mut i: usize = 0;
    while i < heads.len()
        invariant
            i <= heads@.len(),
            heads@.len() == lists@.len(),
            hv == raw_pallets_view(heads@),
            lv == raw_entry_lists_view(lists@),
            pallets@.map_values(|p: PalletMeta| pallet_head(p)) == hv.subrange(0, i as int),
            pallets@.map_values(|p: PalletMeta| pallet_entries(p)) == lv.subrange(0, i as int),
            forall|k: int| 0 <= k < i ==> {
                &&& (#[trigger] hv[k]).1 is None ==> lv[k].len() == 0
                &&& entries_valid(lv[k])
            },
        decreases heads@.len() - i,
    {
        let name = heads[i].0.clone();
        let storage = match &heads[i].1 {
            None => {
                if lists[i].len() != 0 {
                    assert(!(hv[i as int].1 is None ==> lv[i as int].len() == 0));
                    return None;
                }
                assert(lv[i as int] =~= Seq::<(Seq<char>, Option<Seq<u8>>)>::empty());
                None
            },
            Some(prefix) => match convert_entries(&lists[i]) {
                None => {
                    assert(!entries_valid(lv[i as int]));
                    return None;
                },
                Some(entries) => Some(StorageMeta { prefix: prefix.clone(), entries }),
            },
        };
        let p = PalletMeta { name, storage };
        assert(pallet_head(p) =~= hv[i as int]);
        assert(pallet_entries(p) =~= lv[i as int]);
        let ghost prev = pallets@;
        pallets.push(p);
        proof {
            assert(entries_valid(lv[i as int]));
            assert(pallets@.map_values(|p: PalletMeta| pallet_head(p)) =~= prev.map_values(|p: PalletMeta| pallet_head(p)).push(pallet_head(p)));
            assert(pallets@.map_values(|p: PalletMeta| pallet_entries(p)) =~= prev.map_values(|p: PalletMeta| pallet_entries(p)).push(pallet_entries(p)));
            assert(hv.subrange(0, i + 1) =~= hv.subrange(0, i as int).push(hv[i as int]));
            assert(lv.subrange(0, i + 1) =~= lv.subrange(0, i as int).push(lv[i as int]));
        }
        i = i + 1;
    }
    assert(hv.subrange(0, heads@.len() as int) =~= hv);
    assert(lv.subrange(0, heads@.len() as int) =~= lv);
    let types = convert_types(raw_types);
    Some(Metadata { pallets, types })
}

/// Decodes a raw metadata blob. A blob too short to hold a version, or of a
/// version this library does not read, is `BadMetadata`; a payload that the
/// codec cannot read is `Decode`, with the codec's message; what the codec
/// reads that does not make a model is `BadMetadata`. Otherwise the result
/// is the model of what the codec read.
pub fn from_bytes(bytes: &[u8]) -> (r: Result<Metadata, Error>)
    ensures
        !header_supported(bytes@) ==> r == Err::<Metadata, Error>(Error::BadMetadata),
        header_supported(bytes@) && !codec_reads(bytes@) ==> (r matches Err(e) && e is Decode),
        header_supported(bytes@) && codec_reads(bytes@) ==> (r is Ok <==> blob_consistent(bytes@)),
        header_supported(bytes@) && codec_reads(bytes@) && !blob_consistent(bytes@)
            ==> r == Err::<Metadata, Error>(Error::BadMetadata),
        r matches Ok(m) ==> models_blob(m, bytes@),
{
    if bytes.len() < 5 || !(bytes[4] == 14 || bytes[4] == 15) {
        return Err(Error::BadMetadata);
    }
    match decode_prefixed(bytes) {
        Err(e) => Err(Error::Decode(codec_message(&e))),
        Ok(()) => {
            let heads = blob_pallet_list(bytes);
            let lists = blob_entry_lists(bytes);
            let types = blob_type_list(bytes);
            match assemble(&heads, &lists, &types) {
                None => Err(Error::BadMetadata),
                Some(m) => Ok(m),
            }
        },
    }
}

} // verus!
