//! The resource-pack loader: a tar archive is read into memory entry by
//! entry, and the first entry named `pack.meta` (compared without regard
//! to ASCII case) is parsed as key/value text to give the pack its name,
//! author and version. Every entry, directory markers included, is kept
//! in archive order; nothing is filtered here.

use crate::kv;
use crate::text;
use vstd::prelude::*;
use vstd::string::StringExecFns;

verus! {

/// One extracted archive entry: its stored path, exactly as the archive
/// records it, and its full content.
#[derive(Debug)]
pub struct RawFile {
    pub name: String,
    pub data: Vec<u8>,
}

/// Why a load yielded no pack.
#[derive(Debug, Clone, Copy, PartialEq, Eq, Structural)]
pub enum LoadError {
    /// The bytes could not be read as an archive: corrupt or truncated.
    UnreadableArchive,
    /// No entry is named `pack.meta`, compared without regard to ASCII
    /// case.
    NoMetaEntry,
    /// The metadata entry is not well-formed key/value text.
    MalformedMeta,
    /// The metadata lacks `name`, `author` or `version`.
    MissingKey,
}

/// A loaded resource pack: its metadata and every archive entry in
/// archive order.
pub struct ResourcePack {
    pub name: String,
    pub author: String,
    pub version: String,
    pub files: Vec<RawFile>,
}

/// The mathematical content of one entry: its path and its bytes.
pub open spec fn entry_view(f: RawFile) -> (Seq<char>, Seq<u8>) {
    (f.name@, f.data@)
}

/// The mathematical content of a run of entries.
pub open spec fn entries_view(files: Seq<RawFile>) -> Seq<(Seq<char>, Seq<u8>)> {
    files.map(|i: int, f: RawFile| entry_view(f))
}

/// `c` is `t` itself, or — where `t` is an ASCII lower-case letter — its
/// upper-case form.
pub open spec fn ci_char(c: char, t: char) -> bool {
    c == t || (97 <= t as u32 <= 122 && c as u32 + 32 == t as u32)
}

/// The name equals `pack.meta` up to ASCII case; no path normalization,
/// so `sub/pack.meta` does not match.
pub open spec fn is_meta_name(name: Seq<char>) -> bool {
    name.len() == "pack.meta"@.len() && (forall|i: int|
        0 <= i < name.len() ==> ci_char(name[i], "pack.meta"@[i]))
}

/// Whether a stored path names the metadata entry, as `is_meta_name`
/// reads it.
pub fn name_is_meta(name: &str) -> (r: bool)
    ensures
        r == is_meta_name(name@),
{
    proof {
        reveal_strlit("pack.meta");
    }
    let target = "pack.meta";
    let n = name.unicode_len();
    if n != 9 {
        return false;
    }
    let mut i: usize = 0;
    while i < 9
        invariant
            0 <= i <= 9,
            name@.len() == 9,
            target@ == "pack.meta"@,
            "pack.meta"@.len() == 9,
            forall|k: int| 0 <= k < i ==> ci_char(name@[k], "pack.meta"@[k]),
        decreases 9 - i,
    {
        proof {
            reveal_strlit("pack.meta");
        }
        let c = name.get_char(i);
        let t = target.get_char(i);
        let cu = c as u32;
        let tu = t as u32;
        if !(c == t || (97 <= tu && tu <= 122 && cu + 32 == tu)) {
            return false;
        }
        i = i + 1;
    }
    true
}

/// The bytes of the key `name`.
pub open spec fn key_name() -> Seq<u8> {
    seq![110u8, 97u8, 109u8, 101u8]
}

/// The bytes of the key `author`.
pub open spec fn key_author() -> Seq<u8> {
    seq![97u8, 117u8, 116u8, 104u8, 111u8, 114u8]
}

/// The bytes of the key `version`.
pub open spec fn key_version() -> Seq<u8> {
    seq![118u8, 101u8, 114u8, 115u8, 105u8, 111u8, 110u8]
}

/// The content of the first entry named `pack.meta`, if any.
pub open spec fn first_meta(entries: Seq<(Seq<char>, Seq<u8>)>) -> Option<Seq<u8>>
    decreases entries.len(),
{
    if entries.len() == 0 {
        None
    } else if is_meta_name(entries[0].0) {
        Some(entries[0].1)
    } else {
        first_meta(entries.drop_first())
    }
}

/// No entry among the first `i` is named `pack.meta`: the search passes
/// them over.
proof fn lemma_first_meta_skip(entries: Seq<(Seq<char>, Seq<u8>)>, i: int)
    requires
        0 <= i <= entries.len(),
        forall|k: int| 0 <= k < i ==> !is_meta_name(entries[k].0),
    ensures
        first_meta(entries) == first_meta(entries.skip(i)),
    decreases i,
{
    if i == 0 {
        assert(entries.skip(0) =~= entries);
    } else {
        lemma_first_meta_skip(entries, i - 1);
        assert(entries.skip(i - 1).drop_first() =~= entries.skip(i));
        assert(entries.skip(i - 1)[0] == entries[i - 1]);
    }
}

/// What loading yields from the entries of an archive: the raw bytes of
/// the `name`, `author` and `version` values of the first `pack.meta`
/// entry, whose text is read with carriage returns removed — or nothing,
/// when that entry is missing, malformed as key/value text, or lacks one
/// of the three keys.
pub open spec fn load_result(entries: Seq<(Seq<char>, Seq<u8>)>) -> Option<
    (Seq<u8>, Seq<u8>, Seq<u8>),
> {
    match first_meta(entries) {
        None => None,
        Some(data) => match kv::parse_kv(text::strip_cr(data)) {
            None => None,
            Some(pairs) => match kv::lookup(pairs, key_name()) {
                None => None,
                Some(n) => match kv::lookup(pairs, key_author()) {
                    None => None,
                    Some(a) => match kv::lookup(pairs, key_version()) {
                        None => None,
                        Some(v) => Some((n, a, v)),
                    },
                },
            },
        },
    }
}

/// Which failure `load_result` ran into, where it yields nothing: the
/// metadata entry is missing, malformed, or short of a key.
pub open spec fn entries_error(entries: Seq<(Seq<char>, Seq<u8>)>) -> LoadError {
    match first_meta(entries) {
        None => LoadError::NoMetaEntry,
        Some(data) => match kv::parse_kv(text::strip_cr(data)) {
            None => LoadError::MalformedMeta,
            Some(_) => LoadError::MissingKey,
        },
    }
}

/// What the tar reader yields from the raw bytes of an archive: each
/// entry's stored path and full content, in archive order, or nothing
/// when the bytes cannot be read as an archive. The result is a function
/// of the bytes alone.
pub uninterp spec fn tar_entries(bytes: Seq<u8>) -> Option<Seq<(Seq<char>, Seq<u8>)>>;

/// Relies on `tar::Archive` over an in-memory byte slice — `entries`,
/// `Entry::read_to_end` and `Entry::path` — to stream the archive:
/// reading is deterministic in the bytes, entries come in archive order
/// with their stored paths (lossily decoded to text) and full contents,
/// and a corrupt or truncated archive stops with an error. `tar_entries`
/// names that result.
#[verifier::external_body]
fn read_tar_entries(bytes: &[u8]) -> (r: Option<Vec<RawFile>>)
    ensures
        match r {
            Some(files) => tar_entries(bytes@) == Some(entries_view(files@)),
            None => tar_entries(bytes@) is None,
        },
{
    let mut archive = tar::Archive::new(bytes);
    let mut files = Vec::new();
    for entry in archive.entries().ok()? {
        let mut entry = entry.ok()?;
        let mut data = Vec::new();
        std::io::Read::read_to_end(&mut entry, &mut data).ok()?;
        let name = entry.path().ok()?.to_string_lossy().to_string();
        files.push(RawFile { name, data });
    }
    Some(files)
}

/// The metadata of a pack built from `entries`, seen through the lossy
/// decoding of the three value byte strings.
pub open spec fn pack_matches(pack: ResourcePack, entries: Seq<(Seq<char>, Seq<u8>)>) -> bool {
    &&& load_result(entries) matches Some(m)
    &&& pack.name@ == text::lossy_utf8(m.0)
    &&& pack.author@ == text::lossy_utf8(m.1)
    &&& pack.version@ == text::lossy_utf8(m.2)
    &&& (vstd::utf8::valid_utf8(m.0) ==> pack.name@ == vstd::utf8::decode_utf8(m.0))
    &&& (vstd::utf8::valid_utf8(m.1) ==> pack.author@ == vstd::utf8::decode_utf8(m.1))
    &&& (vstd::utf8::valid_utf8(m.2) ==> pack.version@ == vstd::utf8::decode_utf8(m.2))
}

impl ResourcePack {
    /// Build a pack from already-extracted entries, or say what went
    /// wrong: every entry is kept, in order; the metadata comes from the
    /// first entry named `pack.meta` up to ASCII case. An error names
    /// the first failure: no such entry, malformed key/value text, or a
    /// missing key among `name`, `author`, `version`.
    pub fn try_from_entries(files: Vec<RawFile>) -> (r: Result<ResourcePack, LoadError>)
        ensures
            match r {
                Ok(pack) => {
                    &&& pack_matches(pack, entries_view(files@))
                    &&& pack.files@ == files@
                },
                Err(e) => {
                    &&& load_result(entries_view(files@)) is None
                    &&& e == entries_error(entries_view(files@))
                },
            },
    {
        let ghost ev = entries_view(files@);
        let n: usize = files.len();
        let mut meta: Option<Vec<u8>> = None;
        let mut i: usize = 0;
        while i < n
            invariant
                0 <= i <= n == files@.len(),
                ev == entries_view(files@),
                ev.len() == n,
                forall|k: int| 0 <= k < ev.len() ==> ev[k] == entry_view(files@[k]),
                match meta {
                    None => forall|k: int| 0 <= k < i ==> !is_meta_name(ev[k].0),
                    Some(d) => first_meta(ev) == Some(d@),
                },
            decreases n - i,
        {
            if meta.is_none() {
                if name_is_meta(files[i].name.as_str()) {
                    meta = Some(vstd::slice::slice_to_vec(files[i].data.as_slice()));
                    proof {
                        lemma_first_meta_skip(ev, i as int);
                        assert(ev.skip(i as int)[0] == ev[i as int]);
                    }
                }
            }
            i = i + 1;
        }
        match meta {
            None => {
                proof {
                    lemma_first_meta_skip(ev, n as int);
                    assert(ev.skip(n as int) =~= Seq::<(Seq<char>, Seq<u8>)>::empty());
                }
                Err(LoadError::NoMetaEntry)
            },
            Some(data) => {
                let clean = text::remove_cr(data.as_slice());
                match kv::parse_kv_bytes(clean.as_slice()) {
                    None => Err(LoadError::MalformedMeta),
                    Some(pairs) => {
                        let name_key: [u8; 4] = [110u8, 97u8, 109u8, 101u8];
                        let author_key: [u8; 6] = [97u8, 117u8, 116u8, 104u8, 111u8, 114u8];
                        let version_key: [u8; 7] = [118u8, 101u8, 114u8, 115u8, 105u8, 111u8,
                            110u8];
                        proof {
                            assert(name_key@ =~= key_name());
                            assert(author_key@ =~= key_author());
                            assert(version_key@ =~= key_version());
                        }
                        let name_v = kv::lookup_value(&pairs, name_key.as_slice());
                        let author_v = kv::lookup_value(&pairs, author_key.as_slice());
                        let version_v = kv::lookup_value(&pairs, version_key.as_slice());
                        match (name_v, author_v, version_v) {
                            (Some(nv), Some(av), Some(vv)) => Ok(
                                ResourcePack {
                                    name: text::decode_lossy(nv.as_slice()),
                                    author: text::decode_lossy(av.as_slice()),
                                    version: text::decode_lossy(vv.as_slice()),
                                    files,
                                },
                            ),
                            _ => Err(LoadError::MissingKey),
                        }
                    },
                }
            },
        }
    }

    /// Build a pack from already-extracted entries, with every failure
    /// collapsed to no result.
    pub fn from_entries(files: Vec<RawFile>) -> (r: Option<ResourcePack>)
        ensures
            match r {
                Some(pack) => {
                    &&& pack_matches(pack, entries_view(files@))
                    &&& pack.files@ == files@
                },
                None => load_result(entries_view(files@)) is None,
            },
    {
        match ResourcePack::try_from_entries(files) {
            Ok(pack) => Some(pack),
            Err(_) => None,
        }
    }

    /// Load a pack from the raw bytes of an archive file, or say what
    /// went wrong: read the entries with the tar reader, then build the
    /// pack from them.
    pub fn try_load(bytes: &[u8]) -> (r: Result<ResourcePack, LoadError>)
        ensures
            match r {
                Ok(pack) => {
                    &&& tar_entries(bytes@) matches Some(entries)
                    &&& pack_matches(pack, entries)
                    &&& entries_view(pack.files@) == entries
                },
                Err(e) => match tar_entries(bytes@) {
                    None => e == LoadError::UnreadableArchive,
                    Some(entries) => load_result(entries) is None && e == entries_error(entries),
                },
            },
    {
        match read_tar_entries(bytes) {
            None => Err(LoadError::UnreadableArchive),
            Some(files) => ResourcePack::try_from_entries(files),
        }
    }

    /// Load a pack from the raw bytes of an archive file, with every
    /// failure collapsed to no result.
    pub fn load(bytes: &[u8]) -> (r: Option<ResourcePack>)
        ensures
            load_post(bytes@, r),
    {
        match ResourcePack::try_load(bytes) {
            Ok(pack) => Some(pack),
            Err(_) => None,
        }
    }

    /// The pack's metadata in one line, without the file contents, as
    /// the launcher prints it.
    pub fn describe(&self) -> (r: String)
        ensures
            r@ == "ResourcePack { name: "@ + self.name@ + ", author: "@ + self.author@
                + ", version: "@ + self.version@ + " }"@,
    {
        let mut out = String::new();
        out.append("ResourcePack { name: ");
        out.append(self.name.as_str());
        out.append(", author: ");
        out.append(self.author.as_str());
        out.append(", version: ");
        out.append(self.version.as_str());
        out.append(" }");
        out
    }
}

/// Everything loading from archive bytes promises of its result: a pack
/// comes back exactly when the bytes read as an archive whose entries
/// yield metadata, it holds those entries in order, and its metadata is
/// the decoded values.
pub open spec fn load_post(bytes: Seq<u8>, r: Option<ResourcePack>) -> bool {
    match r {
        Some(pack) => {
            &&& tar_entries(bytes) matches Some(entries)
            &&& pack_matches(pack, entries)
            &&& entries_view(pack.files@) == entries
        },
        None => match tar_entries(bytes) {
            None => true,
            Some(entries) => load_result(entries) is None,
        },
    }
}

/// Loading is repeatable: two loads of the same archive bytes agree —
/// both fail, or both yield packs with the same entries in the same
/// order, the same entry names and byte content, and the same metadata.
pub proof fn lemma_load_deterministic(bytes: Seq<u8>, r1: Option<ResourcePack>, r2: Option<
    ResourcePack,
>)
    requires
        load_post(bytes, r1),
        load_post(bytes, r2),
    ensures
        r1 is Some <==> r2 is Some,
        match (r1, r2) {
            (Some(p1), Some(p2)) => {
                &&& entries_view(p1.files@) == entries_view(p2.files@)
                &&& p1.name@ == p2.name@
                &&& p1.author@ == p2.author@
                &&& p1.version@ == p2.version@
            },
            _ => true,
        },
{
}

} // verus!
