//! Manifest records: what one package declares of its files, and the
//! filtering of those records down to the regular files to verify.
use std::io::Read;
use vstd::prelude::*;
use vstd::string::StringExecFns;

verus! {

/// Declared type of a manifest entry.
#[derive(Clone, Copy, Debug, PartialEq, Eq, Structural)]
pub enum EntryKind {
    File,
    Directory,
    Other,
}

/// One decoded manifest entry: its path as written in the manifest
/// (`./usr/bin/foo`), its declared type if any, and its MD5 digest if any.
pub struct ManifestRecord {
    pub path: String,
    pub kind: Option<EntryKind>,
    pub md5: Option<u128>,
}

/// A regular file a manifest declares: its absolute path and the digest its
/// content must have.
pub struct FileCheck {
    pub path: String,
    pub expected: u128,
}

/// Why a manifest's records cannot be used.
#[derive(Clone, Copy, Debug, PartialEq, Eq, Structural)]
pub enum ManifestError {
    /// An entry declares no type.
    UntypedEntry,
    /// A file entry's path does not start with `./`.
    UnrootedPath,
    /// A file entry carries no MD5 digest.
    MissingDigest,
    /// The manifest stream is not valid gzip data.
    Decompress,
}

/// Name of the file that holds one package's manifest.
pub const MANIFEST_FILE_NAME: &'static str = "mtree";

/// What gzip decompression makes of a byte stream, `None` where the stream
/// is not valid gzip data.
pub uninterp spec fn gunzip_of(data: Seq<u8>) -> Option<Seq<u8>>;

/// Relies on flate2::read::GzDecoder read to its end: the decompressed
/// bytes, or an error on invalid data.
#[verifier::external_body]
fn gunzip(data: &[u8]) -> (r: Option<Vec<u8>>)
    ensures
        r is Some <==> gunzip_of(data@) is Some,
        r is Some ==> r->0@ == gunzip_of(data@)->0,
{
    let mut out: Vec<u8> = Vec::new();
    match flate2::read::GzDecoder::new(data).read_to_end(&mut out) {
        Ok(_) => Some(out),
        Err(_) => None,
    }
}

/// Decompresses one manifest stream.
pub fn decompress_manifest(compressed: &[u8]) -> (r: Result<Vec<u8>, ManifestError>)
    ensures
        r is Ok <==> gunzip_of(compressed@) is Some,
        r is Ok ==> r->Ok_0@ == gunzip_of(compressed@)->0,
        r is Err ==> r->Err_0 == ManifestError::Decompress,
{
    match gunzip(compressed) {
        Some(text) => Ok(text),
        None => Err(ManifestError::Decompress),
    }
}

/// Whether a directory entry found under the package database is a
/// manifest: a regular file named `MANIFEST_FILE_NAME`.
pub fn is_manifest_location(is_file: bool, file_name: &str) -> (r: bool)
    ensures
        r == (is_file && file_name@ == MANIFEST_FILE_NAME@),
{
    if !is_file {
        return false;
    }
    match str_strip_prefix(file_name, MANIFEST_FILE_NAME) {
        Some(rest) => {
            assert(rest@.len() == 0 ==> file_name@ =~= MANIFEST_FILE_NAME@);
            rest.is_empty()
        },
        None => false,
    }
}

/// A manifest path is rooted when it starts with `./`.
pub open spec fn rooted(rel: Seq<char>) -> bool {
    rel.len() >= 2 && rel[0] == '.' && rel[1] == '/'
}

/// What remains of a relative path once the `.` and empty components at its
/// start are removed: `././/usr/bin` leaves `usr/bin`, `./.` leaves nothing.
pub open spec fn skip_dot_components(s: Seq<char>) -> Seq<char>
    decreases s.len(),
{
    if s.len() >= 1 && s[0] == '/' {
        skip_dot_components(s.skip(1))
    } else if s.len() >= 2 && s[0] == '.' && s[1] == '/' {
        skip_dot_components(s.skip(2))
    } else if s == seq!['.'] {
        seq![]
    } else {
        s
    }
}

/// The absolute path of a rooted manifest path, compared by components:
/// `/` followed by what remains once the leading `./` and the `.` and empty
/// components after it are removed. `./usr/bin/foo`, `././usr/bin/foo` and
/// `.//usr/bin/foo` all name `/usr/bin/foo`.
pub open spec fn resolved(rel: Seq<char>) -> Seq<char> {
    seq!['/'] + skip_dot_components(rel.skip(2))
}

/// The error a single record raises, if any. Entries of a type other than
/// file need nothing beyond a type.
pub open spec fn record_error(r: ManifestRecord) -> Option<ManifestError> {
    match r.kind {
        None => Some(ManifestError::UntypedEntry),
        Some(EntryKind::File) => if !rooted(r.path@) {
            Some(ManifestError::UnrootedPath)
        } else if r.md5 is None {
            Some(ManifestError::MissingDigest)
        } else {
            None
        },
        Some(_) => None,
    }
}

pub open spec fn check_view(c: FileCheck) -> (Seq<char>, u128) {
    (c.path@, c.expected)
}

pub open spec fn checks_view(v: Seq<FileCheck>) -> Seq<(Seq<char>, u128)> {
    v.map_values(|c: FileCheck| check_view(c))
}

/// The checks a sequence of records yields, in order: one per file entry,
/// every other entry dropped.
pub open spec fn checks_of(recs: Seq<ManifestRecord>) -> Seq<(Seq<char>, u128)>
    decreases recs.len(),
{
    if recs.len() == 0 {
        seq![]
    } else {
        let prev = checks_of(recs.drop_last());
        let last = recs.last();
        if last.kind == Some(EntryKind::File) {
            prev.push((resolved(last.path@), last.md5->0))
        } else {
            prev
        }
    }
}

/// Relies on str::strip_prefix: `Some` of what follows `prefix` exactly when
/// `s` starts with it.
#[verifier::external_body]
pub(crate) fn str_strip_prefix<'a>(s: &'a str, prefix: &str) -> (r: Option<&'a str>)
    ensures
        r is Some <==> prefix@.is_prefix_of(s@),
        r is Some ==> r->0@ == s@.skip(prefix@.len() as int),
{
    s.strip_prefix(prefix)
}

/// What `str_strip_prefix` answering `Some` for a one- or two-character
/// prefix says of the first characters.
proof fn lemma_prefix_chars(s: Seq<char>, p: Seq<char>)
    requires
        1 <= p.len() <= 2,
    ensures
        p.is_prefix_of(s) <==> (s.len() >= p.len() && s[0] == p[0] && (p.len() == 2 ==> s[1]
            == p[1])),
{
    if s.len() >= p.len() && s[0] == p[0] && (p.len() == 2 ==> s[1] == p[1]) {
        assert(s.subrange(0, p.len() as int) =~= p);
    }
    if p.is_prefix_of(s) {
        assert(s[0] == s.subrange(0, p.len() as int)[0]);
        if p.len() == 2 {
            assert(s[1] == s.subrange(0, p.len() as int)[1]);
        }
    }
}

/// The absolute path a manifest path names, or `UnrootedPath`.
pub fn resolve_path(rel: &str) -> (r: Result<String, ManifestError>)
    ensures
        rooted(rel@) <==> r is Ok,
        r is Ok ==> r->Ok_0@ == resolved(rel@),
        r is Err ==> r->Err_0 == ManifestError::UnrootedPath,
{
    proof {
        reveal_strlit("./");
        reveal_strlit("/");
        reveal_strlit(".");
        lemma_prefix_chars(rel@, "./"@);
    }
    let after = match str_strip_prefix(rel, "./") {
        None => {
            return Err(ManifestError::UnrootedPath);
        },
        Some(after) => after,
    };
    let ghost target = skip_dot_components(rel@.skip(2));
    let mut rest: &str = after;
    loop
        invariant
            skip_dot_components(rest@) == target,
        ensures
            skip_dot_components(rest@) == target,
            !(rest@.len() >= 1 && rest@[0] == '/'),
            !(rest@.len() >= 2 && rest@[0] == '.' && rest@[1] == '/'),
        decreases rest@.len(),
    {
        proof {
            reveal_strlit("./");
            reveal_strlit("/");
            lemma_prefix_chars(rest@, "/"@);
            lemma_prefix_chars(rest@, "./"@);
        }
        match str_strip_prefix(rest, "/") {
            Some(r) => {
                rest = r;
            },
            None => match str_strip_prefix(rest, "./") {
                Some(r) => {
                    rest = r;
                },
                None => {
                    break ;
                },
            },
        }
    }
    proof {
        reveal_strlit(".");
        lemma_prefix_chars(rest@, "."@);
    }
    let mut tail: &str = rest;
    match str_strip_prefix(rest, ".") {
        Some(r) => {
            if r.is_empty() {
                assert(rest@ =~= seq!['.']);
                tail = r;
            } else {
                assert(rest@ != seq!['.']);
            }
        },
        None => {},
    }
    assert(tail@ =~= target);
    let mut out = "/".to_owned();
    out.append(tail);
    assert(out@ =~= resolved(rel@));
    Ok(out)
}

/// Filters a manifest's records down to the regular files to verify, with
/// their absolute paths and expected digests. Fails on the first record
/// that raises an error.
pub fn file_checks(records: &Vec<ManifestRecord>) -> (r: Result<Vec<FileCheck>, ManifestError>)
    ensures
        match r {
            Ok(v) => {
                &&& forall|i: int| 0 <= i < records@.len() ==> record_error(#[trigger] records@[i]) is None
                &&& checks_view(v@) == checks_of(records@)
            },
            Err(e) => exists|j: int|
                0 <= j < records@.len() && record_error(#[trigger] records@[j]) == Some(e)
                    && forall|k: int| 0 <= k < j ==> record_error(#[trigger] records@[k]) is None,
        },
{
    let mut out: Vec<FileCheck> = Vec::new();
    let mut i: usize = 0;
    while i < records.len()
        invariant
            i <= records@.len(),
            forall|k: int| 0 <= k < i ==> record_error(#[trigger] records@[k]) is None,
            checks_view(out@) == checks_of(records@.subrange(0, i as int)),
        decreases records@.len() - i,
    {
        let rec = &records[i];
        assert(records@.subrange(0, i + 1).drop_last() =~= records@.subrange(0, i as int));
        match rec.kind {
            None => {
                return Err(ManifestError::UntypedEntry);
            },
            Some(EntryKind::File) => {
                let abs = match resolve_path(rec.path.as_str()) {
                    Ok(p) => p,
                    Err(e) => {
                        return Err(e);
                    },
                };
                let expected = match rec.md5 {
                    Some(d) => d,
                    None => {
                        return Err(ManifestError::MissingDigest);
                    },
                };
                let ghost prev = out@;
                out.push(FileCheck { path: abs, expected });
                assert(checks_view(out@) =~= checks_view(prev).push(check_view(out@.last())));
            },
            Some(_) => {},
        }
        i = i + 1;
    }
    assert(records@.subrange(0, records@.len() as int) =~= records@);
    Ok(out)
}

} // verus!
