use std::io::Write;

use orphan_scan::aggregate::{aggregate, VerifiedPaths};
use orphan_scan::digest::{Digester, CHUNK_LEN};
use orphan_scan::manifest::{
    decompress_manifest, file_checks, is_manifest_location, resolve_path, EntryKind,
    FileCheck, ManifestError, ManifestRecord,
};
use orphan_scan::reconcile::{is_orphan, is_under, orphans};
use orphan_scan::verification::{digest_matches, verified_paths};

const STORAGE: &str = "/var/lib/pacman/local";

fn md5(data: &[u8]) -> u128 {
    let mut d = Digester::new();
    for chunk in data.chunks(CHUNK_LEN) {
        d.absorb(chunk);
    }
    d.finish()
}

fn record(path: &str, kind: Option<EntryKind>, md5: Option<u128>) -> ManifestRecord {
    ManifestRecord { path: path.to_string(), kind, md5 }
}

fn strings(v: &[&str]) -> Vec<String> {
    v.iter().map(|s| s.to_string()).collect()
}

/// Runs the pipeline on one manifest: `live` gives each path's live
/// content, `None` where the file cannot be opened.
fn run(records: &Vec<ManifestRecord>, live: &dyn Fn(&str) -> Option<Vec<u8>>, walked: &[&str]) -> Vec<String> {
    let checks = file_checks(records).unwrap();
    let observed: Vec<Option<u128>> = checks.iter().map(|c| live(&c.path).map(|b| md5(&b))).collect();
    let verified = aggregate(&vec![verified_paths(&checks, &observed)]);
    orphans(&verified, &strings(walked), STORAGE)
}

#[test]
fn digest_of_empty_input() {
    let d = Digester::new();
    assert_eq!(d.finish(), 0xd41d8cd98f00b204e9800998ecf8427e);
}

#[test]
fn digest_of_abc() {
    let mut d = Digester::new();
    assert!(d.absorb(b"abc"));
    assert!(!d.absorb(b""));
    assert_eq!(d.finish(), 0x900150983cd24fb0d6963f7d28e17f72);
}

#[test]
fn digest_of_quick_brown_fox() {
    assert_eq!(md5(b"The quick brown fox jumps over the lazy dog"), 0x9e107d9d372bb6826bd81d3542a419d6);
}

#[test]
fn only_empty_chunk_ends_stream() {
    let mut d = Digester::new();
    assert!(d.absorb(&[7u8; CHUNK_LEN]));
    assert!(d.absorb(&[7u8; 10]));
    assert!(!d.absorb(&[]));
    let mut one = Digester::new();
    assert!(one.absorb(&[7u8; CHUNK_LEN + 10]));
    assert!(!one.absorb(&[]));
    assert_eq!(d.finish(), one.finish());
}

#[test]
fn short_reads_cover_whole_content() {
    let content = b"The quick brown fox jumps over the lazy dog";
    let mut d = Digester::new();
    for piece in [&content[..3], &content[3..4], &content[4..20], &content[20..]] {
        assert!(d.absorb(piece));
    }
    assert!(!d.absorb(&[]));
    assert_eq!(d.finish(), 0x9e107d9d372bb6826bd81d3542a419d6);
}

#[test]
fn resolve_rooted_path() {
    assert_eq!(resolve_path("./usr/bin/foo").unwrap(), "/usr/bin/foo");
    assert_eq!(resolve_path("./").unwrap(), "/");
}

#[test]
fn resolve_skips_leading_dot_components() {
    assert_eq!(resolve_path("././usr/bin/foo").unwrap(), "/usr/bin/foo");
    assert_eq!(resolve_path(".//usr/bin/foo").unwrap(), "/usr/bin/foo");
    assert_eq!(resolve_path("././/./usr/bin/foo").unwrap(), "/usr/bin/foo");
    assert_eq!(resolve_path("./.").unwrap(), "/");
    assert_eq!(resolve_path("./.hidden").unwrap(), "/.hidden");
    assert_eq!(resolve_path("./..").unwrap(), "/..");
}

#[test]
fn resolve_unrooted_path() {
    assert_eq!(resolve_path("usr/bin/foo"), Err(ManifestError::UnrootedPath));
    assert_eq!(resolve_path("/usr/bin/foo"), Err(ManifestError::UnrootedPath));
    assert_eq!(resolve_path("."), Err(ManifestError::UnrootedPath));
}

#[test]
fn file_checks_keep_only_files() {
    let recs = vec![
        record("./etc/conf.d", Some(EntryKind::Directory), None),
        record("./usr/bin/foo", Some(EntryKind::File), Some(5)),
        record("./usr/lib/link", Some(EntryKind::Other), None),
        record("./usr/bin/baz", Some(EntryKind::File), Some(9)),
    ];
    let checks = file_checks(&recs).unwrap();
    assert_eq!(checks.len(), 2);
    assert_eq!(checks[0].path, "/usr/bin/foo");
    assert_eq!(checks[0].expected, 5);
    assert_eq!(checks[1].path, "/usr/bin/baz");
    assert_eq!(checks[1].expected, 9);
}

#[test]
fn file_checks_errors() {
    let untyped = vec![record("./a", None, Some(1))];
    assert_eq!(file_checks(&untyped).err(), Some(ManifestError::UntypedEntry));
    let unrooted = vec![record("a", Some(EntryKind::File), Some(1))];
    assert_eq!(file_checks(&unrooted).err(), Some(ManifestError::UnrootedPath));
    let no_digest = vec![record("./a", Some(EntryKind::File), None)];
    assert_eq!(file_checks(&no_digest).err(), Some(ManifestError::MissingDigest));
    let first_wins = vec![
        record("./d", Some(EntryKind::Directory), None),
        record("./a", Some(EntryKind::File), None),
        record("./b", None, None),
    ];
    assert_eq!(file_checks(&first_wins).err(), Some(ManifestError::MissingDigest));
}

#[test]
fn decompress_round_trip() {
    let text = b"#mtree\n./usr/bin/foo type=file md5digest=00\n";
    let mut enc = flate2::write::GzEncoder::new(Vec::new(), flate2::Compression::default());
    enc.write_all(text).unwrap();
    let gz = enc.finish().unwrap();
    assert_eq!(decompress_manifest(&gz).unwrap(), text.to_vec());
}

#[test]
fn decompress_rejects_garbage() {
    assert_eq!(decompress_manifest(b"not gzip at all").err(), Some(ManifestError::Decompress));
}

#[test]
fn manifest_location_names() {
    assert!(is_manifest_location(true, "mtree"));
    assert!(!is_manifest_location(false, "mtree"));
    assert!(!is_manifest_location(true, "mtree.gz"));
    assert!(!is_manifest_location(true, "desc"));
}

#[test]
fn verified_paths_by_digest() {
    let checks = vec![
        FileCheck { path: "/a".to_string(), expected: 1 },
        FileCheck { path: "/b".to_string(), expected: 2 },
        FileCheck { path: "/c".to_string(), expected: 3 },
    ];
    assert!(digest_matches(&checks[0], Some(1)));
    assert!(!digest_matches(&checks[0], Some(2)));
    assert!(!digest_matches(&checks[0], None));
    let observed = vec![Some(1), Some(7), None];
    assert_eq!(verified_paths(&checks, &observed), strings(&["/a"]));
}

#[test]
fn aggregate_is_deduplicated_union() {
    let lists = vec![strings(&["/a", "/b"]), strings(&["/b", "/c"]), vec![], strings(&["/a"])];
    let set = aggregate(&lists);
    assert_eq!(set.len(), 3);
    assert!(set.contains("/a") && set.contains("/b") && set.contains("/c"));
    assert!(!set.contains("/d"));
    let reversed: Vec<Vec<String>> = lists.iter().rev().cloned().collect();
    let other = aggregate(&reversed);
    assert_eq!(other.len(), 3);
    assert!(other.contains("/a") && other.contains("/b") && other.contains("/c"));
}

#[test]
fn add_all_extends_set() {
    let mut set = VerifiedPaths::new();
    assert_eq!(set.len(), 0);
    set.add_all(&strings(&["/x", "/x", "/y"]));
    assert_eq!(set.len(), 2);
    assert!(set.contains("/x") && set.contains("/y"));
}

#[test]
fn under_compares_components() {
    assert!(is_under("/var/lib/pacman/local", STORAGE));
    assert!(is_under("/var/lib/pacman/local/foo-1.0/mtree", STORAGE));
    assert!(!is_under("/var/lib/pacman/localx", STORAGE));
    assert!(!is_under("/var/lib/pacman", STORAGE));
    assert!(!is_under("/usr/bin/foo", STORAGE));
}

#[test]
fn storage_files_never_reported() {
    let set = VerifiedPaths::new();
    assert!(!is_orphan(&set, "/var/lib/pacman/local/foo-1.0/mtree", STORAGE));
    assert!(!is_orphan(&set, "/var/lib/pacman/local/foo-1.0/desc", STORAGE));
    assert!(is_orphan(&set, "/var/lib/pacman/sync/core.db", STORAGE));
}

#[test]
fn matching_file_not_reported() {
    let content = b"foo binary".to_vec();
    let d = md5(&content);
    let recs = vec![record("./usr/bin/foo", Some(EntryKind::File), Some(d))];
    let live = |p: &str| if p == "/usr/bin/foo" { Some(content.clone()) } else { None };
    assert!(run(&recs, &live, &["/usr/bin/foo"]).is_empty());
}

#[test]
fn drifted_file_reported() {
    let d = md5(b"foo binary");
    let recs = vec![record("./usr/bin/foo", Some(EntryKind::File), Some(d))];
    let live = |p: &str| if p == "/usr/bin/foo" { Some(b"foo binary, patched".to_vec()) } else { None };
    assert_eq!(run(&recs, &live, &["/usr/bin/foo"]), strings(&["/usr/bin/foo"]));
}

#[test]
fn unlisted_file_reported() {
    let d = md5(b"foo binary");
    let recs = vec![record("./usr/bin/foo", Some(EntryKind::File), Some(d))];
    let live = |p: &str| if p == "/usr/bin/foo" { Some(b"foo binary".to_vec()) } else { None };
    assert_eq!(run(&recs, &live, &["/usr/bin/foo", "/usr/bin/bar"]), strings(&["/usr/bin/bar"]));
}

#[test]
fn directory_entry_contributes_nothing() {
    let recs = vec![record("./etc/conf.d", Some(EntryKind::Directory), None)];
    let checks = file_checks(&recs).unwrap();
    assert!(checks.is_empty());
    let verified = aggregate(&vec![verified_paths(&checks, &vec![])]);
    assert_eq!(verified.len(), 0);
    let live = |_: &str| None;
    assert_eq!(run(&recs, &live, &["/etc/conf.d/net"]), strings(&["/etc/conf.d/net"]));
    assert!(run(&recs, &live, &[]).is_empty());
}

#[test]
fn missing_package_file_skipped() {
    let recs = vec![record("./usr/share/gone", Some(EntryKind::File), Some(1))];
    let live = |_: &str| None;
    let checks = file_checks(&recs).unwrap();
    assert_eq!(verified_paths(&checks, &vec![None]).len(), 0);
    assert!(run(&recs, &live, &[]).is_empty());
}

#[test]
fn report_is_idempotent() {
    let d = md5(b"foo");
    let recs = vec![
        record("./usr/bin/foo", Some(EntryKind::File), Some(d)),
        record("./usr/bin/baz", Some(EntryKind::File), Some(d)),
    ];
    let live = |p: &str| if p == "/usr/bin/foo" { Some(b"foo".to_vec()) } else if p == "/usr/bin/baz" { Some(b"changed".to_vec()) } else { None };
    let walked = ["/usr/bin/foo", "/usr/bin/baz", "/usr/bin/bar", "/var/lib/pacman/local/x/mtree"];
    let first = run(&recs, &live, &walked);
    let second = run(&recs, &live, &walked);
    assert_eq!(first, second);
    assert_eq!(first, strings(&["/usr/bin/baz", "/usr/bin/bar"]));
}

#[test]
fn shared_path_verified_by_any_manifest() {
    let a = vec![FileCheck { path: "/usr/share/x".to_string(), expected: 4 }];
    let b = vec![FileCheck { path: "/usr/share/x".to_string(), expected: 5 }];
    let lists = vec![verified_paths(&a, &vec![Some(5)]), verified_paths(&b, &vec![Some(5)])];
    let set = aggregate(&lists);
    assert_eq!(set.len(), 1);
    assert!(orphans(&set, &strings(&["/usr/share/x"]), STORAGE).is_empty());
}
