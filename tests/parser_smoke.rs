use bun_xray_core::model::{ResolutionKind, BEHAVIOR_DEV, BEHAVIOR_PEER, BEHAVIOR_PROD};
use bun_xray_core::{decode, decode_with_warnings, ParseError, Warning};

const MAGIC: &[u8; 42] = b"#!/usr/bin/env bun\nbun-lockfile-format-v0\n";

fn encode_inline(s: &str) -> [u8; 8] {
    let mut bytes = [0u8; 8];
    let slice = s.as_bytes();
    let n = slice.len().min(8);
    bytes[..n].copy_from_slice(&slice[..n]);
    bytes
}

fn encode_heap(off: u32, len: u32) -> [u8; 8] {
    let raw = (off as u64) | ((len as u64) << 32) | (1u64 << 63);
    raw.to_le_bytes()
}

fn build_min_lockb() -> Vec<u8> {
    let mut buf = Vec::new();
    buf.extend_from_slice(MAGIC);

    // format version
    buf.extend_from_slice(&3u32.to_le_bytes());
    // meta hash
    buf.extend_from_slice(&[0u8; 32]);
    // placeholder total_size
    buf.extend_from_slice(&[0u8; 8]);

    // package table header placeholders (len=1, alignment=8, field_count=7)
    let len = 1u64;
    let alignment = 8u64;
    let field_count = 7u64;

    // we will fill begin/end later
    let begin_off_pos = buf.len() + 8 + 8 + 8; // after len,alignment,field_count

    buf.extend_from_slice(&len.to_le_bytes());
    buf.extend_from_slice(&alignment.to_le_bytes());
    buf.extend_from_slice(&field_count.to_le_bytes());
    buf.extend_from_slice(&[0u8; 8]); // begin
    buf.extend_from_slice(&[0u8; 8]); // end

    let begin_at = buf.len();

    // column: names (SemverString) length 1
    buf.extend_from_slice(&encode_inline("foo"));
    // name_hash u64
    buf.extend_from_slice(&0u64.to_le_bytes());

    // resolution (tag=2 npm)
    buf.push(2u8); // tag
    buf.extend_from_slice(&[0u8; 7]); // padding
    // VersionedUrl.url
    buf.extend_from_slice(&encode_inline("npm"));
    // SemverVersion
    buf.extend_from_slice(&1u64.to_le_bytes()); // major
    buf.extend_from_slice(&0u64.to_le_bytes()); // minor
    buf.extend_from_slice(&0u64.to_le_bytes()); // patch
    // tag.pre ExternalString (SemverString + hash)
    buf.extend_from_slice(&[0u8; 8]); // pre value
    buf.extend_from_slice(&0u64.to_le_bytes()); // pre hash
    // tag.build ExternalString
    buf.extend_from_slice(&[0u8; 8]); // build value
    buf.extend_from_slice(&0u64.to_le_bytes()); // build hash

    // dep slice
    buf.extend_from_slice(&0u32.to_le_bytes()); // off
    buf.extend_from_slice(&0u32.to_le_bytes()); // len
    // res slice
    buf.extend_from_slice(&0u32.to_le_bytes()); // off
    buf.extend_from_slice(&0u32.to_le_bytes()); // len

    // meta
    buf.push(1u8); // origin npm
    buf.push(0u8); // padding origin
    buf.extend_from_slice(&0u16.to_le_bytes()); // arch
    buf.extend_from_slice(&0u16.to_le_bytes()); // os
    buf.extend_from_slice(&0u16.to_le_bytes()); // padding os
    buf.extend_from_slice(&0u32.to_le_bytes()); // id
    buf.extend_from_slice(&encode_inline("")); // man_dir empty
    // integrity (tag sha1, 20 bytes of 0x11)
    buf.push(1u8); // tag
    let mut integrity = [0u8; 64];
    for b in integrity[..20].iter_mut() {
        *b = 0x11;
    }
    buf.extend_from_slice(&integrity);
    buf.push(1u8); // has_install_script
    buf.extend_from_slice(&[0u8; 2]); // padding

    // bin
    buf.push(0u8); // tag none
    buf.extend_from_slice(&[0u8; 3]); // pad
    buf.extend_from_slice(&[0u8; 16]); // value

    let end_at = buf.len();

    // backfill begin/end
    let begin_bytes = (begin_at as u64).to_le_bytes();
    let end_bytes = (end_at as u64).to_le_bytes();
    buf[begin_off_pos..begin_off_pos + 8].copy_from_slice(&begin_bytes);
    buf[begin_off_pos + 8..begin_off_pos + 16].copy_from_slice(&end_bytes);

    // buffer pointers (6 kinds)
    for _ in 0..6 {
        buf.extend_from_slice(&(end_at as u64).to_le_bytes()); // begin
        buf.extend_from_slice(&(end_at as u64).to_le_bytes()); // end
    }

    // sentinel
    buf.extend_from_slice(&0u64.to_le_bytes());

    // total_size = buf.len()
    let total_size = buf.len() as u64;
    let total_bytes = total_size.to_le_bytes();
    let total_pos = MAGIC.len() + 4 + 32; // after magic+format+meta_hash
    buf[total_pos..total_pos + 8].copy_from_slice(&total_bytes);

    buf
}

#[test]
fn parse_min_lockb() {
    let data = build_min_lockb();
    let lock = decode(&data).expect("parse");
    assert_eq!(lock.packages.len(), 1);
    let pkg = &lock.packages[0];
    assert_eq!(pkg.name, "foo");
    assert_eq!(pkg.version, "1.0.0");
    assert_eq!(pkg.registry_url, "npm");
    assert!(pkg.integrity_hash.is_some());
}

/// One row of the package table, as a test lays it out.
struct Row {
    name: [u8; 8],
    resolution: Vec<u8>,
    dep_slice: (u32, u32),
    res_slice: (u32, u32),
    integrity_tag: u8,
    integrity: [u8; 64],
}

fn npm_resolution(url: [u8; 8], major: u64, minor: u64, patch: u64, pre: [u8; 8], build: [u8; 8]) -> Vec<u8> {
    let mut r = vec![2u8, 0, 0, 0, 0, 0, 0, 0];
    r.extend_from_slice(&url);
    r.extend_from_slice(&major.to_le_bytes());
    r.extend_from_slice(&minor.to_le_bytes());
    r.extend_from_slice(&patch.to_le_bytes());
    r.extend_from_slice(&pre);
    r.extend_from_slice(&0u64.to_le_bytes());
    r.extend_from_slice(&build);
    r.extend_from_slice(&0u64.to_le_bytes());
    r
}

fn handles_resolution(tag: u8, handles: &[[u8; 8]]) -> Vec<u8> {
    let mut r = vec![tag, 0, 0, 0, 0, 0, 0, 0];
    for h in handles {
        r.extend_from_slice(h);
    }
    r.resize(72, 0);
    r
}

fn row(name: &str) -> Row {
    Row {
        name: encode_inline(name),
        resolution: npm_resolution(encode_inline("npm"), 1, 0, 0, [0; 8], [0; 8]),
        dep_slice: (0, 0),
        res_slice: (0, 0),
        integrity_tag: 0,
        integrity: [0; 64],
    }
}

fn dep_record(name: [u8; 8], behavior: u8, literal: [u8; 8]) -> Vec<u8> {
    let mut d = Vec::new();
    d.extend_from_slice(&name);
    d.extend_from_slice(&0u64.to_le_bytes());
    d.push(behavior);
    d.push(0);
    d.extend_from_slice(&literal);
    d
}

/// Lays out a whole lockfile: header, columns, buffer pointers, buffer
/// data, sentinel, then `trailers` (whose absolute start is passed to
/// `trailers` so that array pointers can be computed).
fn build(
    rows: &[Row],
    deps: &[u8],
    res: &[u32],
    strings: &[u8],
    trailers: &dyn Fn(usize) -> Vec<u8>,
) -> Vec<u8> {
    let n = rows.len();
    let mut buf = Vec::new();
    buf.extend_from_slice(MAGIC);
    buf.extend_from_slice(&3u32.to_le_bytes());
    buf.extend_from_slice(&[7u8; 32]);
    buf.extend_from_slice(&[0u8; 8]);
    let begin = 126 + 0;
    let end = begin + 212 * n;
    for v in [n as u64, 8, 7, begin as u64, end as u64] {
        buf.extend_from_slice(&v.to_le_bytes());
    }
    assert_eq!(buf.len(), 126);
    for r in rows {
        buf.extend_from_slice(&r.name);
    }
    for _ in rows {
        buf.extend_from_slice(&0u64.to_le_bytes());
    }
    for r in rows {
        assert_eq!(r.resolution.len(), 72);
        buf.extend_from_slice(&r.resolution);
    }
    for r in rows {
        buf.extend_from_slice(&r.dep_slice.0.to_le_bytes());
        buf.extend_from_slice(&r.dep_slice.1.to_le_bytes());
    }
    for r in rows {
        buf.extend_from_slice(&r.res_slice.0.to_le_bytes());
        buf.extend_from_slice(&r.res_slice.1.to_le_bytes());
    }
    for r in rows {
        let mut meta = vec![0u8; 20];
        meta.push(r.integrity_tag);
        meta.extend_from_slice(&r.integrity);
        meta.extend_from_slice(&[0u8; 3]);
        assert_eq!(meta.len(), 88);
        buf.extend_from_slice(&meta);
    }
    for _ in rows {
        buf.extend_from_slice(&[0u8; 20]);
    }
    assert_eq!(buf.len(), end);
    let data_start = end + 96;
    let mut res_bytes = Vec::new();
    for r in res {
        res_bytes.extend_from_slice(&r.to_le_bytes());
    }
    let mut data = Vec::new();
    let mut ranges = Vec::new();
    for part in [deps, &[][..], &[][..], &[][..], &res_bytes[..], strings] {
        let s = data_start + data.len();
        data.extend_from_slice(part);
        ranges.push((s as u64, (data_start + data.len()) as u64));
    }
    for (s, e) in ranges {
        buf.extend_from_slice(&s.to_le_bytes());
        buf.extend_from_slice(&e.to_le_bytes());
    }
    buf.extend_from_slice(&data);
    buf.extend_from_slice(&0u64.to_le_bytes());
    let t = trailers(buf.len());
    buf.extend_from_slice(&t);
    let total = buf.len() as u64;
    buf[78..86].copy_from_slice(&total.to_le_bytes());
    buf
}

fn no_trailers(_: usize) -> Vec<u8> {
    Vec::new()
}

#[test]
fn minimal_lockfile_renders_sha1_integrity() {
    let mut r = row("foo");
    r.integrity_tag = 1;
    for b in r.integrity[..20].iter_mut() {
        *b = 0x11;
    }
    let data = build(&[r], &[], &[], &[], &no_trailers);
    let (lock, warnings) = decode_with_warnings(&data).expect("decodes");
    assert!(warnings.is_empty());
    assert_eq!(lock.format_version, 3);
    assert_eq!(lock.meta_hash, [7u8; 32]);
    assert_eq!(lock.packages.len(), 1);
    let p = &lock.packages[0];
    assert_eq!(p.name, "foo");
    assert_eq!(p.version, "1.0.0");
    assert_eq!(p.registry_url, "npm");
    assert_eq!(
        p.integrity_hash.as_deref(),
        Some("sha1-ERERERERERERERERERERERERERE")
    );
    assert_eq!(
        p.resolution,
        ResolutionKind::Npm { version: "1.0.0".to_string(), registry: "npm".to_string() }
    );
    assert!(p.dependencies.is_empty());
}

#[test]
fn integrity_tags_use_their_digest_lengths() {
    let expected = [
        (2u8, "sha256-AAECAwQFBgcICQoLDA0ODxAREhMUFRYXGBkaGxwdHh8"),
        (3u8, "sha384-AAECAwQFBgcICQoLDA0ODxAREhMUFRYXGBkaGxwdHh8gISIjJCUmJygpKissLS4v"),
        (
            4u8,
            "sha512-AAECAwQFBgcICQoLDA0ODxAREhMUFRYXGBkaGxwdHh8gISIjJCUmJygpKissLS4vMDEyMzQ1Njc4OTo7PD0+Pw",
        ),
    ];
    for (tag, text) in expected {
        let mut r = row("foo");
        r.integrity_tag = tag;
        for (i, b) in r.integrity.iter_mut().enumerate() {
            *b = i as u8;
        }
        let data = build(&[r], &[], &[], &[], &no_trailers);
        let lock = decode(&data).expect("decodes");
        assert_eq!(lock.packages[0].integrity_hash.as_deref(), Some(text));
    }
}

#[test]
fn unknown_integrity_tag_is_absent_with_warning() {
    let mut r = row("foo");
    r.integrity_tag = 9;
    let data = build(&[r], &[], &[], &[], &no_trailers);
    let (lock, warnings) = decode_with_warnings(&data).expect("decodes");
    assert_eq!(lock.packages[0].integrity_hash, None);
    assert_eq!(warnings, vec![Warning::UnknownIntegrityTag { package: 0, tag: 9 }]);
}

#[test]
fn bad_magic_is_rejected() {
    let mut data = build_min_lockb();
    data[0] = b'X';
    assert_eq!(decode(&data).unwrap_err(), ParseError::InvalidMagic);
}

#[test]
fn unsupported_format_is_rejected() {
    let mut data = build_min_lockb();
    data[42..46].copy_from_slice(&99u32.to_le_bytes());
    assert_eq!(decode(&data).unwrap_err(), ParseError::UnsupportedFormat(99));
}

#[test]
fn outdated_field_count_is_rejected() {
    let mut data = build_min_lockb();
    data[102..110].copy_from_slice(&6u64.to_le_bytes());
    assert_eq!(decode(&data).unwrap_err(), ParseError::OutdatedFormat(3));
}

#[test]
fn truncated_before_sentinel_is_an_error() {
    let data = build_min_lockb();
    let cut = &data[..data.len() - 8];
    let err = decode(cut).unwrap_err();
    assert!(matches!(err, ParseError::Truncated | ParseError::CorruptOffsets(..)));
}

#[test]
fn short_files_are_truncated() {
    assert_eq!(decode(&[]).unwrap_err(), ParseError::Truncated);
    assert_eq!(decode(&MAGIC[..]).unwrap_err(), ParseError::Truncated);
}

#[test]
fn nonzero_sentinel_is_corrupt() {
    let mut data = build_min_lockb();
    let n = data.len();
    data[n - 8] = 1;
    assert_eq!(decode(&data).unwrap_err(), ParseError::CorruptSentinel);
}

#[test]
fn dependency_slice_overflow_gives_empty_list() {
    let mut deps = Vec::new();
    for _ in 0..3 {
        deps.extend_from_slice(&dep_record(encode_inline("dep"), 2, encode_inline("^1")));
    }
    let mut r = row("foo");
    r.dep_slice = (10, 5);
    let data = build(&[r], &deps, &[], &[], &no_trailers);
    let (lock, warnings) = decode_with_warnings(&data).expect("decodes");
    assert!(lock.packages[0].dependencies.is_empty());
    assert!(warnings.contains(&Warning::DependencySliceOverflow { package: 0 }));
}

#[test]
fn heap_string_at_the_end_of_the_heap() {
    let strings = b"left-pad-and-more";
    let n = strings.len() as u32;
    let mut r = row("x");
    r.name = encode_heap(n - 8, 8);
    let data = build(&[r], &[], &[], strings, &no_trailers);
    let lock = decode(&data).expect("decodes");
    assert_eq!(lock.packages[0].name, "and-more");

    let mut r = row("x");
    r.name = encode_heap(n - 8, 9);
    let data = build(&[r], &[], &[], strings, &no_trailers);
    assert_eq!(decode(&data).unwrap_err(), ParseError::BadStringPointer(n - 8, 9));
}

#[test]
fn invalid_utf8_in_a_name_is_an_error() {
    let mut r = row("x");
    r.name = [0xff, 0xfe, 0, 0, 0, 0, 0, 0];
    let data = build(&[r], &[], &[], &[], &no_trailers);
    assert_eq!(decode(&data).unwrap_err(), ParseError::InvalidUtf8);
}

#[test]
fn dependencies_are_resolved_within_the_inventory() {
    let mut deps = Vec::new();
    deps.extend_from_slice(&dep_record(encode_inline("bar"), 0xff, encode_inline("^2.0.0")));
    deps.extend_from_slice(&dep_record(encode_inline("baz"), 0x02, encode_inline("*")));
    let mut foo = row("foo");
    foo.dep_slice = (0, 2);
    foo.res_slice = (0, 2);
    let bar = row("bar");
    let data = build(&[foo, bar], &deps, &[1, 77], &[], &no_trailers);
    let (lock, warnings) = decode_with_warnings(&data).expect("decodes");
    assert!(warnings.is_empty());
    let d = &lock.packages[0].dependencies;
    assert_eq!(d.len(), 2);
    assert_eq!(d[0].name, "bar");
    assert_eq!(d[0].req, "^2.0.0");
    assert_eq!(d[0].behavior.bits(), 0x7e);
    assert_eq!(d[0].resolved_package_id, Some(1));
    assert_eq!(d[1].name, "baz");
    assert_eq!(d[1].behavior.bits(), 0x02);
    assert!(d[1].behavior.contains(BEHAVIOR_PROD));
    assert!(!d[1].behavior.contains(BEHAVIOR_DEV));
    assert!(d[0].behavior.contains(BEHAVIOR_PEER | BEHAVIOR_DEV));
    assert_eq!(d[1].resolved_package_id, None);
}

#[test]
fn mismatched_slice_lengths_drop_missing_ids() {
    let mut deps = Vec::new();
    deps.extend_from_slice(&dep_record(encode_inline("a"), 2, encode_inline("1")));
    deps.extend_from_slice(&dep_record(encode_inline("b"), 2, encode_inline("1")));
    let mut foo = row("foo");
    foo.dep_slice = (0, 2);
    foo.res_slice = (0, 1);
    let data = build(&[foo], &deps, &[0], &[], &no_trailers);
    let (lock, warnings) = decode_with_warnings(&data).expect("decodes");
    let d = &lock.packages[0].dependencies;
    assert_eq!(d[0].resolved_package_id, Some(0));
    assert_eq!(d[1].resolved_package_id, None);
    assert_eq!(
        warnings,
        vec![Warning::LengthMismatchDepRes { package: 0, deps: 2, resolved: 1 }]
    );
}

#[test]
fn version_with_pre_release_and_build() {
    let mut r = row("foo");
    r.resolution = npm_resolution(
        encode_inline("npm"),
        12,
        0,
        345,
        encode_inline("beta.1"),
        encode_inline("exp"),
    );
    let data = build(&[r], &[], &[], &[], &no_trailers);
    let lock = decode(&data).expect("decodes");
    assert_eq!(lock.packages[0].version, "12.0.345-beta.1+exp");
}

#[test]
fn resolution_kinds_set_the_registry_url() {
    let strings = b"https://example.com/pkg.tgz";
    let url = encode_heap(0, strings.len() as u32);
    let cases: Vec<(Vec<u8>, ResolutionKind, &str)> = vec![
        (
            handles_resolution(16, &[encode_inline("octo"), encode_inline("repo"), encode_inline("main")]),
            ResolutionKind::Github {
                owner: "octo".into(),
                repo: "repo".into(),
                reference: "main".into(),
            },
            "octo/repo",
        ),
        (
            handles_resolution(32, &[encode_inline("o"), encode_inline("git-url"), encode_inline("abc123")]),
            ResolutionKind::Git { repo: "git-url".into(), commit: "abc123".into() },
            "git-url",
        ),
        (
            handles_resolution(80, &[url]),
            ResolutionKind::RemoteTarball { url: "https://example.com/pkg.tgz".into() },
            "https://example.com/pkg.tgz",
        ),
        (
            handles_resolution(4, &[encode_inline("../lib")]),
            ResolutionKind::Folder { path: "../lib".into() },
            "../lib",
        ),
        (
            handles_resolution(72, &[encode_inline("pkgs/a")]),
            ResolutionKind::Workspace { name: "pkgs/a".into() },
            "pkgs/a",
        ),
        (handles_resolution(1, &[]), ResolutionKind::Root, "root"),
        (handles_resolution(0, &[]), ResolutionKind::Unknown(String::new()), ""),
    ];
    for (res, kind, registry) in cases {
        let mut r = row("foo");
        r.resolution = res;
        let data = build(&[r], &[], &[], strings, &no_trailers);
        let lock = decode(&data).expect("decodes");
        assert_eq!(lock.packages[0].resolution, kind);
        assert_eq!(lock.packages[0].registry_url, registry);
        assert_eq!(lock.packages[0].version, "");
    }
}

#[test]
fn unknown_resolution_tag_is_kept_with_warning() {
    let mut r = row("foo");
    r.resolution = handles_resolution(7, &[]);
    let data = build(&[r], &[], &[], &[], &no_trailers);
    let (lock, warnings) = decode_with_warnings(&data).expect("decodes");
    assert_eq!(lock.packages[0].resolution, ResolutionKind::Unknown("tag=7".into()));
    assert_eq!(lock.packages[0].registry_url, "tag=7");
    assert_eq!(warnings, vec![Warning::UnknownResolutionTag { package: 0, tag: 7 }]);
}

#[test]
fn decoding_is_deterministic() {
    let data = build_min_lockb();
    let a = decode_with_warnings(&data).expect("decodes");
    let b = decode_with_warnings(&data).expect("decodes");
    assert_eq!(format!("{:?}", a), format!("{:?}", b));
}

#[test]
fn random_inputs_never_panic() {
    let mut state: u64 = 0x9e3779b97f4a7c15;
    for len in (0..4096).step_by(37) {
        let mut data = Vec::with_capacity(len);
        for _ in 0..len {
            state = state.wrapping_mul(6364136223846793005).wrapping_add(1442695040888963407);
            data.push((state >> 33) as u8);
        }
        let _ = decode_with_warnings(&data);
        // The same bytes behind a valid header.
        let mut framed = build_min_lockb();
        framed.truncate(126);
        framed.extend_from_slice(&data);
        let _ = decode_with_warnings(&framed);
    }
}

fn array(at: usize, payload: &[u8]) -> Vec<u8> {
    // A pointer pair followed by its data.
    let begin = (at + 16) as u64;
    let end = begin + payload.len() as u64;
    let mut v = Vec::new();
    v.extend_from_slice(&begin.to_le_bytes());
    v.extend_from_slice(&end.to_le_bytes());
    v.extend_from_slice(payload);
    v
}

#[test]
fn trailers_are_read() {
    let trailers = |start: usize| {
        let mut t = Vec::new();
        t.extend_from_slice(b"tRuStEDd");
        let mut hashes = Vec::new();
        for h in [11u32, 22, 33] {
            hashes.extend_from_slice(&h.to_le_bytes());
        }
        let a = array(start + t.len(), &hashes);
        t.extend_from_slice(&a);
        t.extend_from_slice(b"eMpTrUsT");
        t.extend_from_slice(b"wOrKsPaC");
        for payload in [&[0u8; 16][..], &[0u8; 16][..], &[0u8; 16][..], &[0u8; 24][..]] {
            let a = array(start + t.len(), payload);
            t.extend_from_slice(&a);
        }
        t.extend_from_slice(b"cNfGvRsN");
        t.extend_from_slice(&1u64.to_le_bytes());
        t.extend_from_slice(b"oVeRriDs");
        let a = array(start + t.len(), &99u64.to_le_bytes());
        t.extend_from_slice(&a);
        let a = array(start + t.len(), &dep_record(encode_inline("lodash"), 2, encode_inline("4.17.21")));
        t.extend_from_slice(&a);
        t
    };
    let data = build(&[row("foo")], &[], &[], &[], &trailers);
    let (lock, warnings) = decode_with_warnings(&data).expect("decodes");
    assert!(warnings.is_empty());
    let tr = &lock.trailers;
    assert_eq!(tr.trusted_hashes, vec![11, 22, 33]);
    assert!(tr.has_empty_trusted);
    assert_eq!(tr.workspaces_count, 3);
    assert_eq!(tr.overrides.len(), 1);
    assert_eq!(tr.overrides[0].name_hash, 99);
    assert_eq!(tr.overrides[0].dependency.name, "lodash");
    assert_eq!(tr.overrides[0].dependency.req, "4.17.21");
}

#[test]
fn default_catalog_is_read() {
    let trailers = |start: usize| {
        let mut t = Vec::new();
        t.extend_from_slice(b"cAtAlOgS");
        let a = array(start + t.len(), &encode_inline("react"));
        t.extend_from_slice(&a);
        let a = array(start + t.len(), &dep_record(encode_inline("react"), 2, encode_inline("^18")));
        t.extend_from_slice(&a);
        let a = array(start + t.len(), &[]);
        t.extend_from_slice(&a);
        t
    };
    let data = build(&[row("foo")], &[], &[], &[], &trailers);
    let (lock, warnings) = decode_with_warnings(&data).expect("decodes");
    assert!(warnings.is_empty());
    assert_eq!(lock.trailers.default_catalog.len(), 1);
    assert_eq!(lock.trailers.default_catalog[0].name, "react");
    assert_eq!(lock.trailers.default_catalog[0].req, "^18");
}

#[test]
fn unknown_trailer_tag_is_a_warning() {
    let data = build(&[row("foo")], &[], &[], &[], &|_| b"zZzZzZzZ".to_vec());
    let (lock, warnings) = decode_with_warnings(&data).expect("decodes");
    assert_eq!(lock.packages.len(), 1);
    assert_eq!(warnings.len(), 1);
    assert!(matches!(warnings[0], Warning::TrailerUnknownTag { .. }));
}

#[test]
fn truncated_trailer_is_a_warning() {
    let trailers = |_: usize| {
        let mut t = Vec::new();
        t.extend_from_slice(b"tRuStEDd");
        t.extend_from_slice(&u64::MAX.to_le_bytes());
        t.extend_from_slice(&u64::MAX.to_le_bytes());
        t
    };
    let data = build(&[row("foo")], &[], &[], &[], &trailers);
    let (lock, warnings) = decode_with_warnings(&data).expect("decodes");
    assert!(lock.trailers.trusted_hashes.is_empty());
    assert_eq!(warnings.len(), 1);
    assert!(matches!(warnings[0], Warning::TrailerTruncated { .. }));
}

#[test]
fn total_size_beyond_the_file_is_corrupt() {
    let mut data = build_min_lockb();
    let n = data.len() as u64;
    data[78..86].copy_from_slice(&(n + 1).to_le_bytes());
    assert_eq!(decode(&data).unwrap_err(), ParseError::CorruptOffsets(0, n + 1, n));
}

#[test]
fn reversed_buffer_pointers_are_corrupt() {
    let mut data = build_min_lockb();
    let n = data.len() as u64;
    // The first pair of the pointer block: begin after end.
    let p = 126 + 212;
    data[p..p + 8].copy_from_slice(&(n - 1).to_le_bytes());
    data[p + 8..p + 16].copy_from_slice(&(n - 2).to_le_bytes());
    assert_eq!(decode(&data).unwrap_err(), ParseError::CorruptOffsets(n - 1, n - 2, n));
}

#[test]
fn buffer_inside_the_columns_is_corrupt() {
    let mut data = build_min_lockb();
    let n = data.len() as u64;
    // The string-bytes pair points back into the package columns.
    let p = 126 + 212 + 5 * 16;
    data[p..p + 8].copy_from_slice(&130u64.to_le_bytes());
    data[p + 8..p + 16].copy_from_slice(&140u64.to_le_bytes());
    assert_eq!(decode(&data).unwrap_err(), ParseError::CorruptOffsets(130, 140, n));
}

#[test]
fn column_end_mismatch_is_a_warning() {
    let mut data = build_min_lockb();
    // The table claims to end 8 bytes later than its columns do; the
    // pointer block is read from there.
    let end = 126 + 212u64;
    data[118..126].copy_from_slice(&(end + 8).to_le_bytes());
    let mut shifted = data[..end as usize].to_vec();
    shifted.extend_from_slice(&[0u8; 8]);
    for _ in 0..6 {
        shifted.extend_from_slice(&(end + 8).to_le_bytes());
        shifted.extend_from_slice(&(end + 8).to_le_bytes());
    }
    shifted.extend_from_slice(&0u64.to_le_bytes());
    let total = shifted.len() as u64;
    shifted[78..86].copy_from_slice(&total.to_le_bytes());
    let (lock, warnings) = decode_with_warnings(&shifted).expect("decodes");
    assert_eq!(lock.packages.len(), 1);
    assert_eq!(
        warnings,
        vec![Warning::ColumnOverflow { expected_end: end + 8, actual_end: end }]
    );
}

#[test]
fn scripts_column_is_skipped() {
    let data = build_min_lockb();
    // Rebuild with eight columns: the scripts column adds 51 bytes per row.
    let end = 126 + 212;
    let mut v = data[..end].to_vec();
    v[102..110].copy_from_slice(&8u64.to_le_bytes());
    v.extend_from_slice(&[0u8; 51]);
    let new_end = v.len() as u64;
    v[118..126].copy_from_slice(&new_end.to_le_bytes());
    for _ in 0..6 {
        v.extend_from_slice(&new_end.to_le_bytes());
        v.extend_from_slice(&new_end.to_le_bytes());
    }
    v.extend_from_slice(&0u64.to_le_bytes());
    let total = v.len() as u64;
    v[78..86].copy_from_slice(&total.to_le_bytes());
    let (lock, warnings) = decode_with_warnings(&v).expect("decodes");
    assert!(warnings.is_empty());
    assert_eq!(lock.packages[0].name, "foo");
}

#[test]
fn patched_entries_are_read() {
    let trailers = |start: usize| {
        let mut t = Vec::new();
        t.extend_from_slice(b"pAtChEdD");
        let mut hashes = Vec::new();
        hashes.extend_from_slice(&5u64.to_le_bytes());
        hashes.extend_from_slice(&6u64.to_le_bytes());
        let a = array(start + t.len(), &hashes);
        t.extend_from_slice(&a);
        let mut recs = Vec::new();
        recs.extend_from_slice(&encode_inline("p/a.pt"));
        recs.push(0);
        recs.extend_from_slice(&[0u8; 7]);
        recs.extend_from_slice(&42u64.to_le_bytes());
        recs.extend_from_slice(&encode_inline("p/b.pt"));
        recs.push(1);
        recs.extend_from_slice(&[0u8; 7]);
        recs.extend_from_slice(&0u64.to_le_bytes());
        let a = array(start + t.len(), &recs);
        t.extend_from_slice(&a);
        t
    };
    let data = build(&[row("foo")], &[], &[], &[], &trailers);
    let (lock, warnings) = decode_with_warnings(&data).expect("decodes");
    assert!(warnings.is_empty());
    let p = &lock.trailers.patched;
    assert_eq!(p.len(), 2);
    assert_eq!((p[0].name_version_hash, p[0].path.as_str(), p[0].patch_hash), (5, "p/a.pt", Some(42)));
    assert_eq!((p[1].name_version_hash, p[1].path.as_str(), p[1].patch_hash), (6, "p/b.pt", None));
}

#[test]
fn empty_handle_is_the_empty_string() {
    let mut r = row("x");
    r.name = [0; 8];
    let data = build(&[r], &[], &[], &[], &no_trailers);
    assert_eq!(decode(&data).expect("decodes").packages[0].name, "");
}

#[test]
fn eight_byte_inline_name() {
    let data = build(&[row("abcdefgh")], &[], &[], &[], &no_trailers);
    assert_eq!(decode(&data).expect("decodes").packages[0].name, "abcdefgh");
}
