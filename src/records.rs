//! Fixed-size records of the package columns and buffers, and their
//! decoding into inventory values.

use vstd::prelude::*;
use base64::Engine;
use crate::bytes::{fits, le_u32, le_u64, read_u32, read_u64};
use crate::error::ParseError;
use crate::model::{
    deps_view, opt_text, BehaviorFlags, DependencyEntry, DependencyView, ResolutionKind,
    ResolutionView, BEHAVIOR_MASK,
};
use crate::strings::{
    append_char, append_str, decimal, handle_at, handle_text, push_decimal, read_handle,
    text_matches, SemverString,
};

verus! {

/// Size of a resolution record: tag, 7 bytes of padding, 64-byte payload.
pub const RESOLUTION_SIZE: usize = 72;

/// Size of a meta record.
pub const META_SIZE: usize = 88;

/// Offset of the integrity tag inside a meta record; the 64 digest bytes follow.
pub const META_INTEGRITY: usize = 20;

/// Size of a bin record.
pub const BIN_SIZE: usize = 20;

/// Size of a scripts record.
pub const SCRIPTS_SIZE: usize = 51;

/// Size of a dependency record: name, name hash, behavior, version tag,
/// version literal.
pub const DEPENDENCY_SIZE: usize = 26;

/// A semantic version: three numbers, a pre-release and a build string.
#[derive(Debug, Clone, Copy, PartialEq, Eq, Structural)]
pub struct SemverVersion {
    pub major: u64,
    pub minor: u64,
    pub patch: u64,
    pub pre: SemverString,
    pub build: SemverString,
}

/// The version stored at `b[p..p + 56]`; each string is followed by an
/// informational hash.
pub open spec fn version_at(b: Seq<u8>, p: int) -> SemverVersion {
    SemverVersion {
        major: le_u64(b, p) as u64,
        minor: le_u64(b, p + 8) as u64,
        patch: le_u64(b, p + 16) as u64,
        pre: handle_at(b, p + 24),
        build: handle_at(b, p + 40),
    }
}

/// `s` preceded by `c`, or nothing when `s` is empty.
pub open spec fn tagged_part(c: char, s: Seq<char>) -> Seq<char> {
    if s.len() == 0 {
        Seq::empty()
    } else {
        seq![c] + s
    }
}

/// `M.m.p`, then `-pre` and `+build` where those are not empty.
pub open spec fn version_text(v: SemverVersion, heap: Seq<u8>) -> Result<Seq<char>, ParseError> {
    match handle_text(v.pre.raw, heap) {
        Err(e) => Err(e),
        Ok(pre) => match handle_text(v.build.raw, heap) {
            Err(e) => Err(e),
            Ok(build) => Ok(
                decimal(v.major as nat) + seq!['.'] + decimal(v.minor as nat) + seq!['.']
                    + decimal(v.patch as nat) + tagged_part('-', pre) + tagged_part('+', build),
            ),
        },
    }
}

fn push_tagged(s: &mut String, c: char, part: &String)
    ensures
        final(s)@ == old(s)@ + tagged_part(c, part@),
{
    if part.as_str().is_empty() {
        assert(final(s)@ =~= old(s)@ + tagged_part(c, part@));
    } else {
        append_char(s, c);
        append_str(s, part.as_str());
        assert(final(s)@ =~= old(s)@ + tagged_part(c, part@));
    }
}

impl SemverVersion {
    /// The textual form of the version.
    pub fn to_string(&self, strings: &[u8]) -> (r: Result<String, ParseError>)
        ensures
            text_matches(r, version_text(*self, strings@)),
    {
        let mut out = String::new();
        push_decimal(&mut out, self.major);
        append_char(&mut out, '.');
        push_decimal(&mut out, self.minor);
        append_char(&mut out, '.');
        push_decimal(&mut out, self.patch);
        let pre = self.pre.decode(strings)?;
        push_tagged(&mut out, '-', &pre);
        let build = self.build.decode(strings)?;
        push_tagged(&mut out, '+', &build);
        assert(out@ =~= decimal(self.major as nat) + seq!['.'] + decimal(self.minor as nat)
            + seq!['.'] + decimal(self.patch as nat) + tagged_part('-', pre@) + tagged_part(
            '+',
            build@,
        ));
        Ok(out)
    }
}

/// A git or GitHub source.
#[derive(Debug, Clone, Copy, PartialEq, Eq, Structural)]
pub struct Repository {
    pub owner: SemverString,
    pub repo: SemverString,
    pub committish: SemverString,
    pub resolved: SemverString,
    pub package_name: SemverString,
}

pub open spec fn repository_at(b: Seq<u8>, p: int) -> Repository {
    Repository {
        owner: handle_at(b, p),
        repo: handle_at(b, p + 8),
        committish: handle_at(b, p + 16),
        resolved: handle_at(b, p + 24),
        package_name: handle_at(b, p + 32),
    }
}

/// A resolution record, by tag.
#[derive(Debug, Clone, Copy, PartialEq, Eq, Structural)]
pub enum Resolution {
    Uninitialized,
    Root,
    Npm { url: SemverString, version: SemverVersion },
    Folder(SemverString),
    LocalTarball(SemverString),
    Github(Repository),
    Git(Repository),
    Symlink(SemverString),
    Workspace(SemverString),
    RemoteTarball(SemverString),
    SingleFileModule(SemverString),
    Unknown(u8),
}

/// The resolution record stored at `b[p..p + 72]`.
pub open spec fn resolution_at(b: Seq<u8>, p: int) -> Resolution {
    let tag = b[p];
    if tag == 0 {
        Resolution::Uninitialized
    } else if tag == 1 {
        Resolution::Root
    } else if tag == 2 {
        Resolution::Npm { url: handle_at(b, p + 8), version: version_at(b, p + 16) }
    } else if tag == 4 {
        Resolution::Folder(handle_at(b, p + 8))
    } else if tag == 8 {
        Resolution::LocalTarball(handle_at(b, p + 8))
    } else if tag == 16 {
        Resolution::Github(repository_at(b, p + 8))
    } else if tag == 32 {
        Resolution::Git(repository_at(b, p + 8))
    } else if tag == 64 {
        Resolution::Symlink(handle_at(b, p + 8))
    } else if tag == 72 {
        Resolution::Workspace(handle_at(b, p + 8))
    } else if tag == 80 {
        Resolution::RemoteTarball(handle_at(b, p + 8))
    } else if tag == 100 {
        Resolution::SingleFileModule(handle_at(b, p + 8))
    } else {
        Resolution::Unknown(tag)
    }
}

fn read_version(b: &[u8], p: usize) -> (r: SemverVersion)
    requires
        fits(b@, p as int, 56),
    ensures
        r == version_at(b@, p as int),
{
    let _n = b.len();
    SemverVersion {
        major: read_u64(b, p).unwrap(),
        minor: read_u64(b, p + 8).unwrap(),
        patch: read_u64(b, p + 16).unwrap(),
        pre: read_handle(b, p + 24).unwrap(),
        build: read_handle(b, p + 40).unwrap(),
    }
}

fn read_repository(b: &[u8], p: usize) -> (r: Repository)
    requires
        fits(b@, p as int, 40),
    ensures
        r == repository_at(b@, p as int),
{
    let _n = b.len();
    Repository {
        owner: read_handle(b, p).unwrap(),
        repo: read_handle(b, p + 8).unwrap(),
        committish: read_handle(b, p + 16).unwrap(),
        resolved: read_handle(b, p + 24).unwrap(),
        package_name: read_handle(b, p + 32).unwrap(),
    }
}

/// Reads the resolution record stored at `b[p..p + 72]`.
pub fn read_resolution(b: &[u8], p: usize) -> (r: Option<Resolution>)
    ensures
        fits(b@, p as int, RESOLUTION_SIZE as int) ==> r == Some(resolution_at(b@, p as int)),
        !fits(b@, p as int, RESOLUTION_SIZE as int) ==> r is None,
{
    if p > b.len() || b.len() - p < RESOLUTION_SIZE {
        return None;
    }
    let tag = b[p];
    let q = p + 8;
    let r = if tag == 0 {
        Resolution::Uninitialized
    } else if tag == 1 {
        Resolution::Root
    } else if tag == 2 {
        Resolution::Npm { url: read_handle(b, q).unwrap(), version: read_version(b, q + 8) }
    } else if tag == 4 {
        Resolution::Folder(read_handle(b, q).unwrap())
    } else if tag == 8 {
        Resolution::LocalTarball(read_handle(b, q).unwrap())
    } else if tag == 16 {
        Resolution::Github(read_repository(b, q))
    } else if tag == 32 {
        Resolution::Git(read_repository(b, q))
    } else if tag == 64 {
        Resolution::Symlink(read_handle(b, q).unwrap())
    } else if tag == 72 {
        Resolution::Workspace(read_handle(b, q).unwrap())
    } else if tag == 80 {
        Resolution::RemoteTarball(read_handle(b, q).unwrap())
    } else if tag == 100 {
        Resolution::SingleFileModule(read_handle(b, q).unwrap())
    } else {
        Resolution::Unknown(tag)
    };
    Some(r)
}

/// `tag=<n>`: the text kept for a resolution with an unknown tag.
pub open spec fn unknown_tag_text(tag: u8) -> Seq<char> {
    seq!['t', 'a', 'g', '='] + decimal(tag as nat)
}

/// A single-string resolution: `mk` applied to the text of `h`.
pub open spec fn one_text(
    h: SemverString,
    heap: Seq<u8>,
    mk: spec_fn(Seq<char>) -> ResolutionView,
) -> Result<Option<ResolutionView>, ParseError> {
    match handle_text(h.raw, heap) {
        Err(e) => Err(e),
        Ok(s) => Ok(Some(mk(s))),
    }
}

/// The resolution a record describes; `None` for an uninitialized one.
pub open spec fn resolution_model(res: Resolution, heap: Seq<u8>) -> Result<
    Option<ResolutionView>,
    ParseError,
> {
    match res {
        Resolution::Uninitialized => Ok(None),
        Resolution::Root => Ok(Some(ResolutionView::Root)),
        Resolution::Npm { url, version } => match version_text(version, heap) {
            Err(e) => Err(e),
            Ok(v) => match handle_text(url.raw, heap) {
                Err(e) => Err(e),
                Ok(u) => Ok(Some(ResolutionView::Npm { version: v, registry: u })),
            },
        },
        Resolution::Folder(h) => one_text(h, heap, |s| ResolutionView::Folder { path: s }),
        Resolution::LocalTarball(h) => one_text(
            h,
            heap,
            |s| ResolutionView::LocalTarball { path: s },
        ),
        Resolution::RemoteTarball(h) => one_text(
            h,
            heap,
            |s| ResolutionView::RemoteTarball { url: s },
        ),
        Resolution::Symlink(h) => one_text(h, heap, |s| ResolutionView::Symlink { path: s }),
        Resolution::Workspace(h) => one_text(h, heap, |s| ResolutionView::Workspace { name: s }),
        Resolution::SingleFileModule(h) => one_text(
            h,
            heap,
            |s| ResolutionView::SingleFileModule { url: s },
        ),
        Resolution::Git(r) => match handle_text(r.repo.raw, heap) {
            Err(e) => Err(e),
            Ok(repo) => match handle_text(r.committish.raw, heap) {
                Err(e) => Err(e),
                Ok(c) => Ok(Some(ResolutionView::Git { repo, commit: c })),
            },
        },
        Resolution::Github(r) => match handle_text(r.owner.raw, heap) {
            Err(e) => Err(e),
            Ok(owner) => match handle_text(r.repo.raw, heap) {
                Err(e) => Err(e),
                Ok(repo) => match handle_text(r.committish.raw, heap) {
                    Err(e) => Err(e),
                    Ok(c) => Ok(Some(ResolutionView::Github { owner, repo, reference: c })),
                },
            },
        },
        Resolution::Unknown(tag) => Ok(Some(ResolutionView::Unknown(unknown_tag_text(tag)))),
    }
}

pub open spec fn resolution_result_view(r: Result<Option<ResolutionKind>, ParseError>) -> Result<
    Option<ResolutionView>,
    ParseError,
> {
    match r {
        Ok(Some(k)) => Ok(Some(k@)),
        Ok(None) => Ok(None),
        Err(e) => Err(e),
    }
}

/// The resolution that `res` describes, its strings looked up in `strings`.
pub fn decode_resolution(res: &Resolution, strings: &[u8]) -> (r: Result<
    Option<ResolutionKind>,
    ParseError,
>)
    ensures
        resolution_result_view(r) == resolution_model(*res, strings@),
{
    let val = match res {
        Resolution::Uninitialized => None,
        Resolution::Root => Some(ResolutionKind::Root),
        Resolution::Npm { url, version } => {
            let version = version.to_string(strings)?;
            let registry = url.decode(strings)?;
            Some(ResolutionKind::Npm { version, registry })
        },
        Resolution::Folder(s) => Some(ResolutionKind::Folder { path: s.decode(strings)? }),
        Resolution::LocalTarball(s) => Some(ResolutionKind::LocalTarball { path: s.decode(strings)? }),
        Resolution::RemoteTarball(s) => Some(ResolutionKind::RemoteTarball { url: s.decode(strings)? }),
        Resolution::Symlink(s) => Some(ResolutionKind::Symlink { path: s.decode(strings)? }),
        Resolution::Workspace(s) => Some(ResolutionKind::Workspace { name: s.decode(strings)? }),
        Resolution::SingleFileModule(s) => Some(
            ResolutionKind::SingleFileModule { url: s.decode(strings)? },
        ),
        Resolution::Git(repo) => {
            let r = repo.repo.decode(strings)?;
            let commit = repo.committish.decode(strings)?;
            Some(ResolutionKind::Git { repo: r, commit })
        },
        Resolution::Github(repo) => {
            let owner = repo.owner.decode(strings)?;
            let r = repo.repo.decode(strings)?;
            let reference = repo.committish.decode(strings)?;
            Some(ResolutionKind::Github { owner, repo: r, reference })
        },
        Resolution::Unknown(tag) => {
            let mut s = String::new();
            append_str(&mut s, "tag=");
            push_decimal(&mut s, *tag as u64);
            proof {
                reveal_strlit("tag=");
                assert(s@ =~= unknown_tag_text(*tag));
            }
            Some(ResolutionKind::Unknown(s))
        },
    };
    Ok(val)
}

/// The Base64 encoding of `b`, standard alphabet, without padding.
pub uninterp spec fn base64_no_pad(b: Seq<u8>) -> Seq<char>;

/// Relies on base64's `STANDARD_NO_PAD` engine, which encodes with the
/// standard alphabet and writes no padding.
#[verifier::external_body]
fn encode_base64(b: &[u8]) -> (r: String)
    requires
        b@.len() <= 64,
    ensures
        r@ == base64_no_pad(b@),
{
    base64::engine::general_purpose::STANDARD_NO_PAD.encode(b)
}

/// How many digest bytes an integrity tag from 1 to 4 uses.
pub open spec fn digest_len(tag: u8) -> int {
    if tag == 1 {
        20
    } else if tag == 2 {
        32
    } else if tag == 3 {
        48
    } else {
        64
    }
}

/// The algorithm prefix of an integrity tag from 1 to 4.
pub open spec fn digest_prefix(tag: u8) -> Seq<char> {
    if tag == 1 {
        seq!['s', 'h', 'a', '1', '-']
    } else if tag == 2 {
        seq!['s', 'h', 'a', '2', '5', '6', '-']
    } else if tag == 3 {
        seq!['s', 'h', 'a', '3', '8', '4', '-']
    } else {
        seq!['s', 'h', 'a', '5', '1', '2', '-']
    }
}

/// The integrity string of a tag and its 64 digest bytes; absent for tag 0
/// and for tags that are not known.
pub open spec fn integrity_text(tag: u8, value: Seq<u8>) -> Option<Seq<char>> {
    if 1 <= tag <= 4 {
        Some(digest_prefix(tag) + base64_no_pad(value.take(digest_len(tag))))
    } else {
        None
    }
}

/// The integrity string of tag 1 to 4 whose digest encodes as `encoded`:
/// the algorithm prefix, then `encoded`.
pub fn integrity_string(tag: u8, encoded: &str) -> (r: String)
    requires
        1 <= tag <= 4,
    ensures
        r@ == digest_prefix(tag) + encoded@,
{
    let mut out = String::new();
    if tag == 1 {
        append_str(&mut out, "sha1-");
        proof {
            reveal_strlit("sha1-");
        }
    } else if tag == 2 {
        append_str(&mut out, "sha256-");
        proof {
            reveal_strlit("sha256-");
        }
    } else if tag == 3 {
        append_str(&mut out, "sha384-");
        proof {
            reveal_strlit("sha384-");
        }
    } else {
        append_str(&mut out, "sha512-");
        proof {
            reveal_strlit("sha512-");
        }
    }
    assert(out@ =~= digest_prefix(tag));
    append_str(&mut out, encoded);
    out
}

/// Renders an integrity record: the algorithm prefix and the Base64 form of
/// the digest bytes that the algorithm uses.
pub fn decode_integrity(tag: u8, value: &[u8]) -> (r: Option<String>)
    requires
        value@.len() == 64,
    ensures
        opt_text(r) == integrity_text(tag, value@),
{
    if tag == 0 || tag > 4 {
        return None;
    }
    let n: usize = if tag == 1 {
        20
    } else if tag == 2 {
        32
    } else if tag == 3 {
        48
    } else {
        64
    };
    let digest = vstd::slice::slice_subrange(value, 0, n);
    assert(digest@ =~= value@.take(digest_len(tag)));
    let encoded = encode_base64(digest);
    Some(integrity_string(tag, encoded.as_str()))
}

/// A dependency record of the dependencies buffer.
#[derive(Debug, Clone, Copy, PartialEq, Eq, Structural)]
pub struct DependencyExternal {
    pub name: SemverString,
    pub name_hash: u64,
    pub behavior: u8,
    pub version_tag: u8,
    pub version_literal: SemverString,
}

/// The dependency record stored at `b[p..p + 26]`.
pub open spec fn dependency_at(b: Seq<u8>, p: int) -> DependencyExternal {
    DependencyExternal {
        name: handle_at(b, p),
        name_hash: le_u64(b, p + 8) as u64,
        behavior: b[p + 16],
        version_tag: b[p + 17],
        version_literal: handle_at(b, p + 18),
    }
}

pub fn read_dependency(b: &[u8], p: usize) -> (r: Option<DependencyExternal>)
    ensures
        fits(b@, p as int, DEPENDENCY_SIZE as int) ==> r == Some(dependency_at(b@, p as int)),
        !fits(b@, p as int, DEPENDENCY_SIZE as int) ==> r is None,
{
    if p > b.len() || b.len() - p < DEPENDENCY_SIZE {
        return None;
    }
    Some(
        DependencyExternal {
            name: read_handle(b, p).unwrap(),
            name_hash: read_u64(b, p + 8).unwrap(),
            behavior: b[p + 16],
            version_tag: b[p + 17],
            version_literal: read_handle(b, p + 18).unwrap(),
        },
    )
}

/// A window `{off, len}` into one of the buffers.
#[derive(Debug, Clone, Copy, PartialEq, Eq, Structural)]
pub struct ExternalSlice {
    pub off: u32,
    pub len: u32,
}

pub open spec fn external_slice_at(b: Seq<u8>, p: int) -> ExternalSlice {
    ExternalSlice { off: le_u32(b, p) as u32, len: le_u32(b, p + 4) as u32 }
}

pub fn read_external_slice(b: &[u8], p: usize) -> (r: Option<ExternalSlice>)
    ensures
        fits(b@, p as int, 8) ==> r == Some(external_slice_at(b@, p as int)),
        !fits(b@, p as int, 8) ==> r is None,
{
    if p > b.len() || b.len() - p < 8 {
        return None;
    }
    Some(ExternalSlice { off: read_u32(b, p).unwrap(), len: read_u32(b, p + 4).unwrap() })
}

/// True when the window lies inside a buffer of `n` items.
pub open spec fn slice_fits(s: ExternalSlice, n: int) -> bool {
    s.off + s.len <= n
}

pub open spec fn slice_of<T>(s: ExternalSlice, items: Seq<T>) -> Seq<T> {
    items.subrange(s.off as int, s.off + s.len)
}

/// The package index resolved for the `j`-th dependency: present only where
/// the resolution window has that position and it names a package.
pub open spec fn resolved_id(ids: Option<Seq<u32>>, j: int, n_pkgs: int) -> Option<u32> {
    match ids {
        Some(ids) => if j < ids.len() && ids[j] < n_pkgs {
            Some(ids[j])
        } else {
            None
        },
        None => None,
    }
}

pub open spec fn entry_model(d: DependencyExternal, heap: Seq<u8>, resolved: Option<u32>) -> Result<
    DependencyView,
    ParseError,
> {
    match handle_text(d.name.raw, heap) {
        Err(e) => Err(e),
        Ok(name) => match handle_text(d.version_literal.raw, heap) {
            Err(e) => Err(e),
            Ok(req) => Ok(
                DependencyView {
                    name,
                    req,
                    behavior: d.behavior & BEHAVIOR_MASK,
                    resolved_package_id: resolved,
                },
            ),
        },
    }
}

/// The first `j` entries of a dependency list, or the first error among them.
pub open spec fn entries_model(
    deps: Seq<DependencyExternal>,
    ids: Option<Seq<u32>>,
    heap: Seq<u8>,
    n_pkgs: int,
    j: nat,
) -> Result<Seq<DependencyView>, ParseError>
    decreases j,
{
    if j == 0 {
        Ok(Seq::empty())
    } else {
        match entries_model(deps, ids, heap, n_pkgs, (j - 1) as nat) {
            Err(e) => Err(e),
            Ok(prev) => match entry_model(
                deps[j - 1],
                heap,
                resolved_id(ids, j - 1, n_pkgs),
            ) {
                Err(e) => Err(e),
                Ok(d) => Ok(prev.push(d)),
            },
        }
    }
}

/// Once a prefix of the list fails, every longer prefix fails the same way.
pub proof fn lemma_entries_error_persists(
    deps: Seq<DependencyExternal>,
    ids: Option<Seq<u32>>,
    heap: Seq<u8>,
    n_pkgs: int,
    j: nat,
    k: nat,
)
    requires
        j <= k,
        entries_model(deps, ids, heap, n_pkgs, j) is Err,
    ensures
        entries_model(deps, ids, heap, n_pkgs, k) == entries_model(deps, ids, heap, n_pkgs, j),
    decreases k - j,
{
    if j < k {
        lemma_entries_error_persists(deps, ids, heap, n_pkgs, j, (k - 1) as nat);
    }
}

/// A successful list of the first `j` entries has `j` entries.
pub proof fn lemma_entries_len(
    deps: Seq<DependencyExternal>,
    ids: Option<Seq<u32>>,
    heap: Seq<u8>,
    n_pkgs: int,
    j: nat,
)
    ensures
        entries_model(deps, ids, heap, n_pkgs, j) matches Ok(s) ==> s.len() == j,
    decreases j,
{
    if j > 0 {
        lemma_entries_len(deps, ids, heap, n_pkgs, (j - 1) as nat);
    }
}

/// The dependency list of a package with windows `ds` and `rs`: empty when
/// `ds` lies outside the dependencies buffer.
pub open spec fn dependencies_model(
    ds: ExternalSlice,
    rs: ExternalSlice,
    deps_buf: Seq<DependencyExternal>,
    res_buf: Seq<u32>,
    heap: Seq<u8>,
    n_pkgs: int,
) -> Result<Seq<DependencyView>, ParseError> {
    if !slice_fits(ds, deps_buf.len() as int) {
        Ok(Seq::empty())
    } else {
        let ids = if slice_fits(rs, res_buf.len() as int) {
            Some(slice_of(rs, res_buf))
        } else {
            None
        };
        entries_model(slice_of(ds, deps_buf), ids, heap, n_pkgs, ds.len as nat)
    }
}

pub open spec fn deps_result_view(r: Result<Vec<DependencyEntry>, ParseError>) -> Result<
    Seq<DependencyView>,
    ParseError,
> {
    match r {
        Ok(v) => Ok(deps_view(v@)),
        Err(e) => Err(e),
    }
}

pub open spec fn ids_view(ids: Option<&[u32]>) -> Option<Seq<u32>> {
    match ids {
        Some(s) => Some(s@),
        None => None,
    }
}

/// Decodes each record of `deps`; the `j`-th takes its resolved package from
/// position `j` of `ids`.
pub fn decode_entries(
    deps: &[DependencyExternal],
    ids: Option<&[u32]>,
    strings: &[u8],
    package_count: usize,
) -> (r: Result<Vec<DependencyEntry>, ParseError>)
    ensures
        deps_result_view(r) == entries_model(
            deps@,
            ids_view(ids),
            strings@,
            package_count as int,
            deps@.len(),
        ),
{
    let mut out: Vec<DependencyEntry> = Vec::new();
    let n = deps.len();
    let mut j: usize = 0;
    assert(deps_view(out@) =~= Seq::<DependencyView>::empty());
    while j < n
        invariant
            j <= n,
            n == deps@.len(),
            entries_model(deps@, ids_view(ids), strings@, package_count as int, j as nat) == Ok::<
                Seq<DependencyView>,
                ParseError,
            >(deps_view(out@)),
        decreases n - j,
    {
        let d = deps[j];
        let name = match d.name.decode(strings) {
            Ok(s) => s,
            Err(e) => {
                proof {
                    lemma_entries_error_persists(
                        deps@,
                        ids_view(ids),
                        strings@,
                        package_count as int,
                        (j + 1) as nat,
                        n as nat,
                    );
                }
                return Err(e);
            },
        };
        let req = match d.version_literal.decode(strings) {
            Ok(s) => s,
            Err(e) => {
                proof {
                    lemma_entries_error_persists(
                        deps@,
                        ids_view(ids),
                        strings@,
                        package_count as int,
                        (j + 1) as nat,
                        n as nat,
                    );
                }
                return Err(e);
            },
        };
        let mut resolved: Option<u32> = None;
        if let Some(window) = ids {
            if j < window.len() {
                let id = window[j];
                if (id as usize) < package_count {
                    resolved = Some(id);
                }
            }
        }
        assert(resolved == resolved_id(ids_view(ids), j as int, package_count as int));
        let entry = DependencyEntry {
            name,
            req,
            behavior: BehaviorFlags::from_bits_truncate(d.behavior),
            resolved_package_id: resolved,
        };
        let ghost prev = out@;
        out.push(entry);
        proof {
            assert(deps_view(out@) =~= deps_view(prev).push(entry@));
        }
        j = j + 1;
    }
    Ok(out)
}

/// The dependency entries of one package.
pub fn gather_dependencies(
    dep_slice: &ExternalSlice,
    res_slice: &ExternalSlice,
    deps_buf: &[DependencyExternal],
    res_buf: &[u32],
    strings: &[u8],
    package_count: usize,
) -> (r: Result<Vec<DependencyEntry>, ParseError>)
    ensures
        deps_result_view(r) == dependencies_model(
            *dep_slice,
            *res_slice,
            deps_buf@,
            res_buf@,
            strings@,
            package_count as int,
        ),
{
    let dep_end = dep_slice.off as u64 + dep_slice.len as u64;
    if dep_end > deps_buf.len() as u64 {
        let out: Vec<DependencyEntry> = Vec::new();
        proof {
            assert(deps_view(out@) =~= Seq::<DependencyView>::empty());
        }
        return Ok(out);
    }
    let deps = vstd::slice::slice_subrange(deps_buf, dep_slice.off as usize, dep_end as usize);
    let res_end = res_slice.off as u64 + res_slice.len as u64;
    let ids = if res_end <= res_buf.len() as u64 {
        Some(vstd::slice::slice_subrange(res_buf, res_slice.off as usize, res_end as usize))
    } else {
        None
    };
    decode_entries(deps, ids, strings, package_count)
}

} // verus!
