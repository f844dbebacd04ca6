//! Assembles the package inventory: header, package columns, buffers,
//! sentinel, trailers, then one package per row of the table.

use vstd::prelude::*;
use crate::bytes::read_u64;
use crate::error::{ParseError, Warning};
use crate::layout::{
    buffers_error, buffers_reach, dep_records, parse_buffers, parse_header, read_meta_hash,
    res_records, sentinel_error, string_heap, header_model, Buffers, Header,
};
use crate::model::{
    packages_view, Lockfile, LockfileView, Package, PackageView, ResolutionKind, ResolutionView,
};
use crate::records::{
    decode_integrity, decode_resolution, dependencies_model, external_slice_at,
    gather_dependencies, integrity_text, read_external_slice, read_resolution, resolution_at,
    resolution_model, slice_fits, ExternalSlice, Resolution, META_INTEGRITY, META_SIZE,
    RESOLUTION_SIZE,
};
use crate::strings::{append_char, append_str, handle_at, handle_text, read_handle};
use crate::trailers::{empty_trailers, parse_trailers, trailers_model};

verus! {

/// Bytes per row of the seven mandatory columns: name, name hash,
/// resolution, dependency window, resolution window, meta, bin.
pub const ROW_SIZE: u64 = 212;

/// Bytes per row with the optional scripts column.
pub const ROW_SIZE_WITH_SCRIPTS: u64 = 263;

/// The column count that adds the scripts column.
pub const FIELD_COUNT_WITH_SCRIPTS: u64 = 8;

pub open spec fn row_size(h: Header) -> int {
    if h.table.field_count == FIELD_COUNT_WITH_SCRIPTS {
        ROW_SIZE_WITH_SCRIPTS as int
    } else {
        ROW_SIZE as int
    }
}

/// Where the columns stop: each column holds `len` items, back to back.
pub open spec fn columns_end(h: Header) -> int {
    h.table.begin + row_size(h) * h.table.len
}

pub open spec fn name_col(h: Header) -> int {
    h.table.begin as int
}

pub open spec fn resolution_col(h: Header) -> int {
    h.table.begin + 16 * h.table.len
}

pub open spec fn dep_slice_col(h: Header) -> int {
    h.table.begin + 88 * h.table.len
}

pub open spec fn res_slice_col(h: Header) -> int {
    h.table.begin + 96 * h.table.len
}

pub open spec fn meta_col(h: Header) -> int {
    h.table.begin + 104 * h.table.len
}

/// The registry or origin text of a resolution.
pub open spec fn registry_of(r: Option<ResolutionView>) -> Seq<char> {
    match r {
        None => Seq::empty(),
        Some(ResolutionView::Root) => seq!['r', 'o', 'o', 't'],
        Some(ResolutionView::Npm { registry, .. }) => registry,
        Some(ResolutionView::Git { repo, .. }) => repo,
        Some(ResolutionView::Github { owner, repo, .. }) => owner + seq!['/'] + repo,
        Some(ResolutionView::Folder { path }) => path,
        Some(ResolutionView::Symlink { path }) => path,
        Some(ResolutionView::Workspace { name }) => name,
        Some(ResolutionView::LocalTarball { path }) => path,
        Some(ResolutionView::RemoteTarball { url }) => url,
        Some(ResolutionView::SingleFileModule { url }) => url,
        Some(ResolutionView::Unknown(s)) => s,
    }
}

/// The version text of a resolution: only registry packages have one.
pub open spec fn version_of(r: Option<ResolutionView>) -> Seq<char> {
    match r {
        Some(ResolutionView::Npm { version, .. }) => version,
        _ => Seq::empty(),
    }
}

pub open spec fn resolution_or_unknown(r: Option<ResolutionView>) -> ResolutionView {
    match r {
        Some(v) => v,
        None => ResolutionView::Unknown(Seq::empty()),
    }
}

/// The warnings that package `i` raises, in order.
pub open spec fn package_warnings(
    res: Resolution,
    integrity_tag: u8,
    ds: ExternalSlice,
    rs: ExternalSlice,
    n_deps: int,
    n_res: int,
    i: int,
) -> Seq<Warning> {
    (match res {
        Resolution::Unknown(t) => seq![Warning::UnknownResolutionTag { package: i as u32, tag: t }],
        _ => Seq::empty(),
    }) + (if integrity_tag > 4 {
        seq![Warning::UnknownIntegrityTag { package: i as u32, tag: integrity_tag }]
    } else {
        Seq::empty()
    }) + (if !slice_fits(ds, n_deps) || !slice_fits(rs, n_res) {
        seq![Warning::DependencySliceOverflow { package: i as u32 }]
    } else {
        Seq::empty()
    }) + (if ds.len != 0 && rs.len != 0 && ds.len != rs.len {
        seq![Warning::LengthMismatchDepRes { package: i as u32, deps: ds.len, resolved: rs.len }]
    } else {
        Seq::empty()
    })
}

/// Package `i` of the table and its warnings, or the first hard error in
/// its name, resolution and dependencies.
#[verifier::opaque]
pub open spec fn package_model(b: Seq<u8>, h: Header, p: int, i: int) -> Result<
    (PackageView, Seq<Warning>),
    ParseError,
> {
    let heap = string_heap(b, p);
    let deps_buf = dep_records(b, p);
    let res_buf = res_records(b, p);
    let meta = meta_col(h) + META_SIZE * i;
    let tag = b[meta + META_INTEGRITY];
    let res = resolution_at(b, resolution_col(h) + RESOLUTION_SIZE * i);
    let ds = external_slice_at(b, dep_slice_col(h) + 8 * i);
    let rs = external_slice_at(b, res_slice_col(h) + 8 * i);
    match handle_text(handle_at(b, name_col(h) + 8 * i).raw, heap) {
        Err(e) => Err(e),
        Ok(name) => match resolution_model(res, heap) {
            Err(e) => Err(e),
            Ok(r) => match dependencies_model(
                ds,
                rs,
                deps_buf,
                res_buf,
                heap,
                h.table.len as int,
            ) {
                Err(e) => Err(e),
                Ok(deps) => Ok(
                    (
                        PackageView {
                            name,
                            version: version_of(r),
                            registry_url: registry_of(r),
                            integrity_hash: integrity_text(
                                tag,
                                b.subrange(meta + META_INTEGRITY + 1, meta + META_INTEGRITY + 65),
                            ),
                            resolution: resolution_or_unknown(r),
                            dependencies: deps,
                        },
                        package_warnings(
                            res,
                            tag,
                            ds,
                            rs,
                            deps_buf.len() as int,
                            res_buf.len() as int,
                            i,
                        ),
                    ),
                ),
            },
        },
    }
}

/// The first `k` packages and their warnings, or the first hard error.
pub open spec fn packages_model(b: Seq<u8>, h: Header, p: int, k: nat) -> Result<
    (Seq<PackageView>, Seq<Warning>),
    ParseError,
>
    decreases k,
{
    if k == 0 {
        Ok((Seq::empty(), Seq::empty()))
    } else {
        match packages_model(b, h, p, (k - 1) as nat) {
            Err(e) => Err(e),
            Ok((ps, ws)) => match package_model(b, h, p, k - 1) {
                Err(e) => Err(e),
                Ok((pv, pw)) => Ok((ps.push(pv), ws + pw)),
            },
        }
    }
}

pub proof fn lemma_packages_error_persists(b: Seq<u8>, h: Header, p: int, j: nat, k: nat)
    requires
        j <= k,
        packages_model(b, h, p, j) is Err,
    ensures
        packages_model(b, h, p, k) == packages_model(b, h, p, j),
    decreases k - j,
{
    if j < k {
        lemma_packages_error_persists(b, h, p, j, (k - 1) as nat);
    }
}

pub proof fn lemma_packages_len(b: Seq<u8>, h: Header, p: int, k: nat)
    ensures
        packages_model(b, h, p, k) matches Ok((ps, _)) ==> ps.len() == k,
    decreases k,
{
    if k > 0 {
        lemma_packages_len(b, h, p, (k - 1) as nat);
    }
}

pub open spec fn column_warnings(h: Header) -> Seq<Warning> {
    if columns_end(h) != h.table.end {
        seq![
            Warning::ColumnOverflow {
                expected_end: h.table.end,
                actual_end: columns_end(h) as u64,
            },
        ]
    } else {
        Seq::empty()
    }
}

/// The inventory and warnings that `b` decodes to, or the hard error that
/// stops it.
pub open spec fn decode_model(b: Seq<u8>) -> Result<(LockfileView, Seq<Warning>), ParseError> {
    match header_model(b) {
        Err(e) => Err(e),
        Ok(h) => if columns_end(h) > b.len() {
            Err(ParseError::Truncated)
        } else {
            let p = h.table.end as int;
            match buffers_error(b, p) {
                Some(e) => Err(e),
                None => {
                    let end_pos = buffers_reach(b, p, 6);
                    match sentinel_error(b, end_pos) {
                        Some(e) => Err(e),
                        None => {
                            let (tr, tw) = trailers_model(
                                b,
                                end_pos + 8,
                                h.total_size as int,
                                string_heap(b, p),
                                empty_trailers(),
                            );
                            match packages_model(b, h, p, h.table.len as nat) {
                                Err(e) => Err(e),
                                Ok((ps, pw)) => Ok(
                                    (
                                        LockfileView {
                                            format_version: h.format_version,
                                            meta_hash: b.subrange(46, 78),
                                            packages: ps,
                                            trailers: tr,
                                        },
                                        column_warnings(h) + tw + pw,
                                    ),
                                ),
                            }
                        },
                    }
                },
            }
        },
    }
}

pub open spec fn opt_resolution_view(r: Option<ResolutionKind>) -> Option<ResolutionView> {
    match r {
        Some(k) => Some(k@),
        None => None,
    }
}

fn version_text_of(r: &Option<ResolutionKind>) -> (s: String)
    ensures
        s@ == version_of(opt_resolution_view(*r)),
{
    match r {
        Some(ResolutionKind::Npm { version, .. }) => version.clone(),
        _ => String::new(),
    }
}

fn registry_text_of(r: &Option<ResolutionKind>) -> (s: String)
    ensures
        s@ == registry_of(opt_resolution_view(*r)),
{
    match r {
        None => String::new(),
        Some(ResolutionKind::Root) => {
            let mut s = String::new();
            append_str(&mut s, "root");
            proof {
                reveal_strlit("root");
                assert(s@ =~= seq!['r', 'o', 'o', 't']);
            }
            s
        },
        Some(ResolutionKind::Npm { registry, .. }) => registry.clone(),
        Some(ResolutionKind::Git { repo, .. }) => repo.clone(),
        Some(ResolutionKind::Github { owner, repo, .. }) => {
            let mut s = String::new();
            append_str(&mut s, owner.as_str());
            append_char(&mut s, '/');
            append_str(&mut s, repo.as_str());
            assert(s@ =~= owner@ + seq!['/'] + repo@);
            s
        },
        Some(ResolutionKind::Folder { path }) => path.clone(),
        Some(ResolutionKind::Symlink { path }) => path.clone(),
        Some(ResolutionKind::Workspace { name }) => name.clone(),
        Some(ResolutionKind::LocalTarball { path }) => path.clone(),
        Some(ResolutionKind::RemoteTarball { url }) => url.clone(),
        Some(ResolutionKind::SingleFileModule { url }) => url.clone(),
        Some(ResolutionKind::Unknown(s)) => s.clone(),
    }
}

/// The buffers that `parse_buffers` read at the end of the table of `h`.
pub open spec fn buffers_for(b: Seq<u8>, h: Header, bufs: Buffers) -> bool {
    let p = h.table.end as int;
    &&& bufs.dependencies@ == dep_records(b, p)
    &&& bufs.resolutions@ == res_records(b, p)
    &&& bufs.string_bytes@ == string_heap(b, p)
}

/// Decodes row `i` of the package table, appending its warnings.
fn decode_package(
    b: &[u8],
    h: &Header,
    bufs: &Buffers,
    i: usize,
    warnings: &mut Vec<Warning>,
) -> (r: Result<Package, ParseError>)
    requires
        columns_end(*h) <= b@.len(),
        i < h.table.len,
        buffers_for(b@, *h, *bufs),
    ensures
        match (r, package_model(b@, *h, h.table.end as int, i as int)) {
            (Ok(pkg), Ok((pv, pw))) => pkg@ == pv && final(warnings)@ == old(warnings)@ + pw,
            (Err(e), Err(e2)) => e == e2,
            _ => false,
        },
{
    reveal(package_model);
    let _len = b.len();
    assert(h.table.begin + 212 * h.table.len <= columns_end(*h)) by (nonlinear_arith)
        requires
            row_size(*h) >= 212,
            columns_end(*h) == h.table.begin + row_size(*h) * h.table.len,
    ;
    let n = h.table.len as usize;
    let begin = h.table.begin as usize;
    let heap = bufs.string_bytes.as_slice();
    let name = read_handle(b, begin + 8 * i).unwrap().decode(heap)?;
    let res = read_resolution(b, begin + 16 * n + RESOLUTION_SIZE * i).unwrap();
    let resolution = decode_resolution(&res, heap)?;
    let ds = read_external_slice(b, begin + 88 * n + 8 * i).unwrap();
    let rs = read_external_slice(b, begin + 96 * n + 8 * i).unwrap();
    let dependencies = gather_dependencies(
        &ds,
        &rs,
        bufs.dependencies.as_slice(),
        bufs.resolutions.as_slice(),
        heap,
        n,
    )?;
    let meta = begin + 104 * n + META_SIZE * i;
    let tag = b[meta + META_INTEGRITY];
    let digest = vstd::slice::slice_subrange(b, meta + META_INTEGRITY + 1, meta + META_INTEGRITY + 65);
    let integrity_hash = decode_integrity(tag, digest);
    let version = version_text_of(&resolution);
    let registry_url = registry_text_of(&resolution);
    let ghost rv = opt_resolution_view(resolution);
    let resolution = match resolution {
        Some(k) => k,
        None => ResolutionKind::Unknown(String::new()),
    };
    assert(resolution@ == resolution_or_unknown(rv));
    let ghost before = warnings@;
    let package = i as u32;
    if let Resolution::Unknown(t) = res {
        warnings.push(Warning::UnknownResolutionTag { package, tag: t });
    }
    if tag > 4 {
        warnings.push(Warning::UnknownIntegrityTag { package, tag });
    }
    let dep_fits = ds.off as u64 + ds.len as u64 <= bufs.dependencies.len() as u64;
    let res_fits = rs.off as u64 + rs.len as u64 <= bufs.resolutions.len() as u64;
    if !dep_fits || !res_fits {
        warnings.push(Warning::DependencySliceOverflow { package });
    }
    if ds.len != 0 && rs.len != 0 && ds.len != rs.len {
        warnings.push(Warning::LengthMismatchDepRes { package, deps: ds.len, resolved: rs.len });
    }
    assert(warnings@ =~= before + package_warnings(
        res,
        tag,
        ds,
        rs,
        bufs.dependencies@.len() as int,
        bufs.resolutions@.len() as int,
        i as int,
    ));
    Ok(Package { name, version, registry_url, integrity_hash, resolution, dependencies })
}

/// Decodes every row of the package table.
fn decode_packages(bytes: &[u8], h: &Header, bufs: &Buffers) -> (r: Result<
    (Vec<Package>, Vec<Warning>),
    ParseError,
>)
    requires
        columns_end(*h) <= bytes@.len(),
        buffers_for(bytes@, *h, *bufs),
    ensures
        match r {
            Ok((ps, ws)) => packages_model(bytes@, *h, h.table.end as int, h.table.len as nat)
                == Ok::<(Seq<PackageView>, Seq<Warning>), ParseError>(
                (packages_view(ps@), ws@),
            ),
            Err(e) => packages_model(bytes@, *h, h.table.end as int, h.table.len as nat) == Err::<
                (Seq<PackageView>, Seq<Warning>),
                ParseError,
            >(e),
        },
{
    let _len = bytes.len();
    assert(h.table.len <= columns_end(*h)) by (nonlinear_arith)
        requires
            row_size(*h) >= 212,
            columns_end(*h) == h.table.begin + row_size(*h) * h.table.len,
    ;
    let count = h.table.len as usize;
    let mut packages: Vec<Package> = Vec::new();
    let mut pw: Vec<Warning> = Vec::new();
    let mut i: usize = 0;
    assert(packages_view(packages@) =~= Seq::<PackageView>::empty());
    while i < count
        invariant
            i <= count,
            count == h.table.len,
            columns_end(*h) <= bytes@.len(),
            buffers_for(bytes@, *h, *bufs),
            packages_model(bytes@, *h, h.table.end as int, i as nat) == Ok::<
                (Seq<PackageView>, Seq<Warning>),
                ParseError,
            >((packages_view(packages@), pw@)),
        decreases count - i,
    {
        match decode_package(bytes, h, bufs, i, &mut pw) {
            Ok(pkg) => {
                let ghost prev = packages@;
                packages.push(pkg);
                assert(packages_view(packages@) =~= packages_view(prev).push(pkg@));
            },
            Err(e) => {
                proof {
                    lemma_packages_error_persists(
                        bytes@,
                        *h,
                        h.table.end as int,
                        (i + 1) as nat,
                        count as nat,
                    );
                }
                return Err(e);
            },
        }
        i = i + 1;
    }
    Ok((packages, pw))
}

/// A decode result with its values seen as mathematical ones.
pub open spec fn result_view(r: Result<(Lockfile, Vec<Warning>), ParseError>) -> Result<
    (LockfileView, Seq<Warning>),
    ParseError,
> {
    match r {
        Ok((lf, ws)) => Ok((lf@, ws@)),
        Err(e) => Err(e),
    }
}

/// Decodes a lockfile held in memory, with the warnings for the anomalies
/// that it repaired, in the order in which they were met.
pub fn decode_with_warnings(bytes: &[u8]) -> (r: Result<(Lockfile, Vec<Warning>), ParseError>)
    ensures
        result_view(r) == decode_model(bytes@),
{
    let n = bytes.len();
    let h = parse_header(bytes)?;
    let row: u64 = if h.table.field_count == FIELD_COUNT_WITH_SCRIPTS {
        ROW_SIZE_WITH_SCRIPTS
    } else {
        ROW_SIZE
    };
    assert(row as u128 * h.table.len as u128 <= ROW_SIZE_WITH_SCRIPTS * 0x1_0000_0000_0000_0000)
        by (nonlinear_arith)
        requires
            row <= ROW_SIZE_WITH_SCRIPTS,
            h.table.len < 0x1_0000_0000_0000_0000,
    ;
    let cols_end: u128 = h.table.begin as u128 + row as u128 * h.table.len as u128;
    assert(cols_end == columns_end(h));
    if cols_end > n as u128 {
        return Err(ParseError::Truncated);
    }
    let p = h.table.end as usize;
    let bufs = parse_buffers(bytes, p)?;
    let end_pos = bufs.end_pos;
    match read_u64(bytes, end_pos) {
        None => return Err(ParseError::Truncated),
        Some(s) => if s != 0 {
            return Err(ParseError::CorruptSentinel);
        },
    }
    let mut warnings: Vec<Warning> = Vec::new();
    if cols_end as u64 != h.table.end {
        warnings.push(
            Warning::ColumnOverflow { expected_end: h.table.end, actual_end: cols_end as u64 },
        );
    }
    assert(warnings@ =~= column_warnings(h));
    let (trailers, mut tw) = parse_trailers(
        bytes,
        end_pos + 8,
        h.total_size as usize,
        bufs.string_bytes.as_slice(),
    );
    warnings.append(&mut tw);
    let meta_hash = read_meta_hash(bytes);
    let (packages, mut pw) = decode_packages(bytes, &h, &bufs)?;
    warnings.append(&mut pw);
    let lf = Lockfile { format_version: h.format_version, meta_hash, packages, trailers };
    Ok((lf, warnings))
}

/// Decodes a lockfile held in memory.
pub fn decode(bytes: &[u8]) -> (r: Result<Lockfile, ParseError>)
    ensures
        match r {
            Ok(lf) => decode_model(bytes@) matches Ok((v, _)) && lf@ == v,
            Err(e) => decode_model(bytes@) == Err::<(LockfileView, Seq<Warning>), ParseError>(e),
        },
{
    match decode_with_warnings(bytes) {
        Ok((lf, _)) => Ok(lf),
        Err(e) => Err(e),
    }
}

} // verus!
