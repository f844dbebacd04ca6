//! Properties that hold of every decode.

use vstd::prelude::*;
use vstd::utf8::{decode_utf8, valid_utf8};
use crate::error::{ParseError, Warning};
use crate::layout::{buffers_error, buffers_reach, header_model, sentinel_error, table_at};
use crate::model::{DependencyView, Lockfile, TrailerView, BEHAVIOR_MASK};
use crate::parser::{
    columns_end, decode_model, lemma_packages_len, package_model, packages_model, result_view,
};
use crate::records::{
    base64_no_pad, dependencies_model, entries_model, entry_model, integrity_text,
    DependencyExternal,
};
use crate::strings::handle_text;
use crate::trailers::{trailer_step, trailers_model, Step};

verus! {

/// A decoded inventory has one package per row of the package table.
pub proof fn lemma_package_count(b: Seq<u8>)
    requires
        decode_model(b) is Ok,
    ensures
        decode_model(b) matches Ok((lf, _)) && lf.packages.len() == table_at(b).len,
{
    reveal(header_model);
    let h = header_model(b)->Ok_0;
    lemma_packages_len(b, h, h.table.end as int, h.table.len as nat);
}

/// An absent index, or one below `n`.
pub open spec fn id_below(r: Option<u32>, n: int) -> bool {
    match r {
        Some(id) => id < n,
        None => true,
    }
}

pub open spec fn ids_below(ds: Seq<DependencyView>, n: int) -> bool {
    forall|j: int| 0 <= j < ds.len() ==> id_below((#[trigger] ds[j]).resolved_package_id, n)
}

proof fn lemma_entries_ids_below(
    deps: Seq<DependencyExternal>,
    ids: Option<Seq<u32>>,
    heap: Seq<u8>,
    n: int,
    j: nat,
)
    ensures
        entries_model(deps, ids, heap, n, j) matches Ok(ds) ==> ids_below(ds, n),
    decreases j,
{
    if j > 0 {
        lemma_entries_ids_below(deps, ids, heap, n, (j - 1) as nat);
    }
}

proof fn lemma_packages_ids_below(b: Seq<u8>, h: crate::layout::Header, p: int, k: nat)
    ensures
        packages_model(b, h, p, k) matches Ok((ps, _)) ==> forall|i: int|
            0 <= i < ps.len() ==> ids_below(#[trigger] ps[i].dependencies, h.table.len as int),
    decreases k,
{
    if k > 0 {
        lemma_packages_ids_below(b, h, p, (k - 1) as nat);
        reveal(package_model);
        let i = k - 1;
        let heap = crate::layout::string_heap(b, p);
        let deps_buf = crate::layout::dep_records(b, p);
        let res_buf = crate::layout::res_records(b, p);
        let ds = crate::records::external_slice_at(b, crate::parser::dep_slice_col(h) + 8 * i);
        let rs = crate::records::external_slice_at(b, crate::parser::res_slice_col(h) + 8 * i);
        if crate::records::slice_fits(ds, deps_buf.len() as int) {
            let ids = if crate::records::slice_fits(rs, res_buf.len() as int) {
                Some(crate::records::slice_of(rs, res_buf))
            } else {
                None
            };
            lemma_entries_ids_below(
                crate::records::slice_of(ds, deps_buf),
                ids,
                heap,
                h.table.len as int,
                ds.len as nat,
            );
        } else {
            assert(dependencies_model(ds, rs, deps_buf, res_buf, heap, h.table.len as int) == Ok::<
                Seq<DependencyView>,
                ParseError,
            >(Seq::empty()));
        }
    }
}

/// Every resolved package index of a decoded inventory names one of its
/// packages.
pub proof fn lemma_resolved_ids_in_range(b: Seq<u8>)
    requires
        decode_model(b) is Ok,
    ensures
        decode_model(b) matches Ok((lf, _)) && forall|i: int, j: int|
            0 <= i < lf.packages.len() && 0 <= j < lf.packages[i].dependencies.len() ==> id_below(
                (#[trigger] lf.packages[i].dependencies[j]).resolved_package_id,
                lf.packages.len() as int,
            ),
{
    lemma_package_count(b);
    reveal(header_model);
    let h = header_model(b)->Ok_0;
    lemma_packages_ids_below(b, h, h.table.end as int, h.table.len as nat);
    let lf = decode_model(b)->Ok_0.0;
    assert forall|i: int, j: int|
        0 <= i < lf.packages.len() && 0 <= j < lf.packages[i].dependencies.len() implies id_below(
        (#[trigger] lf.packages[i].dependencies[j]).resolved_package_id,
        lf.packages.len() as int,
    ) by {
        assert(ids_below(lf.packages[i].dependencies, h.table.len as int));
    }
}

/// Text decoded from a handle is the decoding of well-formed UTF-8 bytes.
pub proof fn lemma_text_is_utf8(raw: u64, heap: Seq<u8>)
    ensures
        handle_text(raw, heap) matches Ok(t) ==> exists|bs: Seq<u8>|
            valid_utf8(bs) && decode_utf8(bs) == t,
{
    if let Ok(t) = handle_text(raw, heap) {
        let bs = crate::strings::handle_bytes(raw, heap)->Some_0;
        assert(valid_utf8(bs) && decode_utf8(bs) == t);
    }
}

/// Two decodes of the same bytes agree, inventory and warnings alike: any
/// two results that `decode_with_warnings` may return for `b` are equal.
pub proof fn lemma_decode_deterministic(
    b: Seq<u8>,
    r1: Result<(Lockfile, Vec<Warning>), ParseError>,
    r2: Result<(Lockfile, Vec<Warning>), ParseError>,
)
    requires
        result_view(r1) == decode_model(b),
        result_view(r2) == decode_model(b),
    ensures
        result_view(r1) == result_view(r2),
{
}

/// Integrity tags 1 to 4 render as `sha1-`, `sha256-`, `sha384-`, `sha512-`
/// followed by the unpadded Base64 of the first 20, 32, 48 or 64 digest
/// bytes.
pub proof fn lemma_integrity_rendering(tag: u8, value: Seq<u8>)
    requires
        1 <= tag <= 4,
        value.len() == 64,
    ensures
        tag == 1 ==> integrity_text(tag, value) == Some(
            seq!['s', 'h', 'a', '1', '-'] + base64_no_pad(value.take(20)),
        ),
        tag == 2 ==> integrity_text(tag, value) == Some(
            seq!['s', 'h', 'a', '2', '5', '6', '-'] + base64_no_pad(value.take(32)),
        ),
        tag == 3 ==> integrity_text(tag, value) == Some(
            seq!['s', 'h', 'a', '3', '8', '4', '-'] + base64_no_pad(value.take(48)),
        ),
        tag == 4 ==> integrity_text(tag, value) == Some(
            seq!['s', 'h', 'a', '5', '1', '2', '-'] + base64_no_pad(value.take(64)),
        ),
{
}

/// Behavior bits outside the known ones change nothing in the decoded
/// dependency: the record decodes as it would without them.
pub proof fn lemma_unknown_behavior_bits_dropped(
    d: DependencyExternal,
    unknown: u8,
    heap: Seq<u8>,
    resolved: Option<u32>,
)
    requires
        unknown & BEHAVIOR_MASK == 0,
    ensures
        entry_model(DependencyExternal { behavior: d.behavior | unknown, ..d }, heap, resolved)
            == entry_model(d, heap, resolved),
{
    let b = d.behavior;
    assert((b | unknown) & 0x7e == b & 0x7e) by (bit_vector)
        requires
            unknown & 0x7e == 0,
    ;
}

/// The trailer stream yields at most one warning, and only of the two
/// trailer kinds: it never fails.
pub proof fn lemma_trailer_warnings(
    b: Seq<u8>,
    pos: int,
    total: int,
    heap: Seq<u8>,
    info: TrailerView,
)
    ensures
        trailers_model(b, pos, total, heap, info).1.len() <= 1,
        forall|k: int|
            0 <= k < trailers_model(b, pos, total, heap, info).1.len() ==> {
                ||| #[trigger] trailers_model(b, pos, total, heap, info).1[k] is TrailerTruncated
                ||| trailers_model(b, pos, total, heap, info).1[k] is TrailerUnknownTag
            },
    decreases total - pos,
{
    if pos + 8 <= total {
        match trailer_step(b, pos, total, heap, info) {
            Step::Continue { next, info: next_info } => {
                if next > pos {
                    lemma_trailer_warnings(b, next, total, heap, next_info);
                }
            },
            Step::Stop { .. } => {},
        }
    }
}

/// The hard error of a decode, found without looking at the trailers.
pub open spec fn decode_error(b: Seq<u8>) -> Option<ParseError> {
    match header_model(b) {
        Err(e) => Some(e),
        Ok(h) => if columns_end(h) > b.len() {
            Some(ParseError::Truncated)
        } else {
            let p = h.table.end as int;
            match buffers_error(b, p) {
                Some(e) => Some(e),
                None => match sentinel_error(b, buffers_reach(b, p, 6)) {
                    Some(e) => Some(e),
                    None => match packages_model(b, h, p, h.table.len as nat) {
                        Err(e) => Some(e),
                        Ok(_) => None,
                    },
                },
            }
        },
    }
}

/// Trailers never cause a hard error: a decode fails exactly when
/// `decode_error`, which reads no trailer, says so.
pub proof fn lemma_trailers_never_fail(b: Seq<u8>)
    ensures
        match decode_model(b) {
            Ok(_) => decode_error(b) is None,
            Err(e) => decode_error(b) == Some(e),
        },
{
}

} // verus!
