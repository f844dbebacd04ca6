//! The optional trailer stream: 8-byte ASCII tags, each followed by its
//! payload. Unknown tags and damaged payloads end the stream with a warning.

use vstd::prelude::*;
use crate::bytes::{le_u32, le_u64, read_u32, read_u64};
use crate::error::{ParseError, Warning};
use crate::layout::read_dependency_records;
use crate::strings::{handle_text, SemverString};
use crate::model::{
    deps_view, DependencyView, OverrideEntry, OverrideView, PatchedEntry, PatchedView, TrailerInfo,
    TrailerView,
};
use crate::records::{lemma_entries_len, decode_entries, dependency_at, entries_model, DependencyExternal, DEPENDENCY_SIZE};

verus! {

/// `wOrKsPaC`
pub const TAG_WORKSPACES: u64 = 0x436150734b724f77;

/// `tRuStEDd`
pub const TAG_TRUSTED: u64 = 0x6444457453755274;

/// `eMpTrUsT`
pub const TAG_EMPTY_TRUSTED: u64 = 0x5473557254704d65;

/// `oVeRriDs`
pub const TAG_OVERRIDES: u64 = 0x734469725265566f;

/// `pAtChEdD`
pub const TAG_PATCHED: u64 = 0x4464456843744170;

/// `cAtAlOgS`
pub const TAG_CATALOGS: u64 = 0x53674f6c41744163;

/// `cNfGvRsN`
pub const TAG_CONFIG_VERSION: u64 = 0x4e73527647664e63;

/// The array pointer pair at `c`: `(begin, end)` lie after the pair, in
/// order, and inside the first `total` bytes.
pub open spec fn array_ok(b: Seq<u8>, c: int, total: int) -> bool {
    &&& c + 16 <= total
    &&& c + 16 <= le_u64(b, c) <= le_u64(b, c + 8) <= total
}

pub open spec fn array_begin(b: Seq<u8>, c: int) -> int {
    le_u64(b, c)
}

pub open spec fn array_end(b: Seq<u8>, c: int) -> int {
    le_u64(b, c + 8)
}

pub open spec fn u32_items(b: Seq<u8>, s: int, e: int) -> Seq<u32> {
    Seq::new(((e - s) / 4) as nat, |i: int| le_u32(b, s + 4 * i) as u32)
}

pub open spec fn u64_items(b: Seq<u8>, s: int, e: int) -> Seq<u64> {
    Seq::new(((e - s) / 8) as nat, |i: int| le_u64(b, s + 8 * i) as u64)
}

pub open spec fn dep_items(b: Seq<u8>, s: int, e: int) -> Seq<DependencyExternal> {
    Seq::new(((e - s) / DEPENDENCY_SIZE as int) as nat, |i: int| dependency_at(b, s + DEPENDENCY_SIZE * i))
}

pub open spec fn min_nat(a: nat, b: nat) -> nat {
    if a <= b {
        a
    } else {
        b
    }
}

/// The override list of hash array at `c0` and dependency array at `c1`,
/// paired up position by position.
pub open spec fn overrides_model(b: Seq<u8>, c0: int, c1: int, heap: Seq<u8>) -> Result<
    Seq<OverrideView>,
    ParseError,
> {
    let hashes = u64_items(b, array_begin(b, c0), array_end(b, c0));
    let deps = dep_items(b, array_begin(b, c1), array_end(b, c1));
    let n = min_nat(hashes.len(), deps.len());
    match entries_model(deps.take(n as int), None, heap, 0, n) {
        Err(e) => Err(e),
        Ok(ds) => Ok(
            Seq::new(n, |i: int| OverrideView { name_hash: hashes[i], dependency: ds[i] }),
        ),
    }
}

/// Size of a patched-package record: path handle, a flag that is set when
/// no patch hash is recorded, 7 bytes of padding, the patch hash.
pub const PATCHED_SIZE: usize = 24;

/// The patched entry whose record stands at `q`, with name hash `hash`.
pub open spec fn patched_entry(b: Seq<u8>, q: int, hash: u64, heap: Seq<u8>) -> Result<
    PatchedView,
    ParseError,
> {
    match handle_text(le_u64(b, q) as u64, heap) {
        Err(e) => Err(e),
        Ok(path) => Ok(
            PatchedView {
                name_version_hash: hash,
                path,
                patch_hash: if b[q + 8] != 0 {
                    None
                } else {
                    Some(le_u64(b, q + 16) as u64)
                },
            },
        ),
    }
}

/// The first `j` patched entries of records from `s`, or the first error.
pub open spec fn patched_model(b: Seq<u8>, hashes: Seq<u64>, s: int, heap: Seq<u8>, j: nat) -> Result<
    Seq<PatchedView>,
    ParseError,
>
    decreases j,
{
    if j == 0 {
        Ok(Seq::empty())
    } else {
        match patched_model(b, hashes, s, heap, (j - 1) as nat) {
            Err(e) => Err(e),
            Ok(prev) => match patched_entry(
                b,
                s + PATCHED_SIZE * (j - 1),
                hashes[j - 1],
                heap,
            ) {
                Err(e) => Err(e),
                Ok(p) => Ok(prev.push(p)),
            },
        }
    }
}

proof fn lemma_patched_error_persists(
    b: Seq<u8>,
    hashes: Seq<u64>,
    s: int,
    heap: Seq<u8>,
    j: nat,
    k: nat,
)
    requires
        j <= k,
        patched_model(b, hashes, s, heap, j) is Err,
    ensures
        patched_model(b, hashes, s, heap, k) == patched_model(b, hashes, s, heap, j),
    decreases k - j,
{
    if j < k {
        lemma_patched_error_persists(b, hashes, s, heap, j, (k - 1) as nat);
    }
}

/// How many patched entries the arrays at `c0` and `c1` hold.
pub open spec fn patched_count(b: Seq<u8>, c0: int, c1: int) -> nat {
    min_nat(
        ((array_end(b, c0) - array_begin(b, c0)) / 8) as nat,
        ((array_end(b, c1) - array_begin(b, c1)) / PATCHED_SIZE as int) as nat,
    )
}

/// What one section does to the trailer information.
pub enum Step {
    /// The section was read; the next one starts at `next`.
    Continue { next: int, info: TrailerView },
    /// The stream ends here.
    Stop { info: TrailerView, warning: Option<Warning> },
}

pub open spec fn truncated(info: TrailerView, pos: int) -> Step {
    Step::Stop { info, warning: Some(Warning::TrailerTruncated { position: pos as u64 }) }
}

/// The section whose tag stands at `pos`.
pub open spec fn trailer_step(
    b: Seq<u8>,
    pos: int,
    total: int,
    heap: Seq<u8>,
    info: TrailerView,
) -> Step {
    let tag = le_u64(b, pos);
    let c = pos + 8;
    if tag == TAG_WORKSPACES {
        let c1 = array_end(b, c);
        let c2 = array_end(b, c1);
        let c3 = array_end(b, c2);
        if array_ok(b, c, total) && array_ok(b, c1, total) && array_ok(b, c2, total)
            && array_ok(b, c3, total) {
            Step::Continue {
                next: array_end(b, c3),
                info: TrailerView {
                    workspaces_count: ((array_end(b, c3) - array_begin(b, c3)) / 8) as nat,
                    ..info
                },
            }
        } else {
            truncated(info, pos)
        }
    } else if tag == TAG_TRUSTED {
        if array_ok(b, c, total) {
            Step::Continue {
                next: array_end(b, c),
                info: TrailerView {
                    trusted_hashes: u32_items(b, array_begin(b, c), array_end(b, c)),
                    ..info
                },
            }
        } else {
            truncated(info, pos)
        }
    } else if tag == TAG_EMPTY_TRUSTED {
        Step::Continue { next: c, info: TrailerView { has_empty_trusted: true, ..info } }
    } else if tag == TAG_OVERRIDES {
        let c1 = array_end(b, c);
        if array_ok(b, c, total) && array_ok(b, c1, total) {
            match overrides_model(b, c, c1, heap) {
                Ok(o) => Step::Continue {
                    next: array_end(b, c1),
                    info: TrailerView { overrides: o, ..info },
                },
                Err(_) => truncated(info, pos),
            }
        } else {
            truncated(info, pos)
        }
    } else if tag == TAG_PATCHED {
        let c1 = array_end(b, c);
        if array_ok(b, c, total) && array_ok(b, c1, total) {
            match patched_model(
                b,
                u64_items(b, array_begin(b, c), array_end(b, c)),
                array_begin(b, c1),
                heap,
                patched_count(b, c, c1),
            ) {
                Ok(ps) => Step::Continue {
                    next: array_end(b, c1),
                    info: TrailerView { patched: ps, ..info },
                },
                Err(_) => truncated(info, pos),
            }
        } else {
            truncated(info, pos)
        }
    } else if tag == TAG_CATALOGS {
        let c1 = array_end(b, c);
        let c2 = array_end(b, c1);
        if array_ok(b, c, total) && array_ok(b, c1, total) && array_ok(b, c2, total) {
            let deps = dep_items(b, array_begin(b, c1), array_end(b, c1));
            match entries_model(deps, None, heap, 0, deps.len()) {
                Ok(ds) => Step::Stop { info: TrailerView { default_catalog: ds, ..info }, warning: None },
                Err(_) => truncated(info, pos),
            }
        } else {
            truncated(info, pos)
        }
    } else if tag == TAG_CONFIG_VERSION {
        if c + 8 <= total {
            Step::Continue { next: c + 8, info }
        } else {
            truncated(info, pos)
        }
    } else {
        Step::Stop {
            info,
            warning: Some(Warning::TrailerUnknownTag { position: pos as u64, tag: tag as u64 }),
        }
    }
}

/// The trailer information and warnings of the sections from `pos` up to
/// `total`, starting from `info`.
pub open spec fn trailers_model(
    b: Seq<u8>,
    pos: int,
    total: int,
    heap: Seq<u8>,
    info: TrailerView,
) -> (TrailerView, Seq<Warning>)
    decreases total - pos,
{
    if pos + 8 > total {
        (info, Seq::empty())
    } else {
        match trailer_step(b, pos, total, heap, info) {
            Step::Continue { next, info: next_info } => if next > pos {
                trailers_model(b, next, total, heap, next_info)
            } else {
                (next_info, Seq::empty())
            },
            Step::Stop { info: last, warning } => match warning {
                Some(w) => (last, seq![w]),
                None => (last, Seq::empty()),
            },
        }
    }
}

pub open spec fn empty_trailers() -> TrailerView {
    TrailerView {
        trusted_hashes: Seq::empty(),
        has_empty_trusted: false,
        overrides: Seq::empty(),
        patched: Seq::empty(),
        n_catalogs: 0,
        default_catalog: Seq::empty(),
        workspaces_count: 0,
    }
}

/// Trailer information with nothing in it.
pub fn new_trailer_info() -> (r: TrailerInfo)
    ensures
        r@ == empty_trailers(),
{
    let r = TrailerInfo {
        trusted_hashes: Vec::new(),
        has_empty_trusted: false,
        overrides: Vec::new(),
        patched: Vec::new(),
        catalogs: Vec::new(),
        default_catalog: Vec::new(),
        workspaces_count: 0,
    };
    proof {
        assert(r@.overrides =~= Seq::<OverrideView>::empty());
        assert(r@.default_catalog =~= Seq::<DependencyView>::empty());
        assert(r@.patched =~= Seq::<PatchedView>::empty());
    }
    r
}

/// Reads the array pointer pair at `c`; `None` when it breaks `array_ok`.
pub fn skip_array(b: &[u8], c: usize, total: usize) -> (r: Option<(usize, usize)>)
    requires
        total <= b@.len(),
    ensures
        r is Some <==> array_ok(b@, c as int, total as int),
        r matches Some((s, e)) ==> s == array_begin(b@, c as int) && e == array_end(b@, c as int),
{
    if c > total || total - c < 16 {
        return None;
    }
    let s = read_u64(b, c).unwrap();
    let e = read_u64(b, c + 8).unwrap();
    if s < (c + 16) as u64 || s > e || e > total as u64 {
        return None;
    }
    Some((s as usize, e as usize))
}

fn read_u32_items(b: &[u8], s: usize, e: usize) -> (r: Vec<u32>)
    requires
        s <= e <= b@.len(),
    ensures
        r@ == u32_items(b@, s as int, e as int),
{
    let count = (e - s) / 4;
    let n = b.len();
    let mut v: Vec<u32> = Vec::new();
    let mut i: usize = 0;
    while i < count
        invariant
            i <= count,
            count == (e - s) / 4,
            s <= e <= b@.len(),
            n == b@.len(),
            v@ == Seq::new(i as nat, |t: int| le_u32(b@, s + 4 * t) as u32),
        decreases count - i,
    {
        assert(s + 4 * i + 4 <= e) by (nonlinear_arith)
            requires
                i < count,
                count == (e - s) / 4,
                s <= e,
        ;
        v.push(read_u32(b, s + 4 * i).unwrap());
        i = i + 1;
        assert(v@ =~= Seq::new(i as nat, |t: int| le_u32(b@, s + 4 * t) as u32));
    }
    v
}

fn read_u64_items(b: &[u8], s: usize, e: usize) -> (r: Vec<u64>)
    requires
        s <= e <= b@.len(),
    ensures
        r@ == u64_items(b@, s as int, e as int),
{
    let count = (e - s) / 8;
    let n = b.len();
    let mut v: Vec<u64> = Vec::new();
    let mut i: usize = 0;
    while i < count
        invariant
            i <= count,
            count == (e - s) / 8,
            s <= e <= b@.len(),
            n == b@.len(),
            v@ == Seq::new(i as nat, |t: int| le_u64(b@, s + 8 * t) as u64),
        decreases count - i,
    {
        assert(s + 8 * i + 8 <= e) by (nonlinear_arith)
            requires
                i < count,
                count == (e - s) / 8,
                s <= e,
        ;
        v.push(read_u64(b, s + 8 * i).unwrap());
        i = i + 1;
        assert(v@ =~= Seq::new(i as nat, |t: int| le_u64(b@, s + 8 * t) as u64));
    }
    v
}

fn read_dep_items(b: &[u8], s: usize, e: usize) -> (r: Vec<DependencyExternal>)
    requires
        s <= e <= b@.len(),
    ensures
        r@ == dep_items(b@, s as int, e as int),
{
    let count = (e - s) / DEPENDENCY_SIZE;
    assert(s + DEPENDENCY_SIZE * count <= e) by (nonlinear_arith)
        requires
            count == (e - s) / 26,
            s <= e,
    ;
    let r = read_dependency_records(b, s, count);
    assert(r@ =~= dep_items(b@, s as int, e as int));
    r
}

fn decode_overrides(b: &[u8], s0: usize, e0: usize, s1: usize, e1: usize, heap: &[u8]) -> (r:
    Option<Vec<OverrideEntry>>)
    requires
        s0 <= e0 <= b@.len(),
        s1 <= e1 <= b@.len(),
    ensures
        match r {
            Some(v) => {
                let hashes = u64_items(b@, s0 as int, e0 as int);
                let deps = dep_items(b@, s1 as int, e1 as int);
                let n = min_nat(hashes.len(), deps.len());
                &&& entries_model(deps.take(n as int), None, heap@, 0, n) matches Ok(ds)
                &&& v@.map_values(|o: OverrideEntry| o@) == Seq::new(
                    n,
                    |i: int| OverrideView { name_hash: hashes[i], dependency: ds[i] },
                )
            },
            None => {
                let hashes = u64_items(b@, s0 as int, e0 as int);
                let deps = dep_items(b@, s1 as int, e1 as int);
                let n = min_nat(hashes.len(), deps.len());
                entries_model(deps.take(n as int), None, heap@, 0, n) is Err
            },
        },
{
    let hashes = read_u64_items(b, s0, e0);
    let recs = read_dep_items(b, s1, e1);
    let n = if hashes.len() <= recs.len() {
        hashes.len()
    } else {
        recs.len()
    };
    let part = vstd::slice::slice_subrange(recs.as_slice(), 0, n);
    assert(part@ =~= recs@.take(n as int));
    let mut ds = match decode_entries(part, None, heap, 0) {
        Ok(ds) => ds,
        Err(_) => return None,
    };
    let ghost dsv = deps_view(ds@);
    proof {
        lemma_entries_len(part@, None, heap@, 0, n as nat);
    }
    let mut out: Vec<OverrideEntry> = Vec::new();
    let mut i: usize = 0;
    assert(deps_view(ds@).subrange(0, n as int) =~= dsv);
    while i < n
        invariant
            i <= n,
            n <= hashes@.len(),
            dsv.len() == n,
            deps_view(ds@) == dsv.subrange(i as int, n as int),
            out@.len() == i,
            forall|t: int|
                0 <= t < i ==> (#[trigger] out@[t])@ == (OverrideView {
                    name_hash: hashes@[t],
                    dependency: dsv[t],
                }),
        decreases n - i,
    {
        let ghost before = ds@;
        assert(deps_view(ds@).len() == ds@.len());
        assert(ds@.len() == n - i);
        let d = ds.remove(0);
        assert(d@ == deps_view(before)[0]);
        assert forall|k: int| 0 <= k < ds@.len() implies deps_view(ds@)[k] == dsv[i + 1 + k] by {
            assert(ds@[k] == before[k + 1]);
            assert(deps_view(before)[k + 1] == dsv[i + 1 + k]);
        }
        assert(deps_view(ds@) =~= dsv.subrange(i + 1, n as int));
        out.push(OverrideEntry { name_hash: hashes[i], dependency: d });
        i = i + 1;
    }
    assert(out@.map_values(|o: OverrideEntry| o@) =~= Seq::new(
        n as nat,
        |t: int| OverrideView { name_hash: hashes@[t], dependency: dsv[t] },
    ));
    Some(out)
}

fn decode_patched(b: &[u8], s0: usize, e0: usize, s1: usize, e1: usize, heap: &[u8]) -> (r:
    Option<Vec<PatchedEntry>>)
    requires
        s0 <= e0 <= b@.len(),
        s1 <= e1 <= b@.len(),
    ensures
        ({
            let hashes = u64_items(b@, s0 as int, e0 as int);
            let n = min_nat(hashes.len(), ((e1 - s1) / PATCHED_SIZE as int) as nat);
            match r {
                Some(v) => patched_model(b@, hashes, s1 as int, heap@, n) == Ok::<
                    Seq<PatchedView>,
                    ParseError,
                >(v@.map_values(|p: PatchedEntry| p@)),
                None => patched_model(b@, hashes, s1 as int, heap@, n) is Err,
            }
        }),
{
    let hashes = read_u64_items(b, s0, e0);
    let records = (e1 - s1) / PATCHED_SIZE;
    let n = if hashes.len() <= records {
        hashes.len()
    } else {
        records
    };
    assert(s1 + PATCHED_SIZE * n <= e1) by (nonlinear_arith)
        requires
            n <= records,
            records == (e1 - s1) / 24,
            s1 <= e1,
    ;
    let mut out: Vec<PatchedEntry> = Vec::new();
    let mut i: usize = 0;
    assert(out@.map_values(|p: PatchedEntry| p@) =~= Seq::<PatchedView>::empty());
    while i < n
        invariant
            i <= n,
            n <= hashes@.len(),
            n == min_nat(hashes@.len(), ((e1 - s1) / PATCHED_SIZE as int) as nat),
            s1 + PATCHED_SIZE * n <= e1 <= b@.len(),
            hashes@ == u64_items(b@, s0 as int, e0 as int),
            patched_model(b@, hashes@, s1 as int, heap@, i as nat) == Ok::<
                Seq<PatchedView>,
                ParseError,
            >(out@.map_values(|p: PatchedEntry| p@)),
        decreases n - i,
    {
        assert(s1 + PATCHED_SIZE * i + PATCHED_SIZE <= s1 + PATCHED_SIZE * n) by (nonlinear_arith)
            requires
                i < n,
        ;
        let q = s1 + PATCHED_SIZE * i;
        let handle = SemverString { raw: read_u64(b, q).unwrap() };
        let path = match handle.decode(heap) {
            Ok(p) => p,
            Err(_) => {
                proof {
                    assert(patched_entry(b@, q as int, hashes@[i as int], heap@) is Err);
                    assert(patched_model(b@, hashes@, s1 as int, heap@, (i + 1) as nat) is Err);
                    lemma_patched_error_persists(
                        b@,
                        hashes@,
                        s1 as int,
                        heap@,
                        (i + 1) as nat,
                        n as nat,
                    );
                }
                return None;
            },
        };
        let patch_hash = if b[q + 8] != 0 {
            None
        } else {
            Some(read_u64(b, q + 16).unwrap())
        };
        let entry = PatchedEntry { name_version_hash: hashes[i], path, patch_hash };
        let ghost prev = out@;
        out.push(entry);
        assert(out@.map_values(|p: PatchedEntry| p@) =~= prev.map_values(|p: PatchedEntry| p@).push(
            entry@,
        ));
        i = i + 1;
    }
    Some(out)
}

/// What a section did, as the exec side sees it.
pub enum StepResult {
    Continue(usize),
    Stop(Option<Warning>),
}

pub open spec fn step_matches(r: StepResult, after: TrailerView, s: Step) -> bool {
    match (r, s) {
        (StepResult::Continue(n), Step::Continue { next, info }) => n == next && after == info,
        (StepResult::Stop(w), Step::Stop { info, warning }) => w == warning && after == info,
        _ => false,
    }
}

fn stop_truncated(pos: usize) -> (r: StepResult)
    ensures
        r == StepResult::Stop(Some(Warning::TrailerTruncated { position: pos as u64 })),
{
    StepResult::Stop(Some(Warning::TrailerTruncated { position: pos as u64 }))
}

/// Reads the section whose tag stands at `pos` into `info`.
pub fn trailer_section(
    b: &[u8],
    pos: usize,
    total: usize,
    heap: &[u8],
    info: &mut TrailerInfo,
) -> (r: StepResult)
    requires
        pos + 8 <= total <= b@.len(),
    ensures
        step_matches(r, final(info)@, trailer_step(b@, pos as int, total as int, heap@, old(info)@)),
        r matches StepResult::Continue(n) ==> pos < n <= total,
{
    let tag = read_u64(b, pos).unwrap();
    let c = pos + 8;
    if tag == TAG_WORKSPACES {
        let (_s0, e0) = match skip_array(b, c, total) {
            Some(a) => a,
            None => return stop_truncated(pos),
        };
        let (_s1, e1) = match skip_array(b, e0, total) {
            Some(a) => a,
            None => return stop_truncated(pos),
        };
        let (_s2, e2) = match skip_array(b, e1, total) {
            Some(a) => a,
            None => return stop_truncated(pos),
        };
        let (s3, e3) = match skip_array(b, e2, total) {
            Some(a) => a,
            None => return stop_truncated(pos),
        };
        info.workspaces_count = (e3 - s3) / 8;
        StepResult::Continue(e3)
    } else if tag == TAG_TRUSTED {
        let (s, e) = match skip_array(b, c, total) {
            Some(a) => a,
            None => return stop_truncated(pos),
        };
        info.trusted_hashes = read_u32_items(b, s, e);
        StepResult::Continue(e)
    } else if tag == TAG_EMPTY_TRUSTED {
        info.has_empty_trusted = true;
        StepResult::Continue(c)
    } else if tag == TAG_OVERRIDES {
        let (s0, e0) = match skip_array(b, c, total) {
            Some(a) => a,
            None => return stop_truncated(pos),
        };
        let (s1, e1) = match skip_array(b, e0, total) {
            Some(a) => a,
            None => return stop_truncated(pos),
        };
        match decode_overrides(b, s0, e0, s1, e1, heap) {
            Some(v) => {
                info.overrides = v;
                StepResult::Continue(e1)
            },
            None => stop_truncated(pos),
        }
    } else if tag == TAG_PATCHED {
        let (s0, e0) = match skip_array(b, c, total) {
            Some(a) => a,
            None => return stop_truncated(pos),
        };
        let (s1, e1) = match skip_array(b, e0, total) {
            Some(a) => a,
            None => return stop_truncated(pos),
        };
        match decode_patched(b, s0, e0, s1, e1, heap) {
            Some(v) => {
                info.patched = v;
                StepResult::Continue(e1)
            },
            None => stop_truncated(pos),
        }
    } else if tag == TAG_CATALOGS {
        let (_s0, e0) = match skip_array(b, c, total) {
            Some(a) => a,
            None => return stop_truncated(pos),
        };
        let (s1, e1) = match skip_array(b, e0, total) {
            Some(a) => a,
            None => return stop_truncated(pos),
        };
        let (_s2, _e2) = match skip_array(b, e1, total) {
            Some(a) => a,
            None => return stop_truncated(pos),
        };
        let recs = read_dep_items(b, s1, e1);
        match decode_entries(recs.as_slice(), None, heap, 0) {
            Ok(ds) => {
                info.default_catalog = ds;
                StepResult::Stop(None)
            },
            Err(_) => stop_truncated(pos),
        }
    } else if tag == TAG_CONFIG_VERSION {
        if total - c < 8 {
            return stop_truncated(pos);
        }
        StepResult::Continue(c + 8)
    } else {
        StepResult::Stop(Some(Warning::TrailerUnknownTag { position: pos as u64, tag }))
    }
}

/// Reads the trailer sections from `start` up to `total`.
pub fn parse_trailers(b: &[u8], start: usize, total: usize, heap: &[u8]) -> (r: (
    TrailerInfo,
    Vec<Warning>,
))
    requires
        total <= b@.len(),
    ensures
        (r.0@, r.1@) == trailers_model(b@, start as int, total as int, heap@, empty_trailers()),
{
    let mut info = new_trailer_info();
    let mut warnings: Vec<Warning> = Vec::new();
    let mut pos = start;
    loop
        invariant_except_break
            total <= b@.len(),
            warnings@ == Seq::<Warning>::empty(),
            trailers_model(b@, pos as int, total as int, heap@, info@) == trailers_model(
                b@,
                start as int,
                total as int,
                heap@,
                empty_trailers(),
            ),
        ensures
            (info@, warnings@) == trailers_model(
                b@,
                start as int,
                total as int,
                heap@,
                empty_trailers(),
            ),
        decreases total - pos,
    {
        if pos > total || total - pos < 8 {
            break ;
        }
        match trailer_section(b, pos, total, heap, &mut info) {
            StepResult::Continue(next) => {
                pos = next;
            },
            StepResult::Stop(w) => {
                if let Some(w) = w {
                    warnings.push(w);
                    assert(warnings@ =~= seq![w]);
                }
                break ;
            },
        }
    }
    (info, warnings)
}

} // verus!
