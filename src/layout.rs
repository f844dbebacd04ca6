//! The file header, the package-table header and the buffer block.

use vstd::prelude::*;
use crate::bytes::{fits, le_u32, le_u64, read_u32, read_u64};
use crate::error::ParseError;
use crate::records::{dependency_at, read_dependency, DependencyExternal, DEPENDENCY_SIZE};

verus! {

/// Length of the magic line that opens every lockfile.
pub const MAGIC_LEN: usize = 42;

/// The newest format generation this decoder reads.
pub const SUPPORTED_FORMAT: u32 = 3;

/// Where the package-table header ends and the cursor stands after it.
pub const HEADER_END: usize = 126;

/// The oldest package table layout: seven columns.
pub const MIN_FIELD_COUNT: u64 = 7;

/// `#!/usr/bin/env bun\nbun-lockfile-format-v0\n`
pub open spec fn magic_bytes() -> Seq<u8> {
    seq![
        35u8, 33, 47, 117, 115, 114, 47, 98, 105, 110, 47, 101, 110, 118, 32, 98, 117, 110, 10,
        98, 117, 110, 45, 108, 111, 99, 107, 102, 105, 108, 101, 45, 102, 111, 114, 109, 97, 116,
        45, 118, 48, 10,
    ]
}

/// The package table's shape: row count, alignment, column count and the
/// byte range its columns occupy.
#[derive(Debug, Clone, Copy, PartialEq, Eq, Structural)]
pub struct PackageTableHeader {
    pub len: u64,
    pub alignment: u64,
    pub field_count: u64,
    pub begin: u64,
    pub end: u64,
}

/// What the fixed-size file header holds.
#[derive(Debug, Clone, Copy, PartialEq, Eq, Structural)]
pub struct Header {
    pub format_version: u32,
    pub total_size: u64,
    pub table: PackageTableHeader,
}

pub open spec fn table_at(b: Seq<u8>) -> PackageTableHeader {
    PackageTableHeader {
        len: le_u64(b, 86) as u64,
        alignment: le_u64(b, 94) as u64,
        field_count: le_u64(b, 102) as u64,
        begin: le_u64(b, 110) as u64,
        end: le_u64(b, 118) as u64,
    }
}

/// The header of `b`, or the first condition it breaks: magic, format
/// version, meta hash, total size, then the package-table header.
#[verifier::opaque]
pub open spec fn header_model(b: Seq<u8>) -> Result<Header, ParseError> {
    if b.len() < 42 {
        Err(ParseError::Truncated)
    } else if b.take(42) != magic_bytes() {
        Err(ParseError::InvalidMagic)
    } else if b.len() < 46 {
        Err(ParseError::Truncated)
    } else if le_u32(b, 42) > SUPPORTED_FORMAT {
        Err(ParseError::UnsupportedFormat(le_u32(b, 42) as u32))
    } else if b.len() < 86 {
        Err(ParseError::Truncated)
    } else if le_u64(b, 78) > b.len() {
        Err(ParseError::CorruptOffsets(0, le_u64(b, 78) as u64, b.len() as u64))
    } else if b.len() < HEADER_END {
        Err(ParseError::Truncated)
    } else {
        let t = table_at(b);
        if t.end > b.len() || t.begin > t.end || t.begin < HEADER_END {
            Err(ParseError::CorruptOffsets(t.begin, t.end, b.len() as u64))
        } else if t.field_count < MIN_FIELD_COUNT {
            Err(ParseError::OutdatedFormat(le_u32(b, 42) as u32))
        } else {
            Ok(Header { format_version: le_u32(b, 42) as u32, total_size: le_u64(b, 78) as u64, table: t })
        }
    }
}

fn magic_matches(b: &[u8]) -> (r: bool)
    requires
        b@.len() >= 42,
    ensures
        r == (b@.take(42) == magic_bytes()),
{
    let magic: [u8; 42] = [
        35u8, 33, 47, 117, 115, 114, 47, 98, 105, 110, 47, 101, 110, 118, 32, 98, 117, 110, 10,
        98, 117, 110, 45, 108, 111, 99, 107, 102, 105, 108, 101, 45, 102, 111, 114, 109, 97, 116,
        45, 118, 48, 10,
    ];
    assert(magic@ =~= magic_bytes());
    let mut i: usize = 0;
    while i < MAGIC_LEN
        invariant
            i <= 42,
            b@.len() >= 42,
            magic@ == magic_bytes(),
            forall|j: int| 0 <= j < i ==> b@[j] == magic_bytes()[j],
        decreases 42 - i,
    {
        if b[i] != magic[i] {
            assert(b@.take(42)[i as int] != magic_bytes()[i as int]);
            return false;
        }
        i = i + 1;
    }
    assert(b@.take(42) =~= magic_bytes());
    true
}

/// Reads and validates the file header.
pub fn parse_header(b: &[u8]) -> (r: Result<Header, ParseError>)
    ensures
        r == header_model(b@),
        r matches Ok(h) ==> {
            &&& h.table.begin <= h.table.end <= b@.len()
            &&& h.total_size <= b@.len()
        },
{
    reveal(header_model);
    let n = b.len();
    if n < MAGIC_LEN {
        return Err(ParseError::Truncated);
    }
    if !magic_matches(b) {
        return Err(ParseError::InvalidMagic);
    }
    let format_version = match read_u32(b, 42) {
        Some(v) => v,
        None => return Err(ParseError::Truncated),
    };
    if format_version > SUPPORTED_FORMAT {
        return Err(ParseError::UnsupportedFormat(format_version));
    }
    let total_size = match read_u64(b, 78) {
        Some(v) => v,
        None => return Err(ParseError::Truncated),
    };
    if total_size > n as u64 {
        return Err(ParseError::CorruptOffsets(0, total_size, n as u64));
    }
    if n < HEADER_END {
        return Err(ParseError::Truncated);
    }
    let table = PackageTableHeader {
        len: read_u64(b, 86).unwrap(),
        alignment: read_u64(b, 94).unwrap(),
        field_count: read_u64(b, 102).unwrap(),
        begin: read_u64(b, 110).unwrap(),
        end: read_u64(b, 118).unwrap(),
    };
    if table.end > n as u64 || table.begin > table.end || table.begin < HEADER_END as u64 {
        return Err(ParseError::CorruptOffsets(table.begin, table.end, n as u64));
    }
    if table.field_count < MIN_FIELD_COUNT {
        return Err(ParseError::OutdatedFormat(format_version));
    }
    Ok(Header { format_version, total_size, table })
}

/// Copies the 32-byte meta hash that follows the format version.
pub fn read_meta_hash(b: &[u8]) -> (r: [u8; 32])
    requires
        b@.len() >= 78,
    ensures
        r@ == b@.subrange(46, 78),
{
    let mut h = [0u8; 32];
    let mut i: usize = 0;
    while i < 32
        invariant
            i <= 32,
            b@.len() >= 78,
            h@.len() == 32,
            forall|j: int| 0 <= j < i ==> h@[j] == b@[46 + j],
        decreases 32 - i,
    {
        h[i] = b[46 + i];
        i = i + 1;
    }
    assert(h@ =~= b@.subrange(46, 78));
    h
}

/// The six buffers that follow the package table.
#[derive(Debug, Clone, Copy, PartialEq, Eq, Structural)]
pub enum BufferKind {
    Dependencies,
    ExternStrings,
    Trees,
    HoistedDependencies,
    Resolutions,
    StringBytes,
}

impl BufferKind {
    pub open spec fn spec_alignment(self) -> int {
        match self {
            BufferKind::Dependencies => 8,
            BufferKind::ExternStrings => 8,
            BufferKind::Trees => 4,
            BufferKind::HoistedDependencies => 4,
            BufferKind::Resolutions => 4,
            BufferKind::StringBytes => 1,
        }
    }

    /// The alignment of the buffer's items.
    pub fn alignment(&self) -> (r: usize)
        ensures
            r == self.spec_alignment(),
    {
        match self {
            BufferKind::Dependencies => 8,
            BufferKind::ExternStrings => 8,
            BufferKind::Trees => 4,
            BufferKind::HoistedDependencies => 4,
            BufferKind::Resolutions => 4,
            BufferKind::StringBytes => 1,
        }
    }

    /// The size of one item of the buffer, as this decoder reads it.
    pub open spec fn unit_size(self) -> int {
        match self {
            BufferKind::Dependencies => DEPENDENCY_SIZE as int,
            BufferKind::Resolutions => 4,
            _ => 1,
        }
    }
}

/// The kinds in their canonical enumeration order.
pub open spec fn canonical_kinds() -> Seq<BufferKind> {
    seq![
        BufferKind::Dependencies,
        BufferKind::ExternStrings,
        BufferKind::Trees,
        BufferKind::HoistedDependencies,
        BufferKind::Resolutions,
        BufferKind::StringBytes,
    ]
}

pub open spec fn alignment_descending(s: Seq<BufferKind>) -> bool {
    forall|i: int, j: int|
        0 <= i < j < s.len() ==> s[i].spec_alignment() >= s[j].spec_alignment()
}

/// The order of the `(begin, end)` pairs on disk: the canonical order sorted
/// by descending alignment, stably. The canonical order is already so
/// sorted, so a stable sort keeps it as it is.
pub fn pointer_order() -> (r: Vec<BufferKind>)
    ensures
        r@ == canonical_kinds(),
        alignment_descending(r@),
{
    let r = vec![
        BufferKind::Dependencies,
        BufferKind::ExternStrings,
        BufferKind::Trees,
        BufferKind::HoistedDependencies,
        BufferKind::Resolutions,
        BufferKind::StringBytes,
    ];
    assert(r@ =~= canonical_kinds());
    r
}

/// Size of the block of six `(begin, end)` pairs.
pub const POINTER_BLOCK: usize = 96;

pub open spec fn buf_begin(b: Seq<u8>, p: int, k: int) -> int {
    le_u64(b, p + 16 * k)
}

pub open spec fn buf_end(b: Seq<u8>, p: int, k: int) -> int {
    le_u64(b, p + 16 * k + 8)
}

/// The `k`-th pair is ordered, inside the file, holds whole items, and,
/// unless empty, starts after the header and the columns.
pub open spec fn buffer_ok(b: Seq<u8>, p: int, k: int) -> bool {
    &&& buf_begin(b, p, k) <= buf_end(b, p, k) <= b.len()
    &&& (buf_begin(b, p, k) == buf_end(b, p, k) || buf_begin(b, p, k) >= p)
    &&& (buf_end(b, p, k) - buf_begin(b, p, k)) % canonical_kinds()[k].unit_size() == 0
}

/// The first pair from the `k`-th on that is not well formed.
pub open spec fn buffers_error_from(b: Seq<u8>, p: int, k: nat) -> Option<ParseError>
    decreases 6 - k,
{
    if k >= 6 {
        None
    } else if !buffer_ok(b, p, k as int) {
        Some(
            ParseError::CorruptOffsets(
                buf_begin(b, p, k as int) as u64,
                buf_end(b, p, k as int) as u64,
                b.len() as u64,
            ),
        )
    } else {
        buffers_error_from(b, p, k + 1)
    }
}

/// Why the buffer block at `p` cannot be read, if it cannot.
pub open spec fn buffers_error(b: Seq<u8>, p: int) -> Option<ParseError> {
    if !fits(b, p, POINTER_BLOCK as int) {
        Some(ParseError::Truncated)
    } else {
        buffers_error_from(b, p, 0)
    }
}

pub open spec fn max_int(a: int, b: int) -> int {
    if a >= b {
        a
    } else {
        b
    }
}

/// The furthest of the pointer block's end and the first `k` buffer ends.
pub open spec fn buffers_reach(b: Seq<u8>, p: int, k: nat) -> int
    decreases k,
{
    if k == 0 {
        p + POINTER_BLOCK
    } else {
        max_int(buffers_reach(b, p, (k - 1) as nat), buf_end(b, p, k - 1))
    }
}

pub open spec fn dep_records(b: Seq<u8>, p: int) -> Seq<DependencyExternal> {
    let s = buf_begin(b, p, 0);
    Seq::new(
        ((buf_end(b, p, 0) - s) / DEPENDENCY_SIZE as int) as nat,
        |i: int| dependency_at(b, s + DEPENDENCY_SIZE * i),
    )
}

pub open spec fn res_records(b: Seq<u8>, p: int) -> Seq<u32> {
    let s = buf_begin(b, p, 4);
    Seq::new(((buf_end(b, p, 4) - s) / 4) as nat, |i: int| le_u32(b, s + 4 * i) as u32)
}

pub open spec fn string_heap(b: Seq<u8>, p: int) -> Seq<u8> {
    b.subrange(buf_begin(b, p, 5), buf_end(b, p, 5))
}

/// The decoded buffers, and where the sentinel stands.
pub struct Buffers {
    pub dependencies: Vec<DependencyExternal>,
    pub resolutions: Vec<u32>,
    pub string_bytes: Vec<u8>,
    pub end_pos: usize,
}

pub(crate) fn read_dependency_records(b: &[u8], s: usize, count: usize) -> (r: Vec<DependencyExternal>)
    requires
        s + DEPENDENCY_SIZE * count <= b@.len(),
    ensures
        r@ == Seq::new(count as nat, |i: int| dependency_at(b@, s + DEPENDENCY_SIZE * i)),
{
    let mut v: Vec<DependencyExternal> = Vec::new();
    let n = b.len();
    let mut i: usize = 0;
    while i < count
        invariant
            i <= count,
            n == b@.len(),
            s + DEPENDENCY_SIZE * count <= b@.len(),
            v@ == Seq::new(i as nat, |t: int| dependency_at(b@, s + DEPENDENCY_SIZE * t)),
        decreases count - i,
    {
        assert(s + DEPENDENCY_SIZE * i + DEPENDENCY_SIZE <= s + DEPENDENCY_SIZE * count)
            by (nonlinear_arith)
            requires
                i < count,
        ;
        let d = read_dependency(b, s + DEPENDENCY_SIZE * i).unwrap();
        v.push(d);
        i = i + 1;
        assert(v@ =~= Seq::new(i as nat, |t: int| dependency_at(b@, s + DEPENDENCY_SIZE * t)));
    }
    v
}

fn read_u32_records(b: &[u8], s: usize, count: usize) -> (r: Vec<u32>)
    requires
        s + 4 * count <= b@.len(),
    ensures
        r@ == Seq::new(count as nat, |i: int| le_u32(b@, s + 4 * i) as u32),
{
    let mut v: Vec<u32> = Vec::new();
    let n = b.len();
    let mut i: usize = 0;
    while i < count
        invariant
            i <= count,
            n == b@.len(),
            s + 4 * count <= b@.len(),
            v@ == Seq::new(i as nat, |t: int| le_u32(b@, s + 4 * t) as u32),
        decreases count - i,
    {
        assert(s + 4 * i + 4 <= s + 4 * count) by (nonlinear_arith)
            requires
                i < count,
        ;
        let x = read_u32(b, s + 4 * i).unwrap();
        v.push(x);
        i = i + 1;
        assert(v@ =~= Seq::new(i as nat, |t: int| le_u32(b@, s + 4 * t) as u32));
    }
    v
}

/// Reads the six `(begin, end)` pairs at `p` and the buffers they delimit.
pub fn parse_buffers(b: &[u8], p: usize) -> (r: Result<Buffers, ParseError>)
    ensures
        match r {
            Ok(x) => {
                &&& buffers_error(b@, p as int) is None
                &&& x.dependencies@ == dep_records(b@, p as int)
                &&& x.resolutions@ == res_records(b@, p as int)
                &&& x.string_bytes@ == string_heap(b@, p as int)
                &&& x.end_pos == buffers_reach(b@, p as int, 6)
            },
            Err(e) => buffers_error(b@, p as int) == Some(e),
        },
{
    let n = b.len();
    if p > n || n - p < POINTER_BLOCK {
        return Err(ParseError::Truncated);
    }
    let kinds = pointer_order();
    let mut deps: Vec<DependencyExternal> = Vec::new();
    let mut res: Vec<u32> = Vec::new();
    let mut heap: Vec<u8> = Vec::new();
    let mut max_end: usize = p + POINTER_BLOCK;
    let mut k: usize = 0;
    while k < 6
        invariant
            k <= 6,
            n == b@.len(),
            p + POINTER_BLOCK <= n,
            kinds@ == canonical_kinds(),
            buffers_error_from(b@, p as int, 0) == buffers_error_from(b@, p as int, k as nat),
            max_end == buffers_reach(b@, p as int, k as nat),
            deps@ == (if k > 0 {
                dep_records(b@, p as int)
            } else {
                Seq::empty()
            }),
            res@ == (if k > 4 {
                res_records(b@, p as int)
            } else {
                Seq::empty()
            }),
            heap@ == (if k > 5 {
                string_heap(b@, p as int)
            } else {
                Seq::empty()
            }),
        decreases 6 - k,
    {
        let begin = read_u64(b, p + 16 * k).unwrap();
        let end = read_u64(b, p + 16 * k + 8).unwrap();
        let kind = kinds[k];
        let unit: u64 = match kind {
            BufferKind::Dependencies => DEPENDENCY_SIZE as u64,
            BufferKind::Resolutions => 4,
            _ => 1,
        };
        if end < begin || end > n as u64 || (begin != end && begin < p as u64) || (end - begin)
            % unit != 0 {
            return Err(ParseError::CorruptOffsets(begin, end, n as u64));
        }
        if end as usize > max_end {
            max_end = end as usize;
        }
        let count = ((end - begin) / unit) as usize;
        match kind {
            BufferKind::Dependencies => {
                assert(begin + DEPENDENCY_SIZE * count == end) by (nonlinear_arith)
                    requires
                        (end - begin) % 26 == 0,
                        count == (end - begin) / 26,
                        begin <= end,
                ;
                deps = read_dependency_records(b, begin as usize, count);
            },
            BufferKind::Resolutions => {
                assert(begin + 4 * count == end) by (nonlinear_arith)
                    requires
                        (end - begin) % 4 == 0,
                        count == (end - begin) / 4,
                        begin <= end,
                ;
                res = read_u32_records(b, begin as usize, count);
            },
            BufferKind::StringBytes => {
                heap = vstd::slice::slice_to_vec(
                    vstd::slice::slice_subrange(b, begin as usize, end as usize),
                );
            },
            _ => {},
        }
        k = k + 1;
    }
    Ok(Buffers { dependencies: deps, resolutions: res, string_bytes: heap, end_pos: max_end })
}

/// Why the sentinel at `pos` is not a zero `u64`, if it is not.
pub open spec fn sentinel_error(b: Seq<u8>, pos: int) -> Option<ParseError> {
    if !fits(b, pos, 8) {
        Some(ParseError::Truncated)
    } else if le_u64(b, pos) != 0 {
        Some(ParseError::CorruptSentinel)
    } else {
        None
    }
}

} // verus!
