//! The record tables and the binary search over them.
use vstd::prelude::*;

use crate::bytes::{le_at, read_le, read_u32_le};
use crate::schema::Schema;
use crate::record_field::{schema_fields, fields_wf, RecordField, RecordFieldContent, RecordFieldContents, RecordFields};

verus! {

/// A range of 1-based record table positions, both ends inclusive; an `end`
/// of 0 means that no record holds the address.
#[derive(Debug, Clone, Copy, Default, PartialEq, Eq, Structural)]
pub struct PositionRange {
    pub start: u32,
    pub end: u32,
}

impl PositionRange {
    pub fn new(start: u32, end: u32) -> (r: PositionRange)
        ensures
            r.start == start,
            r.end == end,
    {
        PositionRange { start, end }
    }
}


/// Why a search over a record table failed.
#[derive(Debug, Clone, Copy, PartialEq, Eq, Structural)]
pub enum Error {
    SeekFailed,
    /// The row to read lies past the end of the file.
    ReadFailed,
    /// The search did not end within 32 rows.
    MaxDepthReached,
}

/// Why a record searcher cannot be made for a header.
#[derive(Debug, Clone, Copy, PartialEq, Eq, Structural)]
pub enum NewError {
    RecordFieldsMissing,
    /// The file holds no table of that family.
    Unsupported,
}

/// The most rows a search reads.
pub const MAX_DEPTH: u32 = 32;

/// One record table of a file: where it starts, how many rows it has and
/// the field list of its rows.
#[derive(Debug)]
pub struct RecordTable {
    v6: bool,
    count: u32,
    base: u64,
    fields: RecordFields,
}

/// The bounds to search within: `end` clamped to the row count, then `start`
/// clamped to `end`.
pub open spec fn clamped(range: PositionRange, count: u32) -> (int, int) {
    let high = if range.end > count {
        count as int
    } else {
        range.end as int
    };
    let low = if range.start > high {
        high
    } else {
        range.start as int
    };
    (low, high)
}

impl RecordTable {
    pub closed spec fn is_v6(&self) -> bool {
        self.v6
    }

    pub closed spec fn count(&self) -> u32 {
        self.count
    }

    /// Byte offset of the table's first row.
    pub closed spec fn base(&self) -> int {
        self.base as int
    }

    pub closed spec fn fields(&self) -> Seq<RecordField> {
        self.fields@
    }

    pub open spec fn wf(&self) -> bool {
        &&& fields_wf(self.fields())
        &&& self.base() <= u32::MAX
    }

    /// Bytes of the address at the start of a row.
    pub open spec fn ip_len(&self) -> int {
        if self.is_v6() {
            16
        } else {
            4
        }
    }

    /// The largest address of the table's family.
    pub open spec fn max_ip(&self) -> int {
        if self.is_v6() {
            u128::MAX as int
        } else {
            u32::MAX as int
        }
    }

    pub open spec fn row_len(&self) -> int {
        self.ip_len() + 4 * (self.fields().len() - 1)
    }

    pub open spec fn row_offset(&self, p: int) -> int {
        self.base() + self.row_len() * p
    }

    /// The lower bound stored in row `p` (0-based).
    pub open spec fn row_ip(&self, file: Seq<u8>, p: int) -> int {
        le_at(file, self.row_offset(p), self.ip_len()) as int
    }

    /// Slot `n` of row `p`.
    pub open spec fn slot_at(&self, file: Seq<u8>, p: int, n: int) -> u32 {
        le_at(file, self.row_offset(p) + self.ip_len() + 4 * n, 4) as u32
    }

    /// `c` is the unfilled contents of row `p` with the slots it stores.
    pub open spec fn row_contents(&self, file: Seq<u8>, p: int, c: Seq<RecordFieldContent>) -> bool {
        &&& c.len() == self.fields().len() - 1
        &&& forall|i: int|
            0 <= i < c.len() ==> {
                &&& (#[trigger] c[i]).field_spec() == self.fields()[i + 1]
                &&& c[i].slot_spec() == self.slot_at(file, p, i)
                &&& c[i].text_spec() == Seq::<char>::empty()
                &&& c[i].name_spec() == Seq::<char>::empty()
            }
    }

    /// The upper bound of the row at `mid` when the search bounds end at
    /// `high`: the next row's lower bound, or for the last rows one more
    /// than its own, capped at the family's largest address.
    pub open spec fn upper_bound(&self, file: Seq<u8>, mid: int, high: int) -> int {
        if high < self.count() {
            self.row_ip(file, mid + 1)
        } else if self.row_ip(file, mid) < self.max_ip() {
            self.row_ip(file, mid) + 1
        } else {
            self.row_ip(file, mid)
        }
    }

    /// The binary search over `[low, high]`, `depth` rows read so far: the
    /// bounds of the matching row and its position, `None`, or an error.
    pub open spec fn search(&self, file: Seq<u8>, ip: int, low: int, high: int, depth: int) -> Result<
        Option<(int, int, int)>,
        Error,
    >
        decreases 32 - depth,
    {
        if low > high || depth > 31 || depth < 0 {
            Ok(None)
        } else {
            let mid = (low + high) / 2;
            if self.row_offset(mid) + self.row_len() + self.ip_len() > file.len() {
                Err(Error::ReadFailed)
            } else {
                let from = self.row_ip(file, mid);
                let to = self.upper_bound(file, mid, high);
                if from <= ip < to {
                    Ok(Some((from, to, mid)))
                } else {
                    let low2 = if ip < from {
                        low
                    } else if mid < u32::MAX {
                        mid + 1
                    } else {
                        u32::MAX as int
                    };
                    let high2 = if ip < from {
                        if mid >= 1 {
                            mid - 1
                        } else {
                            0
                        }
                    } else {
                        high
                    };
                    if high2 == 0 {
                        Ok(None)
                    } else if (self.count() == u32::MAX && low2 == self.count()) || (self.count()
                        != u32::MAX && low2 > self.count()) {
                        Ok(None)
                    } else if depth > 30 {
                        Err(Error::MaxDepthReached)
                    } else {
                        self.search(file, ip, low2, high2, depth + 1)
                    }
                }
            }
        }
    }

    /// What `find` returns for `ip` in `range`.
    pub open spec fn find_spec(&self, file: Seq<u8>, ip: int, range: PositionRange) -> Result<
        Option<(int, int, int)>,
        Error,
    > {
        let (low, high) = clamped(range, self.count());
        self.search(file, ip, low, high, 0)
    }

    /// `r` is what `find_spec` describes: the bounds, and the unfilled
    /// contents of the matching row.
    pub open spec fn find_result(
        &self,
        file: Seq<u8>,
        ip: int,
        range: PositionRange,
        r: Result<Option<(u128, u128, RecordFieldContents)>, Error>,
    ) -> bool {
        match self.find_spec(file, ip, range) {
            Ok(None) => r matches Ok(None),
            Err(e) => r == Err::<Option<(u128, u128, RecordFieldContents)>, Error>(e),
            Ok(Some((from, to, p))) => r matches Ok(Some((f, t, c))) && f == from && t == to
                && self.row_contents(file, p, c@),
        }
    }

    fn new(v6: bool, count: u32, base: u64, fields: RecordFields) -> (r: RecordTable)
        requires
            fields.wf(),
            base <= u32::MAX,
        ensures
            r.wf(),
            r.is_v6() == v6,
            r.count() == count,
            r.base() == base,
            r.fields() == fields@,
    {
        RecordTable { v6, count, base, fields }
    }

    fn read_contents(&self, file: &[u8], off: usize) -> (r: RecordFieldContents)
        requires
            self.wf(),
            off as int + self.row_len() <= file@.len(),
        ensures
            forall|p: int| self.row_offset(p) == off ==> self.row_contents(file@, p, r@),
    {
        let ip_len: usize = if self.v6 { 16 } else { 4 };
        let mut r = RecordFieldContents::new();
        let n = self.fields.len();
        let mut i: usize = 1;
        while i < n
            invariant
                self.wf(),
                n == self.fields().len(),
                ip_len == self.ip_len(),
                off as int + self.row_len() <= file.len(),
                1 <= i <= n,
                r@.len() == i - 1,
                forall|j: int|
                    0 <= j < r@.len() ==> {
                        &&& (#[trigger] r@[j]).field_spec() == self.fields()[j + 1]
                        &&& r@[j].slot_spec() == le_at(file@, off + ip_len + 4 * j, 4) as u32
                        &&& r@[j].text_spec() == Seq::<char>::empty()
                        &&& r@[j].name_spec() == Seq::<char>::empty()
                    },
            decreases n - i,
        {
            let mut c = RecordFieldContent::empty_of(self.fields.get(i));
            c.set_slot(read_u32_le(file, off + ip_len + 4 * (i - 1)));
            r.push(c);
            i = i + 1;
        }
        r
    }

    /// Binary search for the row whose range holds `ip`, within `range`.
    pub fn find(&self, file: &[u8], ip: u128, range: PositionRange) -> (r: Result<
        Option<(u128, u128, RecordFieldContents)>,
        Error,
    >)
        requires
            self.wf(),
            ip <= self.max_ip(),
        ensures
            self.find_result(file@, ip as int, range, r),
    {
        let mut high: u32 = if range.end > self.count {
            self.count
        } else {
            range.end
        };
        let mut low: u32 = if range.start > high {
            high
        } else {
            range.start
        };
        let ip_len: usize = if self.v6 {
            16
        } else {
            4
        };
        let max_ip: u128 = if self.v6 {
            u128::MAX
        } else {
            u32::MAX as u128
        };
        let row_len: u64 = ip_len as u64 + 4 * (self.fields.len() as u64 - 1);
        let mut depth: u32 = 0;
        assert(row_len <= 64);
        while low <= high
            invariant
                self.wf(),
                ip_len == self.ip_len(),
                max_ip == self.max_ip(),
                row_len == self.row_len(),
                row_len <= 64,
                ip <= self.max_ip(),
                depth <= 31,
                self.search(file@, ip as int, low as int, high as int, depth as int) == self.find_spec(
                    file@,
                    ip as int,
                    range,
                ),
            decreases 32 - depth,
        {
            let mid: u64 = (low as u64 + high as u64) / 2;
            assert(row_len * mid <= 64 * 0xffff_ffffu64) by (nonlinear_arith)
                requires
                    row_len <= 64,
                    mid <= 0xffff_ffffu64,
            ;
            let off: u64 = self.base + row_len * mid;
            if off + row_len + ip_len as u64 > file.len() as u64 {
                return Err(Error::ReadFailed);
            }
            let offu = off as usize;
            let from = read_le(file, offu, ip_len);
            let to: u128 = if high < self.count {
                read_le(file, offu + row_len as usize, ip_len)
            } else if from < max_ip {
                from + 1
            } else {
                from
            };
            proof {
                reveal_with_fuel(crate::bytes::pow256, 17);
                let m = (low as int + high as int) / 2;
                assert(mid == m);
                assert(off == self.row_offset(m));
                assert(self.row_len() * (m + 1) == self.row_len() * m + self.row_len())
                    by (nonlinear_arith);
                assert(self.row_offset(m + 1) == off + row_len);
                assert(from == self.row_ip(file@, m));
                assert(to == self.upper_bound(file@, m, high as int));
            }
            if from <= ip && ip < to {
                let contents = self.read_contents(file, offu);
                return Ok(Some((from, to, contents)));
            }
            let (low2, high2): (u32, u32) = if ip < from {
                (low, if mid >= 1 { (mid - 1) as u32 } else { 0 })
            } else {
                (if mid < u32::MAX as u64 { (mid + 1) as u32 } else { u32::MAX }, high)
            };
            if high2 == 0 {
                return Ok(None);
            }
            if self.count == u32::MAX {
                if low2 == self.count {
                    return Ok(None);
                }
            } else if low2 > self.count {
                return Ok(None);
            }
            if depth > 30 {
                return Err(Error::MaxDepthReached);
            }
            low = low2;
            high = high2;
            depth = depth + 1;
        }
        Ok(None)
    }
}


impl RecordTable {
    /// Adjacent rows of the table rise strictly.
    pub open spec fn rows_sorted(&self, file: Seq<u8>) -> bool {
        forall|i: int|
            0 <= i && i + 1 < self.count() ==> #[trigger] self.row_ip(file, i) < self.row_ip(
                file,
                i + 1,
            )
    }

    /// Adjacent rows rise strictly, the two rows after the last included:
    /// the search reads the lower bound of the row after the one it probes.
    pub open spec fn rows_rising(&self, file: Seq<u8>) -> bool {
        forall|i: int|
            0 <= i <= self.count() ==> #[trigger] self.row_ip(file, i) < self.row_ip(file, i + 1)
    }

    /// The number of rows that the search from `[low, high]` reads.
    pub open spec fn rows_read(&self, file: Seq<u8>, ip: int, low: int, high: int, depth: int) -> int
        decreases 32 - depth,
    {
        if low > high || depth > 31 || depth < 0 {
            0
        } else {
            let mid = (low + high) / 2;
            if self.row_offset(mid) + self.row_len() + self.ip_len() > file.len() {
                0
            } else {
                let from = self.row_ip(file, mid);
                let to = self.upper_bound(file, mid, high);
                if from <= ip < to {
                    1
                } else {
                    let low2 = if ip < from {
                        low
                    } else if mid < u32::MAX {
                        mid + 1
                    } else {
                        u32::MAX as int
                    };
                    let high2 = if ip < from {
                        if mid >= 1 {
                            mid - 1
                        } else {
                            0
                        }
                    } else {
                        high
                    };
                    if high2 == 0 {
                        1
                    } else if (self.count() == u32::MAX && low2 == self.count()) || (self.count()
                        != u32::MAX && low2 > self.count()) {
                        1
                    } else if depth > 30 {
                        1
                    } else {
                        1 + self.rows_read(file, ip, low2, high2, depth + 1)
                    }
                }
            }
        }
    }
}

/// What a search finds: a row `p` whose lower bound is at most `ip` and
/// whose upper bound is above it, that bound being the next row's lower
/// bound or, for a row at or past the last position, its own plus one.
pub proof fn lemma_search_found(
    t: RecordTable,
    file: Seq<u8>,
    ip: int,
    low: int,
    high: int,
    depth: int,
)
    requires
        t.wf(),
        0 <= low,
    ensures
        t.search(file, ip, low, high, depth) matches Ok(Some((f, u, p))) ==> {
            &&& 0 <= low <= p <= high
            &&& f == t.row_ip(file, p)
            &&& f <= ip < u <= t.max_ip()
            &&& (p < t.count() && u == t.row_ip(file, p + 1)) || (p >= t.count() && u == f + 1)
                || (high >= t.count() && u == f + 1)
        },
    decreases 32 - depth,
{
    if !(low > high || depth > 31 || depth < 0) {
        let mid = (low + high) / 2;
        if !(t.row_offset(mid) + t.row_len() + t.ip_len() > file.len()) {
            let from = t.row_ip(file, mid);
            assert(0 <= t.row_offset(mid)) by (nonlinear_arith)
                requires
                    t.base() >= 0,
                    t.row_len() >= 0,
                    mid >= 0,
                    t.row_offset(mid) == t.base() + t.row_len() * mid,
            ;
            assert(t.row_len() * (mid + 1) == t.row_len() * mid + t.row_len()) by (nonlinear_arith);
            crate::bytes::lemma_le_nat_bound(
                file.subrange(t.row_offset(mid), t.row_offset(mid) + t.ip_len()),
            );
            crate::bytes::lemma_le_nat_bound(
                file.subrange(t.row_offset(mid + 1), t.row_offset(mid + 1) + t.ip_len()),
            );
            reveal_with_fuel(crate::bytes::pow256, 17);
            let to = t.upper_bound(file, mid, high);
            if !(from <= ip < to) {
                let low2 = if ip < from {
                    low
                } else if mid < u32::MAX {
                    mid + 1
                } else {
                    u32::MAX as int
                };
                let high2 = if ip < from {
                    if mid >= 1 {
                        mid - 1
                    } else {
                        0
                    }
                } else {
                    high
                };
                lemma_search_found(t, file, ip, low2, high2, depth + 1);
            }
        }
    }
}

/// A search reads at most 32 rows, so a file whose rows would lead it on
/// ends it with `MaxDepthReached`.
pub proof fn lemma_search_depth(t: RecordTable, file: Seq<u8>, ip: int, low: int, high: int, depth: int)
    requires
        0 <= depth <= 31,
    ensures
        t.rows_read(file, ip, low, high, depth) <= MAX_DEPTH - depth,
    decreases 32 - depth,
{
    if !(low > high) {
        let mid = (low + high) / 2;
        let from = t.row_ip(file, mid);
        let low2 = if ip < from {
            low
        } else if mid < u32::MAX {
            mid + 1
        } else {
            u32::MAX as int
        };
        let high2 = if ip < from {
            if mid >= 1 {
                mid - 1
            } else {
                0
            }
        } else {
            high
        };
        if depth <= 30 {
            lemma_search_depth(t, file, ip, low2, high2, depth + 1);
        }
    }
}

proof fn lemma_rising_mono(t: RecordTable, file: Seq<u8>, a: int, b: int)
    requires
        t.rows_rising(file),
        0 <= a <= b <= t.count() + 1,
    ensures
        t.row_ip(file, a) <= t.row_ip(file, b),
        a < b ==> t.row_ip(file, a) < t.row_ip(file, b),
    decreases b - a,
{
    if a < b {
        lemma_rising_mono(t, file, a, b - 1);
        assert(t.row_ip(file, b - 1) < t.row_ip(file, b));
    }
}

/// `2` raised to `n`.
pub open spec fn pow2(n: nat) -> nat
    decreases n,
{
    if n == 0 {
        1
    } else {
        2 * pow2((n - 1) as nat)
    }
}

#[verifier::rlimit(50)]
proof fn lemma_search_complete_at(
    t: RecordTable,
    file: Seq<u8>,
    ip: int,
    low: int,
    high: int,
    depth: int,
    p: int,
)
    requires
        t.wf(),
        t.rows_rising(file),
        0 <= depth <= 31,
        1 <= p,
        0 <= low <= p <= high < t.count(),
        t.row_ip(file, p) <= ip < t.row_ip(file, p + 1),
        t.row_offset(high) + t.row_len() + t.ip_len() <= file.len(),
        high - low + 1 < pow2((32 - depth) as nat),
    ensures
        t.search(file, ip, low, high, depth) == Ok::<Option<(int, int, int)>, Error>(
            Some((t.row_ip(file, p), t.row_ip(file, p + 1), p)),
        ),
    decreases 32 - depth,
{
    let mid = (low + high) / 2;
    assert(t.row_len() * mid <= t.row_len() * high) by (nonlinear_arith)
        requires
            0 <= mid <= high,
            t.row_len() >= 0,
    ;
    assert(!(t.row_offset(mid) + t.row_len() + t.ip_len() > file.len()));
    assert(t.upper_bound(file, mid, high) == t.row_ip(file, mid + 1));
    let size = high - low + 1;
    let half = pow2((31 - depth) as nat);
    assert(pow2((32 - depth) as nat) == 2 * half);
    if depth == 31 {
        reveal_with_fuel(pow2, 2);
        assert(half == 1);
        assert(low == high);
    }
    if mid < p {
        lemma_rising_mono(t, file, mid + 1, p);
        lemma_rising_mono(t, file, mid, p);
        assert(!(t.row_ip(file, mid) <= ip < t.row_ip(file, mid + 1)));
        assert(t.row_ip(file, mid) <= ip);
        assert(depth <= 30);
        assert((high - (mid + 1) + 1) * 2 <= size);
        lemma_search_complete_at(t, file, ip, mid + 1, high, depth + 1, p);
    } else if mid > p {
        lemma_rising_mono(t, file, p + 1, mid);
        assert(ip < t.row_ip(file, mid));
        assert(depth <= 30);
        assert((mid - 1 - low + 1) * 2 <= size);
        assert(t.row_len() * (mid - 1) <= t.row_len() * high) by (nonlinear_arith)
            requires
                0 <= mid - 1 <= high,
                t.row_len() >= 0,
        ;
        lemma_search_complete_at(t, file, ip, low, mid - 1, depth + 1, p);
    }
}

/// Completeness: in a table whose rows rise strictly, a search within
/// bounds below the row count that hold the row `p` covering `ip` finds that
/// row. The first row is left out: a search whose upper bound falls to 0
/// stops without a result.
pub proof fn lemma_search_finds_covering_row(
    t: RecordTable,
    file: Seq<u8>,
    ip: int,
    range: PositionRange,
    p: int,
)
    requires
        t.wf(),
        t.rows_rising(file),
        1 <= p,
        range.start <= p <= range.end < t.count(),
        t.row_ip(file, p) <= ip < t.row_ip(file, p + 1),
        t.row_offset(range.end as int) + t.row_len() + t.ip_len() <= file.len(),
    ensures
        t.find_spec(file, ip, range) == Ok::<Option<(int, int, int)>, Error>(
            Some((t.row_ip(file, p), t.row_ip(file, p + 1), p)),
        ),
{
    reveal_with_fuel(pow2, 33);
    assert(pow2(32) == 0x1_0000_0000);
    lemma_search_complete_at(t, file, ip, range.start as int, range.end as int, 0, p);
}

/// A range that a lookup returns holds the address: `from <= ip < to`.
pub proof fn lemma_found_holds_ip(t: RecordTable, file: Seq<u8>, ip: int, range: PositionRange)
    requires
        t.wf(),
    ensures
        t.find_spec(file, ip, range) matches Ok(Some((f, u, _))) ==> f <= ip < u,
{
    let (low, high) = clamped(range, t.count());
    lemma_search_found(t, file, ip, low, high, 0);
}

/// Contiguity: in a table whose rows, the two after the last included, rise
/// strictly, a lookup returns the bounds of one row `p` within the clamped
/// search bounds, and no row's lower bound lies strictly inside them.
pub proof fn lemma_found_range_contiguous(
    t: RecordTable,
    file: Seq<u8>,
    ip: int,
    range: PositionRange,
    r: int,
)
    requires
        t.wf(),
        t.rows_rising(file),
        0 <= r <= t.count() + 1,
    ensures
        t.find_spec(file, ip, range) matches Ok(Some((f, u, p))) ==> {
            &&& clamped(range, t.count()).0 <= p <= clamped(range, t.count()).1
            &&& f == t.row_ip(file, p)
            &&& (u == t.row_ip(file, p + 1) || u == f + 1)
            &&& !(f < t.row_ip(file, r) < u)
        },
{
    let (low, high) = clamped(range, t.count());
    lemma_search_found(t, file, ip, low, high, 0);
    if let Ok(Some((f, u, p))) = t.find_spec(file, ip, range) {
        if u != f + 1 {
            if r <= p {
                lemma_rising_mono(t, file, r, p);
            } else {
                lemma_rising_mono(t, file, p + 1, r);
            }
        }
    }
}

/// Row order: in a table whose rows rise strictly, the ranges that two
/// lookups return follow the order of the addresses and never overlap.
pub proof fn lemma_found_ranges_ordered(
    t: RecordTable,
    file: Seq<u8>,
    ip1: int,
    range1: PositionRange,
    ip2: int,
    range2: PositionRange,
)
    requires
        t.wf(),
        t.rows_rising(file),
        ip1 <= ip2,
    ensures
        t.find_spec(file, ip1, range1) matches Ok(Some((f1, u1, _))) ==> (t.find_spec(
            file,
            ip2,
            range2,
        ) matches Ok(Some((f2, u2, _))) ==> f1 <= f2 && (f1 == f2 || u1 <= f2)),
{
    let (low1, high1) = clamped(range1, t.count());
    let (low2, high2) = clamped(range2, t.count());
    lemma_search_found(t, file, ip1, low1, high1, 0);
    lemma_search_found(t, file, ip2, low2, high2, 0);
    if let (Ok(Some((f1, u1, p1))), Ok(Some((f2, u2, p2)))) = (
        t.find_spec(file, ip1, range1),
        t.find_spec(file, ip2, range2),
    ) {
        if p1 < p2 {
            lemma_rising_mono(t, file, p1, p2);
            lemma_rising_mono(t, file, p1 + 1, p2);
        } else if p1 > p2 {
            lemma_rising_mono(t, file, p2, p1);
            lemma_rising_mono(t, file, p2 + 1, p1);
        }
    }
}

/// The last row's upper bound is its own lower bound plus one, not read
/// from a following row.
pub proof fn lemma_last_row_upper_bound(t: RecordTable, file: Seq<u8>, ip: int, range: PositionRange)
    requires
        t.wf(),
    ensures
        t.find_spec(file, ip, range) matches Ok(Some((f, u, p))) ==> (p >= t.count() ==> u == f
            + 1),
{
    let (low, high) = clamped(range, t.count());
    lemma_search_found(t, file, ip, low, high, 0);
}


/// The record searcher of the IPv4 table.
#[derive(Debug)]
pub struct V4Querier {
    inner: RecordTable,
}

impl V4Querier {
    pub closed spec fn table(&self) -> RecordTable {
        self.inner
    }

    pub open spec fn wf(&self) -> bool {
        self.table().wf() && !self.table().is_v6()
    }

    /// The searcher for the v4 table that `header` describes.
    pub fn new(header: Schema) -> (r: Result<V4Querier, NewError>)
        requires
            1 <= header.v4_records_position_start,
        ensures
            schema_fields(header.schema_type, header.sub_type.0) is None ==> r == Err::<
                V4Querier,
                NewError,
            >(NewError::RecordFieldsMissing),
            schema_fields(header.schema_type, header.sub_type.0) matches Some(f) ==> (r matches Ok(
                q,
            ) && q.wf() && q.table().fields() == f && q.table().count() == header.v4_records_count
                && q.table().base() == header.v4_records_position_start - 1),
    {
        let fields = match header.record_fields() {
            Some(f) => f,
            None => return Err(NewError::RecordFieldsMissing),
        };
        let base = header.v4_records_seek_from_start();
        Ok(V4Querier { inner: RecordTable::new(false, header.v4_records_count, base, fields) })
    }

    /// The row of the v4 table whose range holds `ip`, searched within
    /// `position_range`: its bounds and its unfilled contents.
    pub fn query(&self, file: &[u8], ip: u32, position_range: PositionRange) -> (r: Result<
        Option<(u128, u128, RecordFieldContents)>,
        Error,
    >)
        requires
            self.wf(),
        ensures
            self.table().find_result(file@, ip as int, position_range, r),
    {
        self.inner.find(file, ip as u128, position_range)
    }
}

/// The record searcher of the IPv6 table.
#[derive(Debug)]
pub struct V6Querier {
    inner: RecordTable,
}

impl V6Querier {
    pub closed spec fn table(&self) -> RecordTable {
        self.inner
    }

    pub open spec fn wf(&self) -> bool {
        self.table().wf() && self.table().is_v6()
    }

    /// The searcher for the v6 table that `header` describes.
    pub fn new(header: Schema) -> (r: Result<V6Querier, NewError>)
        requires
            header.has_v6_spec() ==> 1 <= header.v6_records_position_start,
        ensures
            schema_fields(header.schema_type, header.sub_type.0) is None ==> r == Err::<
                V6Querier,
                NewError,
            >(NewError::RecordFieldsMissing),
            schema_fields(header.schema_type, header.sub_type.0) is Some && !header.has_v6_spec()
                ==> r == Err::<V6Querier, NewError>(NewError::Unsupported),
            schema_fields(header.schema_type, header.sub_type.0) is Some && header.has_v6_spec()
                ==> (r matches Ok(q) && q.wf() && q.table().fields() == schema_fields(
                header.schema_type,
                header.sub_type.0,
            ).unwrap()
                && q.table().count() == header.v6_records_count && q.table().base()
                == header.v6_records_position_start - 1),
    {
        let fields = match header.record_fields() {
            Some(f) => f,
            None => return Err(NewError::RecordFieldsMissing),
        };
        let base = match header.v6_records_seek_from_start() {
            Some(b) => b,
            None => return Err(NewError::Unsupported),
        };
        Ok(V6Querier { inner: RecordTable::new(true, header.v6_records_count, base, fields) })
    }

    /// The row of the v6 table whose range holds `ip`, searched within
    /// `position_range`: its bounds and its unfilled contents.
    pub fn query(&self, file: &[u8], ip: u128, position_range: PositionRange) -> (r: Result<
        Option<(u128, u128, RecordFieldContents)>,
        Error,
    >)
        requires
            self.wf(),
        ensures
            self.table().find_result(file@, ip as int, position_range, r),
    {
        self.inner.find(file, ip, position_range)
    }
}


impl RecordTable {
    /// The table's rows lie in `file`.
    pub open spec fn rows_in_file(&self, file: Seq<u8>) -> bool {
        self.count() == 0 || self.row_offset(self.count() - 1) + self.ip_len() <= file.len()
    }

    /// Whether the table lies in `file` with its rows rising strictly.
    pub fn check_sorted(&self, file: &[u8]) -> (r: bool)
        requires
            self.wf(),
        ensures
            r == (self.rows_in_file(file@) && self.rows_sorted(file@)),
    {
        if self.count == 0 {
            return true;
        }
        let ip_len: usize = if self.v6 {
            16
        } else {
            4
        };
        let row_len: u64 = ip_len as u64 + 4 * (self.fields.len() as u64 - 1);
        let last = self.count - 1;
        assert(row_len * (last as u64) <= 64 * 0xffff_ffffu64) by (nonlinear_arith)
            requires
                row_len <= 64,
                last <= 0xffff_ffffu64,
        ;
        if self.base + row_len * (last as u64) + ip_len as u64 > file.len() as u64 {
            return false;
        }
        let mut i: u32 = 0;
        while i < last
            invariant
                self.wf(),
                ip_len == self.ip_len(),
                row_len == self.row_len(),
                row_len <= 64,
                last == self.count() - 1,
                i <= last,
                self.rows_in_file(file@),
                self.row_offset(last as int) + self.ip_len() <= file.len(),
                forall|j: int| 0 <= j < i ==> #[trigger] self.row_ip(file@, j) < self.row_ip(file@, j + 1),
            decreases last - i,
        {
            proof {
                assert(self.row_len() * (i + 1) <= self.row_len() * last) by (nonlinear_arith)
                    requires
                        i + 1 <= last,
                        self.row_len() >= 0,
                ;
                assert(self.row_len() * (i + 1) == self.row_len() * i + self.row_len()) by (nonlinear_arith);
            }
            let off = (self.base + row_len * (i as u64)) as usize;
            let a = read_le(file, off, ip_len);
            let b = read_le(file, off + row_len as usize, ip_len);
            proof {
                assert(off == self.row_offset(i as int));
                assert(off + row_len == self.row_offset(i + 1));
                assert(a == self.row_ip(file@, i as int));
                assert(b == self.row_ip(file@, i + 1));
            }
            if a >= b {
                return false;
            }
            i = i + 1;
        }
        true
    }
}

impl V4Querier {
    /// Whether the v4 table lies in `file` with its rows rising strictly.
    pub fn check_sorted(&self, file: &[u8]) -> (r: bool)
        requires
            self.wf(),
        ensures
            r == (self.table().rows_in_file(file@) && self.table().rows_sorted(file@)),
    {
        self.inner.check_sorted(file)
    }
}

impl V6Querier {
    /// Whether the v6 table lies in `file` with its rows rising strictly.
    pub fn check_sorted(&self, file: &[u8]) -> (r: bool)
        requires
            self.wf(),
        ensures
            r == (self.table().rows_in_file(file@) && self.table().rows_sorted(file@)),
    {
        self.inner.check_sorted(file)
    }
}

} // verus!
