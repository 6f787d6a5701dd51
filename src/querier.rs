//! The database: an opened file image with its header, its index blocks and
//! its record searchers, and the lookup that ties them together.
use vstd::prelude::*;

use crate::content::{lemma_fill_cache_independent, lemma_fill_outcome_same, fill_outcome, filled_from, FillError, Querier as ContentQuerier};
use crate::header::{parse_header, ParseError};
use crate::index::{
    v4_prefix, v6_prefix, BuildError, Builder, IndexBlock, V4Querier as IndexV4Querier,
    V6Querier as IndexV6Querier,
};
use crate::record_field::{lemma_selected_same, same_contents, selected, RecordField, RecordFieldContent, RecordFieldContents};
use crate::records::{
    Error as RecordsQueryError, NewError as RecordsNewError, RecordTable,
    V4Querier as RecordsV4Querier, V6Querier as RecordsV6Querier,
};
use crate::schema::{Schema, HEADER_LEN, INDEX_LEN};

verus! {

/// An IPv4 or IPv6 address as its integer value.
#[derive(Debug, Clone, Copy, PartialEq, Eq, Structural)]
pub enum IpAddr {
    V4(u32),
    V6(u128),
}

/// The base of the IPv4-mapped IPv6 block `::ffff:0:0/96`.
pub const IPV4_MAPPED_BASE: u128 = 0xffff_0000_0000;

/// `ip` is an IPv4-mapped IPv6 address.
pub open spec fn is_v4_mapped(ip: u128) -> bool {
    ip / 0x1_0000_0000 == 0xffff
}

/// The integer value of an address.
pub open spec fn ip_value(ip: IpAddr) -> int {
    match ip {
        IpAddr::V4(a) => a as int,
        IpAddr::V6(a) => a as int,
    }
}

/// Why a database cannot be opened.
#[derive(Debug, Clone, Copy, PartialEq, Eq, Structural)]
pub enum NewError {
    /// The file is shorter than its header.
    ReadOtherError,
    HeaderParseFailed(ParseError),
    /// The file's length is not the total size that its header declares.
    LayoutMismatch,
    IndexV4BuildFailed(BuildError),
    IndexV6BuildFailed(BuildError),
    RecordsV4QuerierNewFailed(RecordsNewError),
    RecordsV6QuerierNewFailed(RecordsNewError),
}

/// Whether opening `file` fails, and how, or else its header.
pub open spec fn open_outcome(file: Seq<u8>) -> Result<Schema, NewError> {
    if file.len() < HEADER_LEN {
        Err(NewError::ReadOtherError)
    } else {
        match crate::header::header_result(file) {
            Err(e) => Err(NewError::HeaderParseFailed(e)),
            Ok(h) => if file.len() != h.total_size {
                Err(NewError::LayoutMismatch)
            } else {
                Ok(h)
            },
        }
    }
}

/// Why a lookup failed.
#[derive(Debug, Clone, Copy, PartialEq, Eq, Structural)]
pub enum LookupError {
    RecordsQueryFailed(RecordsQueryError),
    ContentFillFailed(FillError),
}

/// The contents left by a field mask: all of them without one.
pub open spec fn masked(c: Seq<RecordFieldContent>, mask: Option<Seq<RecordField>>) -> Seq<
    RecordFieldContent,
> {
    match mask {
        Some(m) => selected(c, m),
        None => c,
    }
}

pub open spec fn mask_view(selected_fields: Option<&[RecordField]>) -> Option<Seq<RecordField>> {
    match selected_fields {
        Some(s) => Some(s@),
        None => None,
    }
}

/// How the bounds of a found row are reported.
pub enum BoundsForm {
    V4,
    V6,
    /// IPv4 bounds as IPv4-mapped IPv6 addresses.
    Mapped,
}

pub open spec fn bound_as(v: int, form: BoundsForm) -> IpAddr {
    match form {
        BoundsForm::V4 => IpAddr::V4(v as u32),
        BoundsForm::V6 => IpAddr::V6(v as u128),
        BoundsForm::Mapped => IpAddr::V6((IPV4_MAPPED_BASE + v) as u128),
    }
}

/// A lookup result as the search outcome `s` in table `t` and the mask
/// decide it: the row's contents, masked, then filled from `file`.
pub open spec fn lookup_outcome(
    t: RecordTable,
    file: Seq<u8>,
    s: Result<Option<(int, int, int)>, RecordsQueryError>,
    mask: Option<Seq<RecordField>>,
    form: BoundsForm,
    r: Result<Option<(IpAddr, IpAddr, RecordFieldContents)>, LookupError>,
) -> bool {
    match s {
        Err(e) => r == Err::<Option<(IpAddr, IpAddr, RecordFieldContents)>, LookupError>(
            LookupError::RecordsQueryFailed(e),
        ),
        Ok(None) => r matches Ok(None),
        Ok(Some((f, u, p))) => exists|c0: Seq<RecordFieldContent>|
            #[trigger] t.row_contents(file, p, c0) && match fill_outcome(masked(c0, mask), file) {
                Err(e) => r == Err::<Option<(IpAddr, IpAddr, RecordFieldContents)>, LookupError>(
                    LookupError::ContentFillFailed(e),
                ),
                Ok(_) => r matches Ok(Some((lo, hi, c))) && lo == bound_as(f, form) && hi
                    == bound_as(u, form) && filled_from(masked(c0, mask), c@, file),
            },
    }
}

/// An opened database.
#[derive(Debug)]
pub struct Querier {
    header: Schema,
    index_v4: IndexV4Querier,
    index_v6: Option<IndexV6Querier>,
    records_v4: RecordsV4Querier,
    records_v6: Option<RecordsV6Querier>,
    file: Vec<u8>,
}

fn copy_block(file: &[u8], start: usize) -> (r: Result<IndexBlock, BuildError>)
    requires
        start + INDEX_LEN <= file@.len(),
    ensures
        r matches Ok(b) && b.wf() && b@ == file@.subrange(start as int, start + INDEX_LEN),
{
    let mut bytes: Vec<u8> = Vec::new();
    let mut i: usize = 0;
    while i < INDEX_LEN as usize
        invariant
            start + INDEX_LEN <= file.len(),
            i <= INDEX_LEN,
            bytes@ == file@.subrange(start as int, start + i),
        decreases INDEX_LEN - i,
    {
        bytes.push(file[start + i]);
        i = i + 1;
        assert(bytes@ =~= file@.subrange(start as int, start + i));
    }
    let mut builder = Builder::new();
    builder.append(bytes.as_slice());
    assert(builder@ =~= bytes@);
    builder.finish()
}

impl Querier {
    pub closed spec fn file(&self) -> Seq<u8> {
        self.file@
    }

    pub closed spec fn header_spec(&self) -> Schema {
        self.header
    }

    pub closed spec fn index4(&self) -> IndexBlock {
        self.index_v4.block()
    }

    pub closed spec fn index6(&self) -> Option<IndexBlock> {
        match self.index_v6 {
            Some(q) => Some(q.block()),
            None => None,
        }
    }

    pub closed spec fn table4(&self) -> RecordTable {
        self.records_v4.table()
    }

    pub closed spec fn table6(&self) -> Option<RecordTable> {
        match self.records_v6 {
            Some(q) => Some(q.table()),
            None => None,
        }
    }

    pub closed spec fn wf(&self) -> bool {
        &&& self.index_v4.wf()
        &&& self.records_v4.wf()
        &&& self.index_v6 is Some == self.records_v6 is Some
        &&& self.index_v6 matches Some(q) ==> q.wf()
        &&& self.records_v6 matches Some(q) ==> q.wf()
    }

    /// The search for an IPv4 address: none where its index bucket is
    /// empty, else the v4 table's search within the bucket.
    pub open spec fn search_v4(&self, ip: u32) -> Result<Option<(int, int, int)>, RecordsQueryError> {
        let range = self.index4().range_at(8 * v4_prefix(ip));
        if range.end == 0 {
            Ok(None)
        } else {
            self.table4().find_spec(self.file(), ip as int, range)
        }
    }

    /// The search for an IPv6 address that is not IPv4-mapped: none without
    /// v6 data or where its bucket is empty, else the v6 table's search.
    pub open spec fn search_v6(&self, ip: u128) -> Result<Option<(int, int, int)>, RecordsQueryError> {
        match (self.index6(), self.table6()) {
            (Some(ix), Some(t)) => {
                let range = ix.range_at(8 * v6_prefix(ip));
                if range.end == 0 {
                    Ok(None)
                } else {
                    t.find_spec(self.file(), ip as int, range)
                }
            },
            _ => Ok(None),
        }
    }

    /// What `lookup` returns for `ip` and `mask`.
    pub open spec fn lookup_post(
        &self,
        ip: IpAddr,
        mask: Option<Seq<RecordField>>,
        r: Result<Option<(IpAddr, IpAddr, RecordFieldContents)>, LookupError>,
    ) -> bool {
        match ip {
            IpAddr::V4(a) => lookup_outcome(
                self.table4(),
                self.file(),
                self.search_v4(a),
                mask,
                BoundsForm::V4,
                r,
            ),
            IpAddr::V6(a) => if is_v4_mapped(a) {
                lookup_outcome(
                    self.table4(),
                    self.file(),
                    self.search_v4((a - IPV4_MAPPED_BASE) as u32),
                    mask,
                    BoundsForm::Mapped,
                    r,
                )
            } else {
                match self.table6() {
                    Some(t) => lookup_outcome(
                        t,
                        self.file(),
                        self.search_v6(a),
                        mask,
                        BoundsForm::V6,
                        r,
                    ),
                    None => r matches Ok(None),
                }
            },
        }
    }

    /// The header the database was opened with.
    pub fn header(&self) -> (r: Schema)
        ensures
            r == self.header_spec(),
    {
        self.header
    }

    /// Opens the database held in `file`: decodes and checks the header,
    /// checks the file's length against it, and loads the index blocks.
    pub fn new(file: Vec<u8>) -> (r: Result<Querier, NewError>)
        ensures
            match open_outcome(file@) {
                Err(e) => r == Err::<Querier, NewError>(e),
                Ok(h) => r matches Ok(q) && q.wf() && q.file() == file@ && q.header_spec() == h
                    && q.index4()@ == file@.subrange(HEADER_LEN as int, HEADER_LEN + INDEX_LEN)
                    && (h.has_v6_spec() <==> q.index6() is Some) && (q.index6() matches Some(ix)
                    ==> ix@ == file@.subrange(HEADER_LEN + INDEX_LEN, HEADER_LEN + 2 * INDEX_LEN)),
            },
    {
        if file.len() < HEADER_LEN as usize {
            return Err(NewError::ReadOtherError);
        }
        let header = match parse_header(file.as_slice()) {
            Ok(h) => h,
            Err(e) => return Err(NewError::HeaderParseFailed(e)),
        };
        if file.len() as u64 != header.total_size as u64 {
            return Err(NewError::LayoutMismatch);
        }
        let v4_start = header.v4_index_seek_from_start() as usize;
        let index_v4 = match copy_block(file.as_slice(), v4_start) {
            Ok(b) => IndexV4Querier::from_block(b),
            Err(e) => return Err(NewError::IndexV4BuildFailed(e)),
        };
        let index_v6 = match header.v6_index_seek_from_start() {
            Some(s) => match copy_block(file.as_slice(), s as usize) {
                Ok(b) => Some(IndexV6Querier::from_block(b)),
                Err(e) => return Err(NewError::IndexV6BuildFailed(e)),
            },
            None => None,
        };
        let records_v4 = match RecordsV4Querier::new(header) {
            Ok(q) => q,
            Err(e) => return Err(NewError::RecordsV4QuerierNewFailed(e)),
        };
        let records_v6 = if header.has_v6() {
            match RecordsV6Querier::new(header) {
                Ok(q) => Some(q),
                Err(e) => return Err(NewError::RecordsV6QuerierNewFailed(e)),
            }
        } else {
            None
        };
        Ok(Querier { header, index_v4, index_v6, records_v4, records_v6, file })
    }

    /// A content resolver with empty caches, fit for this database.
    pub fn content_querier(&self) -> (r: ContentQuerier)
        ensures
            r.agrees_with(self.file()),
    {
        ContentQuerier::new()
    }

    fn finish(
        &self,
        content: &mut ContentQuerier,
        found: Result<Option<(u128, u128, RecordFieldContents)>, RecordsQueryError>,
        selected_fields: Option<&[RecordField]>,
        form: BoundsForm,
        t: Ghost<RecordTable>,
        s: Ghost<Result<Option<(int, int, int)>, RecordsQueryError>>,
    ) -> (r: Result<Option<(IpAddr, IpAddr, RecordFieldContents)>, LookupError>)
        requires
            old(content).agrees_with(self.file()),
            match s@ {
                Ok(None) => found matches Ok(None),
                Err(e) => found == Err::<Option<(u128, u128, RecordFieldContents)>, RecordsQueryError>(e),
                Ok(Some((f, u, p))) => found matches Ok(Some((f2, u2, c))) && f2 == f && u2 == u
                    && t@.row_contents(self.file(), p, c@) && f < u && match form {
                    BoundsForm::V6 => true,
                    _ => u <= u32::MAX,
                },
            },
        ensures
            final(content).agrees_with(self.file()),
            lookup_outcome(t@, self.file(), s@, mask_view(selected_fields), form, r),
    {
        match found {
            Err(e) => Err(LookupError::RecordsQueryFailed(e)),
            Ok(None) => Ok(None),
            Ok(Some((from, to, contents))) => {
                let mut contents = contents;
                let ghost c0 = contents@;
                if let Some(sel) = selected_fields {
                    contents.select(sel);
                }
                assert(contents@ == masked(c0, mask_view(selected_fields)));
                let filled = content.fill(&mut contents, self.file.as_slice());
                let (lo, hi) = match form {
                    BoundsForm::V4 => (IpAddr::V4(from as u32), IpAddr::V4(to as u32)),
                    BoundsForm::V6 => (IpAddr::V6(from), IpAddr::V6(to)),
                    BoundsForm::Mapped => (
                        IpAddr::V6(IPV4_MAPPED_BASE + from),
                        IpAddr::V6(IPV4_MAPPED_BASE + to),
                    ),
                };
                let r = match filled {
                    Ok(_) => Ok(Some((lo, hi, contents))),
                    Err(e) => Err(LookupError::ContentFillFailed(e)),
                };
                assert(t@.row_contents(self.file(), s@->Ok_0->Some_0.2, c0));
                r
            },
        }
    }

    /// The record whose range holds an IPv4 address, its string fields
    /// resolved; only the fields in `selected_fields` when it is given.
    pub fn lookup_ipv4(
        &self,
        content: &mut ContentQuerier,
        ip: u32,
        selected_fields: Option<&[RecordField]>,
    ) -> (r: Result<Option<(IpAddr, IpAddr, RecordFieldContents)>, LookupError>)
        requires
            self.wf(),
            old(content).agrees_with(self.file()),
        ensures
            final(content).agrees_with(self.file()),
            self.lookup_post(IpAddr::V4(ip), mask_view(selected_fields), r),
            self.index4().range_at(8 * v4_prefix(ip)).end == 0 ==> r matches Ok(None),
    {
        self.lookup_v4_as(content, ip, selected_fields, BoundsForm::V4)
    }

    fn lookup_v4_as(
        &self,
        content: &mut ContentQuerier,
        ip: u32,
        selected_fields: Option<&[RecordField]>,
        form: BoundsForm,
    ) -> (r: Result<Option<(IpAddr, IpAddr, RecordFieldContents)>, LookupError>)
        requires
            self.wf(),
            old(content).agrees_with(self.file()),
            !(form is V6),
        ensures
            final(content).agrees_with(self.file()),
            lookup_outcome(
                self.table4(),
                self.file(),
                self.search_v4(ip),
                mask_view(selected_fields),
                form,
                r,
            ),
    {
        let range = self.index_v4.query(ip);
        if range.end == 0 {
            return Ok(None);
        }
        let found = self.records_v4.query(self.file.as_slice(), ip, range);
        proof {
            crate::records::lemma_search_found(
                self.table4(),
                self.file(),
                ip as int,
                crate::records::clamped(range, self.table4().count()).0,
                crate::records::clamped(range, self.table4().count()).1,
                0,
            );
        }
        self.finish(content, found, selected_fields, form, Ghost(self.table4()), Ghost(self.search_v4(ip)))
    }

    /// The record whose range holds an IPv6 address, its string fields
    /// resolved; an IPv4-mapped address is looked up as IPv4 and its bounds
    /// reported mapped back.
    pub fn lookup_ipv6(
        &self,
        content: &mut ContentQuerier,
        ip: u128,
        selected_fields: Option<&[RecordField]>,
    ) -> (r: Result<Option<(IpAddr, IpAddr, RecordFieldContents)>, LookupError>)
        requires
            self.wf(),
            old(content).agrees_with(self.file()),
        ensures
            final(content).agrees_with(self.file()),
            self.lookup_post(IpAddr::V6(ip), mask_view(selected_fields), r),
            !is_v4_mapped(ip) && self.index6() is None ==> r matches Ok(None),
            !is_v4_mapped(ip) ==> (self.index6() matches Some(ix) ==> (ix.range_at(
                8 * v6_prefix(ip),
            ).end == 0 ==> r matches Ok(None))),
    {
        if ip / 0x1_0000_0000 == 0xffff {
            return self.lookup_v4_as(content, (ip - IPV4_MAPPED_BASE) as u32, selected_fields, BoundsForm::Mapped);
        }
        match (&self.index_v6, &self.records_v6) {
            (Some(index), Some(records)) => {
                let range = index.query(ip);
                if range.end == 0 {
                    return Ok(None);
                }
                let found = records.query(self.file.as_slice(), ip, range);
                proof {
                    crate::records::lemma_search_found(
                        records.table(),
                        self.file(),
                        ip as int,
                        crate::records::clamped(range, records.table().count()).0,
                        crate::records::clamped(range, records.table().count()).1,
                        0,
                    );
                }
                self.finish(content, found, selected_fields, BoundsForm::V6, Ghost(records.table()), Ghost(self.search_v6(ip)))
            },
            _ => Ok(None),
        }
    }

    /// The record whose range holds `ip`.
    pub fn lookup(
        &self,
        content: &mut ContentQuerier,
        ip: IpAddr,
        selected_fields: Option<&[RecordField]>,
    ) -> (r: Result<Option<(IpAddr, IpAddr, RecordFieldContents)>, LookupError>)
        requires
            self.wf(),
            old(content).agrees_with(self.file()),
        ensures
            final(content).agrees_with(self.file()),
            self.lookup_post(ip, mask_view(selected_fields), r),
    {
        match ip {
            IpAddr::V4(a) => self.lookup_ipv4(content, a, selected_fields),
            IpAddr::V6(a) => self.lookup_ipv6(content, a, selected_fields),
        }
    }
}

/// Two lookup results that agree: the same error, both none, or the same
/// bounds with contents that agree.
pub open spec fn same_lookup(
    r1: Result<Option<(IpAddr, IpAddr, RecordFieldContents)>, LookupError>,
    r2: Result<Option<(IpAddr, IpAddr, RecordFieldContents)>, LookupError>,
) -> bool {
    match (r1, r2) {
        (Err(e1), Err(e2)) => e1 == e2,
        (Ok(None), Ok(None)) => true,
        (Ok(Some((a1, b1, c1))), Ok(Some((a2, b2, c2)))) => a1 == a2 && b1 == b2 && same_contents(
            c1@,
            c2@,
        ),
        _ => false,
    }
}

proof fn lemma_outcome_unique(
    t: RecordTable,
    file: Seq<u8>,
    s: Result<Option<(int, int, int)>, RecordsQueryError>,
    mask: Option<Seq<RecordField>>,
    form: BoundsForm,
    r1: Result<Option<(IpAddr, IpAddr, RecordFieldContents)>, LookupError>,
    r2: Result<Option<(IpAddr, IpAddr, RecordFieldContents)>, LookupError>,
)
    requires
        lookup_outcome(t, file, s, mask, form, r1),
        lookup_outcome(t, file, s, mask, form, r2),
    ensures
        same_lookup(r1, r2),
{
    if let Ok(Some((f, u, p))) = s {
        let c1 = choose|c0: Seq<RecordFieldContent>|
            #[trigger] t.row_contents(file, p, c0) && match fill_outcome(masked(c0, mask), file) {
                Err(e) => r1 == Err::<Option<(IpAddr, IpAddr, RecordFieldContents)>, LookupError>(
                    LookupError::ContentFillFailed(e),
                ),
                Ok(_) => r1 matches Ok(Some((lo, hi, c))) && lo == bound_as(f, form) && hi
                    == bound_as(u, form) && filled_from(masked(c0, mask), c@, file),
            };
        let c2 = choose|c0: Seq<RecordFieldContent>|
            #[trigger] t.row_contents(file, p, c0) && match fill_outcome(masked(c0, mask), file) {
                Err(e) => r2 == Err::<Option<(IpAddr, IpAddr, RecordFieldContents)>, LookupError>(
                    LookupError::ContentFillFailed(e),
                ),
                Ok(_) => r2 matches Ok(Some((lo, hi, c))) && lo == bound_as(f, form) && hi
                    == bound_as(u, form) && filled_from(masked(c0, mask), c@, file),
            };
        assert(same_contents(c1, c2));
        match mask {
            Some(m) => lemma_selected_same(c1, c2, m),
            None => {},
        }
        lemma_fill_outcome_same(masked(c1, mask), masked(c2, mask), file);
        if let (Ok(Some((_, _, x))), Ok(Some((_, _, y)))) = (r1, r2) {
            lemma_fill_cache_independent(masked(c1, mask), masked(c2, mask), x@, y@, file);
        }
    }
}

/// Idempotence: two lookups of one address with one mask on one database
/// give results that agree.
pub proof fn lemma_lookup_idempotent(
    q: Querier,
    ip: IpAddr,
    mask: Option<Seq<RecordField>>,
    r1: Result<Option<(IpAddr, IpAddr, RecordFieldContents)>, LookupError>,
    r2: Result<Option<(IpAddr, IpAddr, RecordFieldContents)>, LookupError>,
)
    requires
        q.lookup_post(ip, mask, r1),
        q.lookup_post(ip, mask, r2),
    ensures
        same_lookup(r1, r2),
{
    match ip {
        IpAddr::V4(a) => lemma_outcome_unique(
            q.table4(),
            q.file(),
            q.search_v4(a),
            mask,
            BoundsForm::V4,
            r1,
            r2,
        ),
        IpAddr::V6(a) => if is_v4_mapped(a) {
            lemma_outcome_unique(
                q.table4(),
                q.file(),
                q.search_v4((a - IPV4_MAPPED_BASE) as u32),
                mask,
                BoundsForm::Mapped,
                r1,
                r2,
            )
        } else {
            match q.table6() {
                Some(t) => lemma_outcome_unique(
                    t,
                    q.file(),
                    q.search_v6(a),
                    mask,
                    BoundsForm::V6,
                    r1,
                    r2,
                ),
                None => {},
            }
        },
    }
}

/// A found range holds the address: `lo <= ip < hi`, both bounds of the
/// address's own family.
pub proof fn lemma_lookup_holds_ip(
    q: Querier,
    ip: IpAddr,
    mask: Option<Seq<RecordField>>,
    r: Result<Option<(IpAddr, IpAddr, RecordFieldContents)>, LookupError>,
)
    requires
        q.wf(),
        q.lookup_post(ip, mask, r),
    ensures
        r matches Ok(Some((lo, hi, _))) ==> ip_value(lo) <= ip_value(ip) < ip_value(hi),
        r matches Ok(Some((lo, hi, _))) ==> (lo is V4 <==> ip is V4) && (hi is V4 <==> ip is V4),
{
    let t4 = q.table4();
    match ip {
        IpAddr::V4(a) => {
            let range = q.index4().range_at(8 * v4_prefix(a));
            let (lo, hi) = crate::records::clamped(range, t4.count());
            crate::records::lemma_search_found(t4, q.file(), a as int, lo, hi, 0);
        },
        IpAddr::V6(a) => if is_v4_mapped(a) {
            let b = (a - IPV4_MAPPED_BASE) as u32;
            let range = q.index4().range_at(8 * v4_prefix(b));
            let (lo, hi) = crate::records::clamped(range, t4.count());
            crate::records::lemma_search_found(t4, q.file(), b as int, lo, hi, 0);
        } else {
            if let (Some(ix), Some(t)) = (q.index6(), q.table6()) {
                let range = ix.range_at(8 * v6_prefix(a));
                let (lo, hi) = crate::records::clamped(range, t.count());
                crate::records::lemma_search_found(t, q.file(), a as int, lo, hi, 0);
            }
        },
    }
}

/// The bounds of a found row as a result reports them.
proof fn lemma_outcome_bounds(
    t: RecordTable,
    file: Seq<u8>,
    s: Result<Option<(int, int, int)>, RecordsQueryError>,
    mask: Option<Seq<RecordField>>,
    form: BoundsForm,
    r: Result<Option<(IpAddr, IpAddr, RecordFieldContents)>, LookupError>,
)
    requires
        lookup_outcome(t, file, s, mask, form, r),
    ensures
        r matches Ok(Some((lo, hi, _))) ==> (s matches Ok(Some((f, u, _))) && lo == bound_as(
            f,
            form,
        ) && hi == bound_as(u, form)),
{
    if let Ok(Some((f, u, p))) = s {
        let c0 = choose|c0: Seq<RecordFieldContent>|
            #[trigger] t.row_contents(file, p, c0) && match fill_outcome(masked(c0, mask), file) {
                Err(e) => r == Err::<Option<(IpAddr, IpAddr, RecordFieldContents)>, LookupError>(
                    LookupError::ContentFillFailed(e),
                ),
                Ok(_) => r matches Ok(Some((lo, hi, c))) && lo == bound_as(f, form) && hi
                    == bound_as(u, form) && filled_from(masked(c0, mask), c@, file),
            };
    }
}

/// An IPv4-mapped IPv6 lookup gives what the IPv4 lookup of the embedded
/// address gives, with the bounds mapped: the same error, none for none,
/// or the mapped bounds and contents that agree. This holds whether or not
/// the file has a v6 table.
pub proof fn lemma_mapped_lookup(
    q: Querier,
    a: u32,
    mask: Option<Seq<RecordField>>,
    r4: Result<Option<(IpAddr, IpAddr, RecordFieldContents)>, LookupError>,
    r6: Result<Option<(IpAddr, IpAddr, RecordFieldContents)>, LookupError>,
)
    requires
        q.wf(),
        q.lookup_post(IpAddr::V4(a), mask, r4),
        q.lookup_post(IpAddr::V6((IPV4_MAPPED_BASE + a) as u128), mask, r6),
    ensures
        match (r4, r6) {
            (Err(e4), Err(e6)) => e4 == e6,
            (Ok(None), Ok(None)) => true,
            (Ok(Some((lo4, hi4, c4))), Ok(Some((lo6, hi6, c6)))) => {
                &&& lo4 is V4 && hi4 is V4
                &&& lo6 == IpAddr::V6((IPV4_MAPPED_BASE + ip_value(lo4)) as u128)
                &&& hi6 == IpAddr::V6((IPV4_MAPPED_BASE + ip_value(hi4)) as u128)
                &&& same_contents(c4@, c6@)
            },
            _ => false,
        },
{
    let b6 = (IPV4_MAPPED_BASE + a) as u128;
    assert(is_v4_mapped(b6));
    assert((b6 - IPV4_MAPPED_BASE) as u32 == a);
    let t4 = q.table4();
    let file = q.file();
    let s = q.search_v4(a);
    let range = q.index4().range_at(8 * v4_prefix(a));
    let (lo, hi) = crate::records::clamped(range, t4.count());
    crate::records::lemma_search_found(t4, file, a as int, lo, hi, 0);
    lemma_outcome_bounds(t4, file, s, mask, BoundsForm::V4, r4);
    lemma_outcome_bounds(t4, file, s, mask, BoundsForm::Mapped, r6);
    if let Ok(Some((f, u, p))) = s {
        let c1 = choose|c0: Seq<RecordFieldContent>|
            #[trigger] t4.row_contents(file, p, c0) && match fill_outcome(masked(c0, mask), file) {
                Err(e) => r4 == Err::<Option<(IpAddr, IpAddr, RecordFieldContents)>, LookupError>(
                    LookupError::ContentFillFailed(e),
                ),
                Ok(_) => r4 matches Ok(Some((lo, hi, c))) && lo == bound_as(f, BoundsForm::V4)
                    && hi == bound_as(u, BoundsForm::V4) && filled_from(masked(c0, mask), c@, file),
            };
        let c2 = choose|c0: Seq<RecordFieldContent>|
            #[trigger] t4.row_contents(file, p, c0) && match fill_outcome(masked(c0, mask), file) {
                Err(e) => r6 == Err::<Option<(IpAddr, IpAddr, RecordFieldContents)>, LookupError>(
                    LookupError::ContentFillFailed(e),
                ),
                Ok(_) => r6 matches Ok(Some((lo, hi, c))) && lo == bound_as(f, BoundsForm::Mapped)
                    && hi == bound_as(u, BoundsForm::Mapped) && filled_from(
                    masked(c0, mask),
                    c@,
                    file,
                ),
            };
        assert(same_contents(c1, c2));
        match mask {
            Some(m) => lemma_selected_same(c1, c2, m),
            None => {},
        }
        lemma_fill_outcome_same(masked(c1, mask), masked(c2, mask), file);
        if let (Ok(Some((_, _, x))), Ok(Some((_, _, y)))) = (r4, r6) {
            lemma_fill_cache_independent(masked(c1, mask), masked(c2, mask), x@, y@, file);
        }
    }
}

/// Row order: in tables whose rows rise strictly, lookups of two addresses
/// of one family that both find a range return ranges in the order of the
/// addresses that never overlap.
pub proof fn lemma_lookups_ordered(
    q: Querier,
    x1: IpAddr,
    x2: IpAddr,
    mask: Option<Seq<RecordField>>,
    r1: Result<Option<(IpAddr, IpAddr, RecordFieldContents)>, LookupError>,
    r2: Result<Option<(IpAddr, IpAddr, RecordFieldContents)>, LookupError>,
)
    requires
        q.wf(),
        q.table4().rows_rising(q.file()),
        q.table6() matches Some(t) ==> t.rows_rising(q.file()),
        (x1 is V4 && x2 is V4) || (x1 matches IpAddr::V6(a1) && x2 matches IpAddr::V6(a2)
            && !is_v4_mapped(a1) && !is_v4_mapped(a2)),
        ip_value(x1) <= ip_value(x2),
        q.lookup_post(x1, mask, r1),
        q.lookup_post(x2, mask, r2),
    ensures
        r1 matches Ok(Some((lo1, hi1, _))) ==> (r2 matches Ok(Some((lo2, hi2, _))) ==> ip_value(lo1)
            <= ip_value(lo2) && (lo1 == lo2 || ip_value(hi1) <= ip_value(lo2))),
{
    match (x1, x2) {
        (IpAddr::V4(a1), IpAddr::V4(a2)) => {
            let t = q.table4();
            let g1 = q.index4().range_at(8 * v4_prefix(a1));
            let g2 = q.index4().range_at(8 * v4_prefix(a2));
            let (l1, h1) = crate::records::clamped(g1, t.count());
            let (l2, h2) = crate::records::clamped(g2, t.count());
            crate::records::lemma_search_found(t, q.file(), a1 as int, l1, h1, 0);
            crate::records::lemma_search_found(t, q.file(), a2 as int, l2, h2, 0);
            crate::records::lemma_found_ranges_ordered(t, q.file(), a1 as int, g1, a2 as int, g2);
            lemma_outcome_bounds(t, q.file(), q.search_v4(a1), mask, BoundsForm::V4, r1);
            lemma_outcome_bounds(t, q.file(), q.search_v4(a2), mask, BoundsForm::V4, r2);
        },
        (IpAddr::V6(a1), IpAddr::V6(a2)) => {
            if let (Some(ix), Some(t)) = (q.index6(), q.table6()) {
                let g1 = ix.range_at(8 * v6_prefix(a1));
                let g2 = ix.range_at(8 * v6_prefix(a2));
                crate::records::lemma_found_ranges_ordered(t, q.file(), a1 as int, g1, a2 as int, g2);
                lemma_outcome_bounds(t, q.file(), q.search_v6(a1), mask, BoundsForm::V6, r1);
                lemma_outcome_bounds(t, q.file(), q.search_v6(a2), mask, BoundsForm::V6, r2);
                let (l1, h1) = crate::records::clamped(g1, t.count());
                let (l2, h2) = crate::records::clamped(g2, t.count());
                crate::records::lemma_search_found(t, q.file(), a1 as int, l1, h1, 0);
                crate::records::lemma_search_found(t, q.file(), a2 as int, l2, h2, 0);
            }
        },
        _ => {},
    }
}

} // verus!
