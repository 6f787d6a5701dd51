//! Records of IP2Location databases (`DB1` to `DB11`) and the database
//! that yields them.
use vstd::prelude::*;

use crate::content::{is_unknown, known, known_text, opt_view, Querier as ContentQuerier};
use crate::querier::{
    ip_value, mask_view, IpAddr, LookupError as QuerierLookupError, NewError as QuerierNewError,
    Querier,
};
use crate::record_field::{last_of, lemma_last_of_push, RecordField as BinField, RecordFieldContent, RecordFieldContents};

verus! {

/// An ISO 3166-1 country code as the file stores it; empty when the record
/// has no country field.
#[derive(Debug, Clone, PartialEq, Eq, Hash)]
pub struct CountryCode(pub String);

impl CountryCode {
    /// Whether the code is the empty default.
    pub fn is_default(&self) -> (r: bool)
        ensures
            r == (self.0@.len() == 0),
    {
        self.0.as_str().is_empty()
    }
}

/// The known text of the last content of field `f`.
pub open spec fn text_of_last(s: Seq<RecordFieldContent>, f: BinField) -> Option<Seq<char>> {
    match last_of(s, f) {
        Some(c) => known(c.text_spec()),
        None => None,
    }
}

/// The slot bits of the last content of field `f`.
pub open spec fn bits_of_last(s: Seq<RecordFieldContent>, f: BinField) -> Option<u32> {
    match last_of(s, f) {
        Some(c) => Some(c.slot_spec()),
        None => None,
    }
}

/// The country code text of the last country content; empty without one.
pub open spec fn code_of_last(s: Seq<RecordFieldContent>) -> Seq<char> {
    match last_of(s, BinField::COUNTRY) {
        Some(c) => c.text_spec(),
        None => Seq::<char>::empty(),
    }
}

/// The known country name of the last country content.
pub open spec fn name_of_last(s: Seq<RecordFieldContent>) -> Option<Seq<char>> {
    match last_of(s, BinField::COUNTRY) {
        Some(c) => known(c.name_spec()),
        None => None,
    }
}

/// A record of an IP2Location database. Coordinates are the bits of the
/// `f32` values the file stores.
#[derive(Debug, Clone)]
pub struct Record {
    pub ip_from: IpAddr,
    pub ip_to: IpAddr,
    pub country_code: CountryCode,
    pub country_name: Option<String>,
    pub region_name: Option<String>,
    pub city_name: Option<String>,
    pub isp: Option<String>,
    pub domain: Option<String>,
    pub latitude: Option<u32>,
    pub longitude: Option<u32>,
    pub zip_code: Option<String>,
    pub time_zone: Option<String>,
    pub net_speed: Option<String>,
}

/// How reading a record's contents ends.
pub enum Scan {
    Fine,
    /// The country code is unknown: the lookup reports no record.
    Absent,
    /// A field that this family does not have.
    Unknown(BinField),
}

/// The fields that IP2Location records have.
pub open spec fn location_field(f: BinField) -> bool {
    match f {
        BinField::COUNTRY | BinField::REGION | BinField::CITY | BinField::ISP | BinField::DOMAIN
        | BinField::LATITUDE | BinField::LONGITUDE | BinField::ZIPCODE | BinField::TIMEZONE
        | BinField::NETSPEED => true,
        _ => false,
    }
}

pub open spec fn scan_step(c: RecordFieldContent) -> Scan {
    if !location_field(c.field_spec()) {
        Scan::Unknown(c.field_spec())
    } else if c.field_spec() == BinField::COUNTRY && c.text_spec() == crate::content::unknown_text() {
        Scan::Absent
    } else {
        Scan::Fine
    }
}

/// The first event, in order, of reading `s`.
pub open spec fn scan(s: Seq<RecordFieldContent>) -> Scan
    decreases s.len(),
{
    if s.len() == 0 {
        Scan::Fine
    } else {
        match scan(s.drop_last()) {
            Scan::Fine => scan_step(s.last()),
            other => other,
        }
    }
}

proof fn lemma_scan_prefix(s: Seq<RecordFieldContent>, k: int)
    requires
        0 <= k <= s.len(),
        !(scan(s.subrange(0, k)) is Fine),
    ensures
        scan(s) == scan(s.subrange(0, k)),
    decreases s.len() - k,
{
    if k < s.len() {
        assert(s.drop_last().subrange(0, k) =~= s.subrange(0, k));
        lemma_scan_prefix(s.drop_last(), k);
    } else {
        assert(s.subrange(0, k) =~= s);
    }
}

/// Why contents do not make a record.
#[derive(Debug, Clone, Copy, PartialEq, Eq, Structural)]
pub enum RecordError {
    UnknownField(BinField),
}

impl Record {
    /// The record's fields are those that `s` states.
    pub open spec fn describes(&self, s: Seq<RecordFieldContent>) -> bool {
        &&& self.country_code.0@ == code_of_last(s)
        &&& opt_view(self.country_name) == name_of_last(s)
        &&& opt_view(self.region_name) == text_of_last(s, BinField::REGION)
        &&& opt_view(self.city_name) == text_of_last(s, BinField::CITY)
        &&& opt_view(self.isp) == text_of_last(s, BinField::ISP)
        &&& opt_view(self.domain) == text_of_last(s, BinField::DOMAIN)
        &&& opt_view(self.zip_code) == text_of_last(s, BinField::ZIPCODE)
        &&& opt_view(self.time_zone) == text_of_last(s, BinField::TIMEZONE)
        &&& opt_view(self.net_speed) == text_of_last(s, BinField::NETSPEED)
        &&& self.latitude == bits_of_last(s, BinField::LATITUDE)
        &&& self.longitude == bits_of_last(s, BinField::LONGITUDE)
    }

    /// A record with the given bounds and no field set.
    pub fn with_empty(ip_from: IpAddr, ip_to: IpAddr) -> (r: Record)
        ensures
            r.ip_from == ip_from,
            r.ip_to == ip_to,
            r.describes(Seq::<RecordFieldContent>::empty()),
    {
        Record {
            ip_from,
            ip_to,
            country_code: CountryCode(String::new()),
            country_name: None,
            region_name: None,
            city_name: None,
            isp: None,
            domain: None,
            latitude: None,
            longitude: None,
            zip_code: None,
            time_zone: None,
            net_speed: None,
        }
    }

    /// The record that the contents of a lookup state: none when the
    /// country code is unknown, an error on a field this family lacks.
    #[verifier::rlimit(50)]
    pub fn from_contents(ip_from: IpAddr, ip_to: IpAddr, contents: &RecordFieldContents) -> (r: Result<
        Option<Record>,
        RecordError,
    >)
        ensures
            match scan(contents@) {
                Scan::Unknown(f) => r == Err::<Option<Record>, RecordError>(RecordError::UnknownField(f)),
                Scan::Absent => r matches Ok(None),
                Scan::Fine => r matches Ok(Some(rec)) && rec.ip_from == ip_from && rec.ip_to == ip_to
                    && rec.describes(contents@),
            },
    {
        let ghost s = contents@;
        let mut record = Record::with_empty(ip_from, ip_to);
        let n = contents.len();
        let mut i: usize = 0;
        while i < n
            invariant
                n == s.len(),
                s == contents@,
                i <= n,
                scan(s.subrange(0, i as int)) is Fine,
                record.ip_from == ip_from,
                record.ip_to == ip_to,
                record.describes(s.subrange(0, i as int)),
            decreases n - i,
        {
            let ghost pre = s.subrange(0, i as int);
            let ghost next = s.subrange(0, i + 1);
            proof {
                assert(next.drop_last() =~= pre);
                assert(next.last() == s[i as int]);
                lemma_last_of_push(s, i as int);
            }
            let c = contents.get(i);
            match c.field() {
                BinField::COUNTRY => {
                    let code = c.text();
                    if is_unknown(&code) {
                        proof {
                            lemma_scan_prefix(s, i + 1);
                        }
                        return Ok(None);
                    }
                    record.country_code = CountryCode(code);
                    record.country_name = known_text(c.name());
                },
                BinField::REGION => {
                    record.region_name = known_text(c.text());
                },
                BinField::CITY => {
                    record.city_name = known_text(c.text());
                },
                BinField::ISP => {
                    record.isp = known_text(c.text());
                },
                BinField::DOMAIN => {
                    record.domain = known_text(c.text());
                },
                BinField::ZIPCODE => {
                    record.zip_code = known_text(c.text());
                },
                BinField::TIMEZONE => {
                    record.time_zone = known_text(c.text());
                },
                BinField::NETSPEED => {
                    record.net_speed = known_text(c.text());
                },
                BinField::LATITUDE => {
                    record.latitude = Some(c.slot());
                },
                BinField::LONGITUDE => {
                    record.longitude = Some(c.slot());
                },
                other => {
                    proof {
                        lemma_scan_prefix(s, i + 1);
                    }
                    return Err(RecordError::UnknownField(other));
                },
            }
            i = i + 1;
        }
        assert(s.subrange(0, n as int) =~= s);
        Ok(Some(record))
    }
}

/// A field that a lookup in an IP2Location database can ask for.
#[derive(Debug, Clone, Copy, PartialEq, Eq, Structural)]
pub enum RecordField {
    CountryCodeAndName,
    RegionName,
    CityName,
    Isp,
    Domain,
    Latitude,
    Longitude,
    ZipCode,
    TimeZone,
    NetSpeed,
}

impl RecordField {
    pub open spec fn bin_spec(&self) -> BinField {
        match self {
            RecordField::CountryCodeAndName => BinField::COUNTRY,
            RecordField::RegionName => BinField::REGION,
            RecordField::CityName => BinField::CITY,
            RecordField::Isp => BinField::ISP,
            RecordField::Domain => BinField::DOMAIN,
            RecordField::Latitude => BinField::LATITUDE,
            RecordField::Longitude => BinField::LONGITUDE,
            RecordField::ZipCode => BinField::ZIPCODE,
            RecordField::TimeZone => BinField::TIMEZONE,
            RecordField::NetSpeed => BinField::NETSPEED,
        }
    }

    /// The file field it stands for.
    pub fn to_bin(&self) -> (r: BinField)
        ensures
            r == self.bin_spec(),
    {
        match self {
            RecordField::CountryCodeAndName => BinField::COUNTRY,
            RecordField::RegionName => BinField::REGION,
            RecordField::CityName => BinField::CITY,
            RecordField::Isp => BinField::ISP,
            RecordField::Domain => BinField::DOMAIN,
            RecordField::Latitude => BinField::LATITUDE,
            RecordField::Longitude => BinField::LONGITUDE,
            RecordField::ZipCode => BinField::ZIPCODE,
            RecordField::TimeZone => BinField::TIMEZONE,
            RecordField::NetSpeed => BinField::NETSPEED,
        }
    }
}

/// The file fields that `fields` stand for.
pub fn to_bin_fields(fields: &[RecordField]) -> (r: Vec<BinField>)
    ensures
        r@.len() == fields@.len(),
        forall|i: int| 0 <= i < r@.len() ==> r@[i] == (#[trigger] fields@[i]).bin_spec(),
{
    let mut r: Vec<BinField> = Vec::new();
    let mut i: usize = 0;
    while i < fields.len()
        invariant
            i <= fields@.len(),
            r@.len() == i,
            forall|j: int| 0 <= j < i ==> r@[j] == (#[trigger] fields@[j]).bin_spec(),
        decreases fields@.len() - i,
    {
        r.push(fields[i].to_bin());
        i = i + 1;
    }
    r
}

/// Why an IP2Location database cannot be opened.
#[derive(Debug, Clone, Copy, PartialEq, Eq, Structural)]
pub enum DatabaseNewError {
    QuerierNewError(QuerierNewError),
    /// The file is an IP2Proxy database.
    TypeMismatch,
}

/// Why an IP2Location lookup failed.
#[derive(Debug, Clone, Copy, PartialEq, Eq, Structural)]
pub enum DatabaseLookupError {
    QuerierLookupError(QuerierLookupError),
    ToRecordFailed(RecordError),
}

/// The record that a lookup result `r0` makes.
pub open spec fn record_outcome(
    r0: Result<Option<(IpAddr, IpAddr, RecordFieldContents)>, QuerierLookupError>,
    r: Result<Option<Record>, DatabaseLookupError>,
) -> bool {
    match r0 {
        Err(e) => r == Err::<Option<Record>, DatabaseLookupError>(
            DatabaseLookupError::QuerierLookupError(e),
        ),
        Ok(None) => r matches Ok(None),
        Ok(Some((lo, hi, c))) => match scan(c@) {
            Scan::Unknown(f) => r == Err::<Option<Record>, DatabaseLookupError>(
                DatabaseLookupError::ToRecordFailed(RecordError::UnknownField(f)),
            ),
            Scan::Absent => r matches Ok(None),
            Scan::Fine => r matches Ok(Some(rec)) && rec.ip_from == lo && rec.ip_to == hi
                && rec.describes(c@),
        },
    }
}

/// An opened IP2Location database.
#[derive(Debug)]
pub struct Database {
    inner: Querier,
}

impl Database {
    pub closed spec fn inner(&self) -> Querier {
        self.inner
    }

    pub open spec fn wf(&self) -> bool {
        self.inner().wf()
    }

    /// Opens the IP2Location database held in `file`.
    pub fn new(file: Vec<u8>) -> (r: Result<Database, DatabaseNewError>)
        ensures
            match crate::querier::open_outcome(file@) {
                Err(e) => r == Err::<Database, DatabaseNewError>(
                    DatabaseNewError::QuerierNewError(e),
                ),
                Ok(h) => if h.schema_type == crate::schema::SchemaType::IP2Proxy {
                    r == Err::<Database, DatabaseNewError>(DatabaseNewError::TypeMismatch)
                } else {
                    r matches Ok(d) && d.wf() && d.inner().file() == file@
                        && d.inner().header_spec() == h
                },
            },
    {
        let inner = match Querier::new(file) {
            Ok(q) => q,
            Err(e) => return Err(DatabaseNewError::QuerierNewError(e)),
        };
        if !inner.header().schema_type.is_ip2location() {
            return Err(DatabaseNewError::TypeMismatch);
        }
        Ok(Database { inner })
    }

    /// The database underneath.
    pub fn querier(&self) -> (r: &Querier)
        ensures
            *r == self.inner(),
    {
        &self.inner
    }

    /// A content resolver with empty caches, fit for this database.
    pub fn content_querier(&self) -> (r: ContentQuerier)
        ensures
            r.agrees_with(self.inner().file()),
    {
        self.inner.content_querier()
    }

    /// The record whose range holds `ip`, with only `selected_fields` when
    /// given; none when no range holds it or its country is unknown.
    pub fn lookup(
        &self,
        content: &mut ContentQuerier,
        ip: IpAddr,
        selected_fields: Option<&[RecordField]>,
    ) -> (r: Result<Option<Record>, DatabaseLookupError>)
        requires
            self.wf(),
            old(content).agrees_with(self.inner().file()),
        ensures
            final(content).agrees_with(self.inner().file()),
            exists|r0: Result<Option<(IpAddr, IpAddr, RecordFieldContents)>, QuerierLookupError>|
                self.inner().lookup_post(
                    ip,
                    match selected_fields {
                        Some(s) => Some(s@.map_values(|f: RecordField| f.bin_spec())),
                        None => None,
                    },
                    r0,
                ) && #[trigger] record_outcome(r0, r),
    {
        let r0 = match selected_fields {
            Some(s) => {
                let bin = to_bin_fields(s);
                assert(bin@ =~= s@.map_values(|f: RecordField| f.bin_spec()));
                self.inner.lookup(content, ip, Some(bin.as_slice()))
            },
            None => self.inner.lookup(content, ip, None),
        };
        let r = match r0 {
            Err(e) => Err(DatabaseLookupError::QuerierLookupError(e)),
            Ok(None) => Ok(None),
            Ok(Some((lo, hi, c))) => match Record::from_contents(lo, hi, &c) {
                Ok(x) => Ok(x),
                Err(e) => Err(DatabaseLookupError::ToRecordFailed(e)),
            },
        };
        assert(record_outcome(r0, r));
        r
    }
}

} // verus!
