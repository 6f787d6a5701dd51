//! The fields of a record and the field list of each database variant.
use vstd::prelude::*;

use crate::schema::{SchemaSubType, SchemaType};

verus! {

/// Bytes of one field slot of a record row.
pub const RECORD_FIELD_LEN_WITHOUT_IP: u32 = 4;

/// The largest number of fields, the leading IP included, of any variant.
pub const MAX_RECORD_FIELDS: usize = 13;

/// One column of a record row.
#[allow(non_camel_case_types)]
#[derive(Debug, Clone, Copy, PartialEq, Eq, Structural)]
pub enum RecordField {
    IP,
    COUNTRY,
    REGION,
    CITY,
    ISP,
    DOMAIN,
    LATITUDE,
    LONGITUDE,
    ZIPCODE,
    TIMEZONE,
    NETSPEED,
    PROXYTYPE,
    USAGETYPE,
    ASN,
    AS,
    LASTSEEN,
    THREAT,
    RESIDENTIAL,
    PROVIDER,
}

/// The ordered field list of an IP2Location variant `DB<n>`, if it is known.
pub open spec fn db_fields(n: u8) -> Option<Seq<RecordField>> {
    if n == 1 {
        Some(seq![RecordField::IP, RecordField::COUNTRY])
    }     else if n == 2 {
        Some(seq![RecordField::IP, RecordField::COUNTRY, RecordField::ISP])
    }     else if n == 3 {
        Some(seq![RecordField::IP, RecordField::COUNTRY, RecordField::REGION, RecordField::CITY])
    }     else if n == 4 {
        Some(seq![RecordField::IP, RecordField::COUNTRY, RecordField::REGION, RecordField::CITY, RecordField::ISP])
    }     else if n == 5 {
        Some(seq![RecordField::IP, RecordField::COUNTRY, RecordField::REGION, RecordField::CITY, RecordField::LATITUDE, RecordField::LONGITUDE])
    }     else if n == 6 {
        Some(seq![RecordField::IP, RecordField::COUNTRY, RecordField::REGION, RecordField::CITY, RecordField::LATITUDE, RecordField::LONGITUDE, RecordField::ISP])
    }     else if n == 7 {
        Some(seq![RecordField::IP, RecordField::COUNTRY, RecordField::REGION, RecordField::CITY, RecordField::ISP, RecordField::DOMAIN])
    }     else if n == 8 {
        Some(seq![RecordField::IP, RecordField::COUNTRY, RecordField::REGION, RecordField::CITY, RecordField::LATITUDE, RecordField::LONGITUDE, RecordField::ISP, RecordField::DOMAIN])
    }     else if n == 9 {
        Some(seq![RecordField::IP, RecordField::COUNTRY, RecordField::REGION, RecordField::CITY, RecordField::LATITUDE, RecordField::LONGITUDE, RecordField::ZIPCODE])
    }     else if n == 10 {
        Some(seq![RecordField::IP, RecordField::COUNTRY, RecordField::REGION, RecordField::CITY, RecordField::LATITUDE, RecordField::LONGITUDE, RecordField::ZIPCODE, RecordField::ISP, RecordField::DOMAIN])
    }     else if n == 11 {
        Some(seq![RecordField::IP, RecordField::COUNTRY, RecordField::REGION, RecordField::CITY, RecordField::LATITUDE, RecordField::LONGITUDE, RecordField::ZIPCODE, RecordField::TIMEZONE])
    } else {
        None
    }
}

/// The ordered field list of an IP2Proxy variant `PX<n>`, if it is known.
pub open spec fn px_fields(n: u8) -> Option<Seq<RecordField>> {
    if n == 1 {
        Some(seq![RecordField::IP, RecordField::COUNTRY])
    }     else if n == 2 {
        Some(seq![RecordField::IP, RecordField::PROXYTYPE, RecordField::COUNTRY])
    }     else if n == 3 {
        Some(seq![RecordField::IP, RecordField::PROXYTYPE, RecordField::COUNTRY, RecordField::REGION, RecordField::CITY])
    }     else if n == 4 {
        Some(seq![RecordField::IP, RecordField::PROXYTYPE, RecordField::COUNTRY, RecordField::REGION, RecordField::CITY, RecordField::ISP])
    }     else if n == 5 {
        Some(seq![RecordField::IP, RecordField::PROXYTYPE, RecordField::COUNTRY, RecordField::REGION, RecordField::CITY, RecordField::ISP, RecordField::DOMAIN])
    }     else if n == 6 {
        Some(seq![RecordField::IP, RecordField::PROXYTYPE, RecordField::COUNTRY, RecordField::REGION, RecordField::CITY, RecordField::ISP, RecordField::DOMAIN, RecordField::USAGETYPE])
    }     else if n == 7 {
        Some(seq![RecordField::IP, RecordField::PROXYTYPE, RecordField::COUNTRY, RecordField::REGION, RecordField::CITY, RecordField::ISP, RecordField::DOMAIN, RecordField::USAGETYPE, RecordField::ASN, RecordField::AS])
    }     else if n == 8 {
        Some(seq![RecordField::IP, RecordField::PROXYTYPE, RecordField::COUNTRY, RecordField::REGION, RecordField::CITY, RecordField::ISP, RecordField::DOMAIN, RecordField::USAGETYPE, RecordField::ASN, RecordField::AS, RecordField::LASTSEEN])
    }     else if n == 9 {
        Some(seq![RecordField::IP, RecordField::PROXYTYPE, RecordField::COUNTRY, RecordField::REGION, RecordField::CITY, RecordField::ISP, RecordField::DOMAIN, RecordField::USAGETYPE, RecordField::ASN, RecordField::AS, RecordField::LASTSEEN, RecordField::THREAT])
    }     else if n == 10 {
        Some(seq![RecordField::IP, RecordField::PROXYTYPE, RecordField::COUNTRY, RecordField::REGION, RecordField::CITY, RecordField::ISP, RecordField::DOMAIN, RecordField::USAGETYPE, RecordField::ASN, RecordField::AS, RecordField::LASTSEEN, RecordField::THREAT])
    }     else if n == 11 {
        Some(seq![RecordField::IP, RecordField::PROXYTYPE, RecordField::COUNTRY, RecordField::REGION, RecordField::CITY, RecordField::ISP, RecordField::DOMAIN, RecordField::USAGETYPE, RecordField::ASN, RecordField::AS, RecordField::LASTSEEN, RecordField::THREAT, RecordField::PROVIDER])
    } else {
        None
    }
}

/// The ordered field list of a (family, subtype) pair.
pub open spec fn schema_fields(t: SchemaType, n: u8) -> Option<Seq<RecordField>> {
    match t {
        SchemaType::IP2Proxy => px_fields(n),
        _ => db_fields(n),
    }
}

/// A field list as every variant has it: `IP` first and nowhere else.
pub open spec fn fields_wf(s: Seq<RecordField>) -> bool {
    &&& 2 <= s.len() <= MAX_RECORD_FIELDS
    &&& s[0] == RecordField::IP
    &&& forall|i: int| 1 <= i < s.len() ==> s[i] != RecordField::IP
}

/// The ordered field list of one database variant.
#[derive(Debug, Clone)]
pub struct RecordFields {
    fields: Vec<RecordField>,
}

impl View for RecordFields {
    type V = Seq<RecordField>;

    closed spec fn view(&self) -> Seq<RecordField> {
        self.fields@
    }
}

fn db_fields_exec(n: u8) -> (r: Option<Vec<RecordField>>)
    ensures
        r matches Some(v) ==> db_fields(n) == Some(v@),
        r is None ==> db_fields(n) is None,
{
    match n {
        1 => Some(vec![RecordField::IP, RecordField::COUNTRY]),
        2 => Some(vec![RecordField::IP, RecordField::COUNTRY, RecordField::ISP]),
        3 => Some(vec![RecordField::IP, RecordField::COUNTRY, RecordField::REGION, RecordField::CITY]),
        4 => Some(vec![RecordField::IP, RecordField::COUNTRY, RecordField::REGION, RecordField::CITY, RecordField::ISP]),
        5 => Some(vec![RecordField::IP, RecordField::COUNTRY, RecordField::REGION, RecordField::CITY, RecordField::LATITUDE, RecordField::LONGITUDE]),
        6 => Some(vec![RecordField::IP, RecordField::COUNTRY, RecordField::REGION, RecordField::CITY, RecordField::LATITUDE, RecordField::LONGITUDE, RecordField::ISP]),
        7 => Some(vec![RecordField::IP, RecordField::COUNTRY, RecordField::REGION, RecordField::CITY, RecordField::ISP, RecordField::DOMAIN]),
        8 => Some(vec![RecordField::IP, RecordField::COUNTRY, RecordField::REGION, RecordField::CITY, RecordField::LATITUDE, RecordField::LONGITUDE, RecordField::ISP, RecordField::DOMAIN]),
        9 => Some(vec![RecordField::IP, RecordField::COUNTRY, RecordField::REGION, RecordField::CITY, RecordField::LATITUDE, RecordField::LONGITUDE, RecordField::ZIPCODE]),
        10 => Some(vec![RecordField::IP, RecordField::COUNTRY, RecordField::REGION, RecordField::CITY, RecordField::LATITUDE, RecordField::LONGITUDE, RecordField::ZIPCODE, RecordField::ISP, RecordField::DOMAIN]),
        11 => Some(vec![RecordField::IP, RecordField::COUNTRY, RecordField::REGION, RecordField::CITY, RecordField::LATITUDE, RecordField::LONGITUDE, RecordField::ZIPCODE, RecordField::TIMEZONE]),
        _ => None,
    }
}

fn px_fields_exec(n: u8) -> (r: Option<Vec<RecordField>>)
    ensures
        r matches Some(v) ==> px_fields(n) == Some(v@),
        r is None ==> px_fields(n) is None,
{
    match n {
        1 => Some(vec![RecordField::IP, RecordField::COUNTRY]),
        2 => Some(vec![RecordField::IP, RecordField::PROXYTYPE, RecordField::COUNTRY]),
        3 => Some(vec![RecordField::IP, RecordField::PROXYTYPE, RecordField::COUNTRY, RecordField::REGION, RecordField::CITY]),
        4 => Some(vec![RecordField::IP, RecordField::PROXYTYPE, RecordField::COUNTRY, RecordField::REGION, RecordField::CITY, RecordField::ISP]),
        5 => Some(vec![RecordField::IP, RecordField::PROXYTYPE, RecordField::COUNTRY, RecordField::REGION, RecordField::CITY, RecordField::ISP, RecordField::DOMAIN]),
        6 => Some(vec![RecordField::IP, RecordField::PROXYTYPE, RecordField::COUNTRY, RecordField::REGION, RecordField::CITY, RecordField::ISP, RecordField::DOMAIN, RecordField::USAGETYPE]),
        7 => Some(vec![RecordField::IP, RecordField::PROXYTYPE, RecordField::COUNTRY, RecordField::REGION, RecordField::CITY, RecordField::ISP, RecordField::DOMAIN, RecordField::USAGETYPE, RecordField::ASN, RecordField::AS]),
        8 => Some(vec![RecordField::IP, RecordField::PROXYTYPE, RecordField::COUNTRY, RecordField::REGION, RecordField::CITY, RecordField::ISP, RecordField::DOMAIN, RecordField::USAGETYPE, RecordField::ASN, RecordField::AS, RecordField::LASTSEEN]),
        9 => Some(vec![RecordField::IP, RecordField::PROXYTYPE, RecordField::COUNTRY, RecordField::REGION, RecordField::CITY, RecordField::ISP, RecordField::DOMAIN, RecordField::USAGETYPE, RecordField::ASN, RecordField::AS, RecordField::LASTSEEN, RecordField::THREAT]),
        10 => Some(vec![RecordField::IP, RecordField::PROXYTYPE, RecordField::COUNTRY, RecordField::REGION, RecordField::CITY, RecordField::ISP, RecordField::DOMAIN, RecordField::USAGETYPE, RecordField::ASN, RecordField::AS, RecordField::LASTSEEN, RecordField::THREAT]),
        11 => Some(vec![RecordField::IP, RecordField::PROXYTYPE, RecordField::COUNTRY, RecordField::REGION, RecordField::CITY, RecordField::ISP, RecordField::DOMAIN, RecordField::USAGETYPE, RecordField::ASN, RecordField::AS, RecordField::LASTSEEN, RecordField::THREAT, RecordField::PROVIDER]),
        _ => None,
    }
}

impl RecordFields {
    /// The field list of a (family, subtype) pair; the subtype back when the
    /// pair is not a known variant.
    pub fn from_schema(t: SchemaType, sub_type: SchemaSubType) -> (r: Result<RecordFields, SchemaSubType>)
        ensures
            r matches Ok(f) ==> schema_fields(t, sub_type.0) == Some(f@) && fields_wf(f@),
            r matches Err(e) ==> schema_fields(t, sub_type.0) is None && e == sub_type,
    {
        let found = match t {
            SchemaType::IP2Proxy => px_fields_exec(sub_type.0),
            _ => db_fields_exec(sub_type.0),
        };
        match found {
            Some(fields) => {
                assert(fields_wf(fields@));
                Ok(RecordFields { fields })
            },
            None => Err(sub_type),
        }
    }

    pub open spec fn wf(&self) -> bool {
        fields_wf(self@)
    }

    /// Number of fields, the leading IP included.
    pub fn len(&self) -> (r: usize)
        ensures
            r == self@.len(),
    {
        self.fields.len()
    }

    /// The field at `i`.
    pub fn get(&self, i: usize) -> (r: RecordField)
        requires
            i < self@.len(),
        ensures
            r == self@[i as int],
    {
        self.fields[i]
    }

    /// Bytes of one IPv4 row: the 4-byte address and a slot per other field.
    pub fn record_bytes_len_for_ipv4(&self) -> (r: u32)
        requires
            self.wf(),
        ensures
            r == 4 * self@.len(),
    {
        self.fields.len() as u32 * RECORD_FIELD_LEN_WITHOUT_IP
    }

    /// Bytes of one IPv4 row followed by the next row's address.
    pub fn record_bytes_len_for_ipv4_with_double_ip(&self) -> (r: u32)
        requires
            self.wf(),
        ensures
            r == 4 * self@.len() + 4,
    {
        self.record_bytes_len_for_ipv4() + 4
    }

    /// Bytes of `n` IPv4 rows.
    pub fn records_bytes_len_for_ipv4(&self, n: u32) -> (r: u32)
        requires
            self.wf(),
            4 * self@.len() * n <= u32::MAX,
        ensures
            r == 4 * self@.len() * n,
    {
        self.record_bytes_len_for_ipv4() * n
    }

    /// Bytes of one IPv6 row: the 16-byte address and a slot per other field.
    pub fn record_bytes_len_for_ipv6(&self) -> (r: u32)
        requires
            self.wf(),
        ensures
            r == 4 * self@.len() + 12,
    {
        self.fields.len() as u32 * RECORD_FIELD_LEN_WITHOUT_IP + 12
    }

    /// Bytes of one IPv6 row followed by the next row's address.
    pub fn record_bytes_len_for_ipv6_with_double_ip(&self) -> (r: u32)
        requires
            self.wf(),
        ensures
            r == 4 * self@.len() + 28,
    {
        self.record_bytes_len_for_ipv6() + 16
    }

    /// Bytes of `n` IPv6 rows.
    pub fn records_bytes_len_for_ipv6(&self, n: u32) -> (r: u32)
        requires
            self.wf(),
            (4 * self@.len() + 12) * n <= u32::MAX,
        ensures
            r == (4 * self@.len() + 12) * n,
    {
        self.record_bytes_len_for_ipv6() * n
    }
}

/// One decoded field of a record: the slot read from the row and, for a
/// string field, the text found at that offset.
#[allow(non_camel_case_types)]
#[derive(Debug, Clone)]
pub enum RecordFieldContent {
    /// Offset, country code, country name.
    COUNTRY(u32, String, String),
    REGION(u32, String),
    CITY(u32, String),
    ISP(u32, String),
    DOMAIN(u32, String),
    /// The IEEE-754 bits of a little-endian `f32`.
    LATITUDE(u32),
    /// The IEEE-754 bits of a little-endian `f32`.
    LONGITUDE(u32),
    ZIPCODE(u32, String),
    TIMEZONE(u32, String),
    NETSPEED(u32, String),
    PROXYTYPE(u32, String),
    USAGETYPE(u32, String),
    ASN(u32, String),
    AS(u32, String),
    LASTSEEN(u32, String),
    THREAT(u32, String),
    RESIDENTIAL(u32, String),
    PROVIDER(u32, String),
}

impl RecordFieldContent {
    pub open spec fn field_spec(&self) -> RecordField {
        match self {
            RecordFieldContent::COUNTRY(..) => RecordField::COUNTRY,
            RecordFieldContent::REGION(..) => RecordField::REGION,
            RecordFieldContent::CITY(..) => RecordField::CITY,
            RecordFieldContent::ISP(..) => RecordField::ISP,
            RecordFieldContent::DOMAIN(..) => RecordField::DOMAIN,
            RecordFieldContent::LATITUDE(..) => RecordField::LATITUDE,
            RecordFieldContent::LONGITUDE(..) => RecordField::LONGITUDE,
            RecordFieldContent::ZIPCODE(..) => RecordField::ZIPCODE,
            RecordFieldContent::TIMEZONE(..) => RecordField::TIMEZONE,
            RecordFieldContent::NETSPEED(..) => RecordField::NETSPEED,
            RecordFieldContent::PROXYTYPE(..) => RecordField::PROXYTYPE,
            RecordFieldContent::USAGETYPE(..) => RecordField::USAGETYPE,
            RecordFieldContent::ASN(..) => RecordField::ASN,
            RecordFieldContent::AS(..) => RecordField::AS,
            RecordFieldContent::LASTSEEN(..) => RecordField::LASTSEEN,
            RecordFieldContent::THREAT(..) => RecordField::THREAT,
            RecordFieldContent::RESIDENTIAL(..) => RecordField::RESIDENTIAL,
            RecordFieldContent::PROVIDER(..) => RecordField::PROVIDER,
        }
    }

    /// The slot: a content offset, or the bits of a coordinate.
    pub open spec fn slot_spec(&self) -> u32 {
        match self {
            RecordFieldContent::COUNTRY(i, _, _) => *i,
            RecordFieldContent::REGION(i, _) => *i,
            RecordFieldContent::CITY(i, _) => *i,
            RecordFieldContent::ISP(i, _) => *i,
            RecordFieldContent::DOMAIN(i, _) => *i,
            RecordFieldContent::LATITUDE(v) => *v,
            RecordFieldContent::LONGITUDE(v) => *v,
            RecordFieldContent::ZIPCODE(i, _) => *i,
            RecordFieldContent::TIMEZONE(i, _) => *i,
            RecordFieldContent::NETSPEED(i, _) => *i,
            RecordFieldContent::PROXYTYPE(i, _) => *i,
            RecordFieldContent::USAGETYPE(i, _) => *i,
            RecordFieldContent::ASN(i, _) => *i,
            RecordFieldContent::AS(i, _) => *i,
            RecordFieldContent::LASTSEEN(i, _) => *i,
            RecordFieldContent::THREAT(i, _) => *i,
            RecordFieldContent::RESIDENTIAL(i, _) => *i,
            RecordFieldContent::PROVIDER(i, _) => *i,
        }
    }

    /// The text of a string field; empty for a coordinate.
    pub open spec fn text_spec(&self) -> Seq<char> {
        match self {
            RecordFieldContent::COUNTRY(_, v, _) => v@,
            RecordFieldContent::REGION(_, v) => v@,
            RecordFieldContent::CITY(_, v) => v@,
            RecordFieldContent::ISP(_, v) => v@,
            RecordFieldContent::DOMAIN(_, v) => v@,
            RecordFieldContent::LATITUDE(_) => Seq::<char>::empty(),
            RecordFieldContent::LONGITUDE(_) => Seq::<char>::empty(),
            RecordFieldContent::ZIPCODE(_, v) => v@,
            RecordFieldContent::TIMEZONE(_, v) => v@,
            RecordFieldContent::NETSPEED(_, v) => v@,
            RecordFieldContent::PROXYTYPE(_, v) => v@,
            RecordFieldContent::USAGETYPE(_, v) => v@,
            RecordFieldContent::ASN(_, v) => v@,
            RecordFieldContent::AS(_, v) => v@,
            RecordFieldContent::LASTSEEN(_, v) => v@,
            RecordFieldContent::THREAT(_, v) => v@,
            RecordFieldContent::RESIDENTIAL(_, v) => v@,
            RecordFieldContent::PROVIDER(_, v) => v@,
        }
    }

    /// The country name; empty for every other field.
    pub open spec fn name_spec(&self) -> Seq<char> {
        match self {
            RecordFieldContent::COUNTRY(_, _, n) => n@,
            _ => Seq::<char>::empty(),
        }
    }

    /// A field read as a string, not as a coordinate.
    pub open spec fn is_text_field(f: RecordField) -> bool {
        f != RecordField::LATITUDE && f != RecordField::LONGITUDE
    }

    pub fn field(&self) -> (r: RecordField)
        ensures
            r == self.field_spec(),
    {
        match self {
            RecordFieldContent::COUNTRY(..) => RecordField::COUNTRY,
            RecordFieldContent::REGION(..) => RecordField::REGION,
            RecordFieldContent::CITY(..) => RecordField::CITY,
            RecordFieldContent::ISP(..) => RecordField::ISP,
            RecordFieldContent::DOMAIN(..) => RecordField::DOMAIN,
            RecordFieldContent::LATITUDE(..) => RecordField::LATITUDE,
            RecordFieldContent::LONGITUDE(..) => RecordField::LONGITUDE,
            RecordFieldContent::ZIPCODE(..) => RecordField::ZIPCODE,
            RecordFieldContent::TIMEZONE(..) => RecordField::TIMEZONE,
            RecordFieldContent::NETSPEED(..) => RecordField::NETSPEED,
            RecordFieldContent::PROXYTYPE(..) => RecordField::PROXYTYPE,
            RecordFieldContent::USAGETYPE(..) => RecordField::USAGETYPE,
            RecordFieldContent::ASN(..) => RecordField::ASN,
            RecordFieldContent::AS(..) => RecordField::AS,
            RecordFieldContent::LASTSEEN(..) => RecordField::LASTSEEN,
            RecordFieldContent::THREAT(..) => RecordField::THREAT,
            RecordFieldContent::RESIDENTIAL(..) => RecordField::RESIDENTIAL,
            RecordFieldContent::PROVIDER(..) => RecordField::PROVIDER,
        }
    }

    pub fn slot(&self) -> (r: u32)
        ensures
            r == self.slot_spec(),
    {
        match self {
            RecordFieldContent::COUNTRY(i, _, _) => *i,
            RecordFieldContent::REGION(i, _) => *i,
            RecordFieldContent::CITY(i, _) => *i,
            RecordFieldContent::ISP(i, _) => *i,
            RecordFieldContent::DOMAIN(i, _) => *i,
            RecordFieldContent::LATITUDE(v) => *v,
            RecordFieldContent::LONGITUDE(v) => *v,
            RecordFieldContent::ZIPCODE(i, _) => *i,
            RecordFieldContent::TIMEZONE(i, _) => *i,
            RecordFieldContent::NETSPEED(i, _) => *i,
            RecordFieldContent::PROXYTYPE(i, _) => *i,
            RecordFieldContent::USAGETYPE(i, _) => *i,
            RecordFieldContent::ASN(i, _) => *i,
            RecordFieldContent::AS(i, _) => *i,
            RecordFieldContent::LASTSEEN(i, _) => *i,
            RecordFieldContent::THREAT(i, _) => *i,
            RecordFieldContent::RESIDENTIAL(i, _) => *i,
            RecordFieldContent::PROVIDER(i, _) => *i,
        }
    }

    /// The text of a string field; empty for a coordinate.
    pub fn text(&self) -> (r: String)
        ensures
            r@ == self.text_spec(),
    {
        match self {
            RecordFieldContent::COUNTRY(_, v, _) => v.clone(),
            RecordFieldContent::REGION(_, v) => v.clone(),
            RecordFieldContent::CITY(_, v) => v.clone(),
            RecordFieldContent::ISP(_, v) => v.clone(),
            RecordFieldContent::DOMAIN(_, v) => v.clone(),
            RecordFieldContent::LATITUDE(_) => String::new(),
            RecordFieldContent::LONGITUDE(_) => String::new(),
            RecordFieldContent::ZIPCODE(_, v) => v.clone(),
            RecordFieldContent::TIMEZONE(_, v) => v.clone(),
            RecordFieldContent::NETSPEED(_, v) => v.clone(),
            RecordFieldContent::PROXYTYPE(_, v) => v.clone(),
            RecordFieldContent::USAGETYPE(_, v) => v.clone(),
            RecordFieldContent::ASN(_, v) => v.clone(),
            RecordFieldContent::AS(_, v) => v.clone(),
            RecordFieldContent::LASTSEEN(_, v) => v.clone(),
            RecordFieldContent::THREAT(_, v) => v.clone(),
            RecordFieldContent::RESIDENTIAL(_, v) => v.clone(),
            RecordFieldContent::PROVIDER(_, v) => v.clone(),
        }
    }

    /// The country name; empty for every other field.
    pub fn name(&self) -> (r: String)
        ensures
            r@ == self.name_spec(),
    {
        match self {
            RecordFieldContent::COUNTRY(_, _, n) => n.clone(),
            _ => String::new(),
        }
    }

    /// An unfilled content of field `f`.
    pub fn empty_of(f: RecordField) -> (r: RecordFieldContent)
        requires
            f != RecordField::IP,
        ensures
            r.field_spec() == f,
            r.slot_spec() == 0,
            r.text_spec() == Seq::<char>::empty(),
            r.name_spec() == Seq::<char>::empty(),
    {
        match f {
            RecordField::IP => RecordFieldContent::COUNTRY(0, String::new(), String::new()),
            RecordField::COUNTRY => RecordFieldContent::COUNTRY(0, String::new(), String::new()),
            RecordField::REGION => RecordFieldContent::REGION(0, String::new()),
            RecordField::CITY => RecordFieldContent::CITY(0, String::new()),
            RecordField::ISP => RecordFieldContent::ISP(0, String::new()),
            RecordField::DOMAIN => RecordFieldContent::DOMAIN(0, String::new()),
            RecordField::LATITUDE => RecordFieldContent::LATITUDE(0),
            RecordField::LONGITUDE => RecordFieldContent::LONGITUDE(0),
            RecordField::ZIPCODE => RecordFieldContent::ZIPCODE(0, String::new()),
            RecordField::TIMEZONE => RecordFieldContent::TIMEZONE(0, String::new()),
            RecordField::NETSPEED => RecordFieldContent::NETSPEED(0, String::new()),
            RecordField::PROXYTYPE => RecordFieldContent::PROXYTYPE(0, String::new()),
            RecordField::USAGETYPE => RecordFieldContent::USAGETYPE(0, String::new()),
            RecordField::ASN => RecordFieldContent::ASN(0, String::new()),
            RecordField::AS => RecordFieldContent::AS(0, String::new()),
            RecordField::LASTSEEN => RecordFieldContent::LASTSEEN(0, String::new()),
            RecordField::THREAT => RecordFieldContent::THREAT(0, String::new()),
            RecordField::RESIDENTIAL => RecordFieldContent::RESIDENTIAL(0, String::new()),
            RecordField::PROVIDER => RecordFieldContent::PROVIDER(0, String::new()),
        }
    }

    /// The same field with slot `v`, its texts kept.
    pub fn set_slot(&mut self, v: u32)
        ensures
            final(self).field_spec() == old(self).field_spec(),
            final(self).slot_spec() == v,
            final(self).text_spec() == old(self).text_spec(),
            final(self).name_spec() == old(self).name_spec(),
    {
        match self {
            RecordFieldContent::COUNTRY(i, _, _) => *i = v,
            RecordFieldContent::REGION(i, _) => *i = v,
            RecordFieldContent::CITY(i, _) => *i = v,
            RecordFieldContent::ISP(i, _) => *i = v,
            RecordFieldContent::DOMAIN(i, _) => *i = v,
            RecordFieldContent::LATITUDE(x) => *x = v,
            RecordFieldContent::LONGITUDE(x) => *x = v,
            RecordFieldContent::ZIPCODE(i, _) => *i = v,
            RecordFieldContent::TIMEZONE(i, _) => *i = v,
            RecordFieldContent::NETSPEED(i, _) => *i = v,
            RecordFieldContent::PROXYTYPE(i, _) => *i = v,
            RecordFieldContent::USAGETYPE(i, _) => *i = v,
            RecordFieldContent::ASN(i, _) => *i = v,
            RecordFieldContent::AS(i, _) => *i = v,
            RecordFieldContent::LASTSEEN(i, _) => *i = v,
            RecordFieldContent::THREAT(i, _) => *i = v,
            RecordFieldContent::RESIDENTIAL(i, _) => *i = v,
            RecordFieldContent::PROVIDER(i, _) => *i = v,
        }
    }

    /// Sets the text of a string field; a coordinate is left as it is.
    pub fn set_text(&mut self, s: String)
        ensures
            final(self).field_spec() == old(self).field_spec(),
            final(self).slot_spec() == old(self).slot_spec(),
            Self::is_text_field(old(self).field_spec()) ==> final(self).text_spec() == s@,
            !Self::is_text_field(old(self).field_spec()) ==> final(self).text_spec() == old(self).text_spec(),
            final(self).name_spec() == old(self).name_spec(),
    {
        match self {
            RecordFieldContent::COUNTRY(_, x, _) => *x = s,
            RecordFieldContent::REGION(_, x) => *x = s,
            RecordFieldContent::CITY(_, x) => *x = s,
            RecordFieldContent::ISP(_, x) => *x = s,
            RecordFieldContent::DOMAIN(_, x) => *x = s,
            RecordFieldContent::LATITUDE(_) => {},
            RecordFieldContent::LONGITUDE(_) => {},
            RecordFieldContent::ZIPCODE(_, x) => *x = s,
            RecordFieldContent::TIMEZONE(_, x) => *x = s,
            RecordFieldContent::NETSPEED(_, x) => *x = s,
            RecordFieldContent::PROXYTYPE(_, x) => *x = s,
            RecordFieldContent::USAGETYPE(_, x) => *x = s,
            RecordFieldContent::ASN(_, x) => *x = s,
            RecordFieldContent::AS(_, x) => *x = s,
            RecordFieldContent::LASTSEEN(_, x) => *x = s,
            RecordFieldContent::THREAT(_, x) => *x = s,
            RecordFieldContent::RESIDENTIAL(_, x) => *x = s,
            RecordFieldContent::PROVIDER(_, x) => *x = s,
        }
    }

    /// Sets the country name; any other field is left as it is.
    pub fn set_name(&mut self, s: String)
        ensures
            final(self).field_spec() == old(self).field_spec(),
            final(self).slot_spec() == old(self).slot_spec(),
            final(self).text_spec() == old(self).text_spec(),
            old(self).field_spec() == RecordField::COUNTRY ==> final(self).name_spec() == s@,
            old(self).field_spec() != RecordField::COUNTRY ==> final(self).name_spec() == old(self).name_spec(),
    {
        match self {
            RecordFieldContent::COUNTRY(_, _, x) => *x = s,
            _ => {},
        }
    }
}

/// The decoded fields of one record, in the variant's order, without the IP.
#[derive(Debug, Clone)]
pub struct RecordFieldContents {
    contents: Vec<RecordFieldContent>,
}

impl View for RecordFieldContents {
    type V = Seq<RecordFieldContent>;

    closed spec fn view(&self) -> Seq<RecordFieldContent> {
        self.contents@
    }
}

/// The contents of `s` whose field is listed in `keep`, in their order.
pub open spec fn selected(s: Seq<RecordFieldContent>, keep: Seq<RecordField>) -> Seq<RecordFieldContent>
    decreases s.len(),
{
    if s.len() == 0 {
        s
    } else {
        let rest = selected(s.drop_last(), keep);
        if keep.contains(s.last().field_spec()) {
            rest.push(s.last())
        } else {
            rest
        }
    }
}

/// Whether `f` is listed in `fields`.
pub fn contains_field(fields: &[RecordField], f: RecordField) -> (r: bool)
    ensures
        r == fields@.contains(f),
{
    let mut i: usize = 0;
    while i < fields.len()
        invariant
            i <= fields@.len(),
            forall|j: int| 0 <= j < i ==> fields@[j] != f,
        decreases fields@.len() - i,
    {
        if fields[i] == f {
            return true;
        }
        i = i + 1;
    }
    false
}

impl RecordFieldContents {
    pub fn new() -> (r: RecordFieldContents)
        ensures
            r@ == Seq::<RecordFieldContent>::empty(),
    {
        RecordFieldContents { contents: Vec::new() }
    }

    pub fn len(&self) -> (r: usize)
        ensures
            r == self@.len(),
    {
        self.contents.len()
    }

    /// The content at `i`.
    pub fn get(&self, i: usize) -> (r: &RecordFieldContent)
        requires
            i < self@.len(),
        ensures
            *r == self@[i as int],
    {
        &self.contents[i]
    }

    /// Appends a content.
    pub fn push(&mut self, c: RecordFieldContent)
        ensures
            final(self)@ == old(self)@.push(c),
    {
        self.contents.push(c);
    }

    /// Replaces the content at `i`.
    pub fn set(&mut self, i: usize, c: RecordFieldContent)
        requires
            i < old(self)@.len(),
        ensures
            final(self)@ == old(self)@.update(i as int, c),
    {
        self.contents.set(i, c);
    }

    /// Keeps only the contents whose field is listed in `record_fields`.
    pub fn select(&mut self, record_fields: &[RecordField])
        ensures
            final(self)@ == selected(old(self)@, record_fields@),
    {
        let ghost s = self.contents@;
        let n = self.contents.len();
        let mut i: usize = 0;
        let mut j: usize = 0;
        while i < self.contents.len()
            invariant
                j <= s.len(),
                n == s.len(),
                i == selected(s.subrange(0, j as int), record_fields@).len(),
                self.contents@ == selected(s.subrange(0, j as int), record_fields@) + s.subrange(
                    j as int,
                    s.len() as int,
                ),
            decreases s.len() - j,
        {
            let ghost pre = selected(s.subrange(0, j as int), record_fields@);
            assert(self.contents@.len() == pre.len() + (s.len() - j));
            assert(j < s.len());
            assert(self.contents@[i as int] == s[j as int]);
            assert(s.subrange(0, j + 1).drop_last() =~= s.subrange(0, j as int));
            assert(s.subrange(0, j + 1).last() == s[j as int]);
            if contains_field(record_fields, self.contents[i].field()) {
                i = i + 1;
            } else {
                self.contents.remove(i);
            }
            j = j + 1;
            assert(self.contents@ =~= selected(s.subrange(0, j as int), record_fields@) + s.subrange(
                j as int,
                s.len() as int,
            ));
        }
        assert(j == s.len());
        assert(s.subrange(0, s.len() as int) =~= s);
        assert(self.contents@ =~= selected(s, record_fields@));
    }
}

impl RecordFields {
    /// Unfilled contents, one per field after the leading IP.
    pub fn to_contents(&self) -> (r: RecordFieldContents)
        requires
            self.wf(),
        ensures
            r@.len() == self@.len() - 1,
            forall|i: int| 0 <= i < r@.len() ==> {
                &&& (#[trigger] r@[i]).field_spec() == self@[i + 1]
                &&& r@[i].slot_spec() == 0
                &&& r@[i].text_spec() == Seq::<char>::empty()
                &&& r@[i].name_spec() == Seq::<char>::empty()
            },
    {
        let mut r = RecordFieldContents::new();
        let mut i: usize = 1;
        while i < self.fields.len()
            invariant
                self.wf(),
                1 <= i <= self@.len(),
                r@.len() == i - 1,
                forall|j: int| 0 <= j < r@.len() ==> {
                    &&& (#[trigger] r@[j]).field_spec() == self@[j + 1]
                    &&& r@[j].slot_spec() == 0
                    &&& r@[j].text_spec() == Seq::<char>::empty()
                    &&& r@[j].name_spec() == Seq::<char>::empty()
                },
            decreases self@.len() - i,
        {
            r.push(RecordFieldContent::empty_of(self.fields[i]));
            i = i + 1;
        }
        r
    }
}

impl RecordFieldContents {
    /// Sets the text of the content at `i`, as `RecordFieldContent::set_text` does.
    pub fn set_text_at(&mut self, i: usize, s: String)
        requires
            i < old(self)@.len(),
        ensures
            final(self)@.len() == old(self)@.len(),
            forall|j: int| 0 <= j < old(self)@.len() && j != i ==> final(self)@[j] == old(self)@[j],
            final(self)@[i as int].field_spec() == old(self)@[i as int].field_spec(),
            final(self)@[i as int].slot_spec() == old(self)@[i as int].slot_spec(),
            final(self)@[i as int].name_spec() == old(self)@[i as int].name_spec(),
            RecordFieldContent::is_text_field(old(self)@[i as int].field_spec()) ==> final(self)@[i as int].text_spec() == s@,
            !RecordFieldContent::is_text_field(old(self)@[i as int].field_spec()) ==> final(self)@[i as int].text_spec() == old(self)@[i as int].text_spec(),
    {
        let mut c = self.contents.remove(i);
        c.set_text(s);
        self.contents.insert(i, c);
    }

    /// Sets the country name of the content at `i`, as `RecordFieldContent::set_name` does.
    pub fn set_name_at(&mut self, i: usize, s: String)
        requires
            i < old(self)@.len(),
        ensures
            final(self)@.len() == old(self)@.len(),
            forall|j: int| 0 <= j < old(self)@.len() && j != i ==> final(self)@[j] == old(self)@[j],
            final(self)@[i as int].field_spec() == old(self)@[i as int].field_spec(),
            final(self)@[i as int].slot_spec() == old(self)@[i as int].slot_spec(),
            final(self)@[i as int].text_spec() == old(self)@[i as int].text_spec(),
            old(self)@[i as int].field_spec() == RecordField::COUNTRY ==> final(self)@[i as int].name_spec() == s@,
            old(self)@[i as int].field_spec() != RecordField::COUNTRY ==> final(self)@[i as int].name_spec() == old(self)@[i as int].name_spec(),
    {
        let mut c = self.contents.remove(i);
        c.set_name(s);
        self.contents.insert(i, c);
    }
}

/// `a` and `b` hold the same fields with the same slots and texts.
pub open spec fn same_contents(a: Seq<RecordFieldContent>, b: Seq<RecordFieldContent>) -> bool {
    &&& a.len() == b.len()
    &&& forall|i: int|
        0 <= i < a.len() ==> {
            &&& (#[trigger] a[i]).field_spec() == b[i].field_spec()
            &&& a[i].slot_spec() == b[i].slot_spec()
            &&& a[i].text_spec() == b[i].text_spec()
            &&& a[i].name_spec() == b[i].name_spec()
        }
}

/// Masking keeps contents that agree in agreement.
pub proof fn lemma_selected_same(
    a: Seq<RecordFieldContent>,
    b: Seq<RecordFieldContent>,
    keep: Seq<RecordField>,
)
    requires
        same_contents(a, b),
    ensures
        same_contents(selected(a, keep), selected(b, keep)),
    decreases a.len(),
{
    if a.len() > 0 {
        let n = a.len() - 1;
        assert(a[n].field_spec() == b[n].field_spec());
        assert(same_contents(a.drop_last(), b.drop_last())) by {
            assert forall|i: int| 0 <= i < a.drop_last().len() implies {
                &&& (#[trigger] a.drop_last()[i]).field_spec() == b.drop_last()[i].field_spec()
                &&& a.drop_last()[i].slot_spec() == b.drop_last()[i].slot_spec()
                &&& a.drop_last()[i].text_spec() == b.drop_last()[i].text_spec()
                &&& a.drop_last()[i].name_spec() == b.drop_last()[i].name_spec()
            } by {
                assert(a.drop_last()[i] == a[i]);
                assert(b.drop_last()[i] == b[i]);
            }
        }
        lemma_selected_same(a.drop_last(), b.drop_last(), keep);
        let ra = selected(a.drop_last(), keep);
        let rb = selected(b.drop_last(), keep);
        if keep.contains(a.last().field_spec()) {
            assert forall|i: int| 0 <= i < ra.push(a.last()).len() implies {
                &&& (#[trigger] ra.push(a.last())[i]).field_spec() == rb.push(b.last())[i].field_spec()
                &&& ra.push(a.last())[i].slot_spec() == rb.push(b.last())[i].slot_spec()
                &&& ra.push(a.last())[i].text_spec() == rb.push(b.last())[i].text_spec()
                &&& ra.push(a.last())[i].name_spec() == rb.push(b.last())[i].name_spec()
            } by {
                if i < ra.len() {
                    assert(ra.push(a.last())[i] == ra[i]);
                    assert(rb.push(b.last())[i] == rb[i]);
                }
            }
        }
    }
}

/// The last content of field `f` in `s`, if any.
pub open spec fn last_of(s: Seq<RecordFieldContent>, f: RecordField) -> Option<RecordFieldContent>
    decreases s.len(),
{
    if s.len() == 0 {
        None
    } else if s.last().field_spec() == f {
        Some(s.last())
    } else {
        last_of(s.drop_last(), f)
    }
}

/// The last content of each field in `s` with one more content appended.
pub proof fn lemma_last_of_push(s: Seq<RecordFieldContent>, i: int)
    requires
        0 <= i < s.len(),
    ensures
        forall|f: RecordField|
            #[trigger] last_of(s.subrange(0, i + 1), f) == if s[i].field_spec() == f {
                Some(s[i])
            } else {
                last_of(s.subrange(0, i), f)
            },
{
    assert(s.subrange(0, i + 1).drop_last() =~= s.subrange(0, i));
    assert(s.subrange(0, i + 1).last() == s[i]);
}

} // verus!
