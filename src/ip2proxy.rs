//! Records of IP2Proxy databases (`PX1` to `PX11`) and the database that
//! yields them.
use vstd::prelude::*;
use vstd::utf8::encode_utf8;

use crate::content::{is_unknown, known, known_text, opt_view, text_is, Querier as ContentQuerier};
use crate::ip2location::{code_of_last, name_of_last, text_of_last, CountryCode};
use crate::querier::{
    IpAddr, LookupError as QuerierLookupError, NewError as QuerierNewError, Querier,
};
use crate::record_field::{last_of, lemma_last_of_push, RecordField as BinField, RecordFieldContent, RecordFieldContents};

verus! {

/// The proxy type of an address.
#[allow(non_camel_case_types)]
#[derive(Debug, Clone, PartialEq, Eq)]
pub enum ProxyType {
    VPN,
    TOR,
    DCH,
    PUB,
    WEB,
    SES,
    RES,
    /// Any other code, as stored.
    Other(String),
}

impl ProxyType {
    /// The value stands for the code `t`.
    pub open spec fn denotes(&self, t: Seq<char>) -> bool {
        match self {
            ProxyType::VPN => t == "VPN"@,
            ProxyType::TOR => t == "TOR"@,
            ProxyType::DCH => t == "DCH"@,
            ProxyType::PUB => t == "PUB"@,
            ProxyType::WEB => t == "WEB"@,
            ProxyType::SES => t == "SES"@,
            ProxyType::RES => t == "RES"@,
            ProxyType::Other(s) => s@ == t && t != "VPN"@ && t != "TOR"@ && t != "DCH"@ && t != "PUB"@ && t != "WEB"@ && t != "SES"@ && t != "RES"@,
        }
    }

    /// The value of the code `s`.
    pub fn parse(s: &String) -> (r: ProxyType)
        ensures
            r.denotes(s@),
    {
        if text_is(s, "VPN") {
            ProxyType::VPN
        } else if text_is(s, "TOR") {
            ProxyType::TOR
        } else if text_is(s, "DCH") {
            ProxyType::DCH
        } else if text_is(s, "PUB") {
            ProxyType::PUB
        } else if text_is(s, "WEB") {
            ProxyType::WEB
        } else if text_is(s, "SES") {
            ProxyType::SES
        } else if text_is(s, "RES") {
            ProxyType::RES
        } else {
            ProxyType::Other(s.clone())
        }
    }

    /// The code of the value.
    pub fn code(&self) -> (r: String)
        ensures
            self matches ProxyType::Other(s) ==> r@ == s@,
            !(self is Other) ==> self.denotes(r@),
    {
        match self {
            ProxyType::VPN => {
                let r = "VPN".to_owned();
                proof {
                    reveal_strlit("VPN");
                }
                r
            },
            ProxyType::TOR => {
                let r = "TOR".to_owned();
                proof {
                    reveal_strlit("TOR");
                }
                r
            },
            ProxyType::DCH => {
                let r = "DCH".to_owned();
                proof {
                    reveal_strlit("DCH");
                }
                r
            },
            ProxyType::PUB => {
                let r = "PUB".to_owned();
                proof {
                    reveal_strlit("PUB");
                }
                r
            },
            ProxyType::WEB => {
                let r = "WEB".to_owned();
                proof {
                    reveal_strlit("WEB");
                }
                r
            },
            ProxyType::SES => {
                let r = "SES".to_owned();
                proof {
                    reveal_strlit("SES");
                }
                r
            },
            ProxyType::RES => {
                let r = "RES".to_owned();
                proof {
                    reveal_strlit("RES");
                }
                r
            },
            ProxyType::Other(s) => s.clone(),
        }
    }
}

impl core::str::FromStr for ProxyType {
    type Err = core::convert::Infallible;

    fn from_str(s: &str) -> Result<ProxyType, core::convert::Infallible> {
        Ok(ProxyType::parse(&s.to_owned()))
    }
}

/// The usage type of an address.
#[allow(non_camel_case_types)]
#[derive(Debug, Clone, PartialEq, Eq)]
pub enum UsageType {
    COM,
    ORG,
    GOV,
    MIL,
    EDU,
    LIB,
    CDN,
    ISP,
    MOB,
    DCH,
    SES,
    RSV,
    /// Any other code, as stored.
    Other(String),
}

impl UsageType {
    /// The value stands for the code `t`.
    pub open spec fn denotes(&self, t: Seq<char>) -> bool {
        match self {
            UsageType::COM => t == "COM"@,
            UsageType::ORG => t == "ORG"@,
            UsageType::GOV => t == "GOV"@,
            UsageType::MIL => t == "MIL"@,
            UsageType::EDU => t == "EDU"@,
            UsageType::LIB => t == "LIB"@,
            UsageType::CDN => t == "CDN"@,
            UsageType::ISP => t == "ISP"@,
            UsageType::MOB => t == "MOB"@,
            UsageType::DCH => t == "DCH"@,
            UsageType::SES => t == "SES"@,
            UsageType::RSV => t == "RSV"@,
            UsageType::Other(s) => s@ == t && t != "COM"@ && t != "ORG"@ && t != "GOV"@ && t != "MIL"@ && t != "EDU"@ && t != "LIB"@ && t != "CDN"@ && t != "ISP"@ && t != "MOB"@ && t != "DCH"@ && t != "SES"@ && t != "RSV"@,
        }
    }

    /// The value of the code `s`.
    pub fn parse(s: &String) -> (r: UsageType)
        ensures
            r.denotes(s@),
    {
        if text_is(s, "COM") {
            UsageType::COM
        } else if text_is(s, "ORG") {
            UsageType::ORG
        } else if text_is(s, "GOV") {
            UsageType::GOV
        } else if text_is(s, "MIL") {
            UsageType::MIL
        } else if text_is(s, "EDU") {
            UsageType::EDU
        } else if text_is(s, "LIB") {
            UsageType::LIB
        } else if text_is(s, "CDN") {
            UsageType::CDN
        } else if text_is(s, "ISP") {
            UsageType::ISP
        } else if text_is(s, "MOB") {
            UsageType::MOB
        } else if text_is(s, "DCH") {
            UsageType::DCH
        } else if text_is(s, "SES") {
            UsageType::SES
        } else if text_is(s, "RSV") {
            UsageType::RSV
        } else {
            UsageType::Other(s.clone())
        }
    }

    /// The code of the value.
    pub fn code(&self) -> (r: String)
        ensures
            self matches UsageType::Other(s) ==> r@ == s@,
            !(self is Other) ==> self.denotes(r@),
    {
        match self {
            UsageType::COM => {
                let r = "COM".to_owned();
                proof {
                    reveal_strlit("COM");
                }
                r
            },
            UsageType::ORG => {
                let r = "ORG".to_owned();
                proof {
                    reveal_strlit("ORG");
                }
                r
            },
            UsageType::GOV => {
                let r = "GOV".to_owned();
                proof {
                    reveal_strlit("GOV");
                }
                r
            },
            UsageType::MIL => {
                let r = "MIL".to_owned();
                proof {
                    reveal_strlit("MIL");
                }
                r
            },
            UsageType::EDU => {
                let r = "EDU".to_owned();
                proof {
                    reveal_strlit("EDU");
                }
                r
            },
            UsageType::LIB => {
                let r = "LIB".to_owned();
                proof {
                    reveal_strlit("LIB");
                }
                r
            },
            UsageType::CDN => {
                let r = "CDN".to_owned();
                proof {
                    reveal_strlit("CDN");
                }
                r
            },
            UsageType::ISP => {
                let r = "ISP".to_owned();
                proof {
                    reveal_strlit("ISP");
                }
                r
            },
            UsageType::MOB => {
                let r = "MOB".to_owned();
                proof {
                    reveal_strlit("MOB");
                }
                r
            },
            UsageType::DCH => {
                let r = "DCH".to_owned();
                proof {
                    reveal_strlit("DCH");
                }
                r
            },
            UsageType::SES => {
                let r = "SES".to_owned();
                proof {
                    reveal_strlit("SES");
                }
                r
            },
            UsageType::RSV => {
                let r = "RSV".to_owned();
                proof {
                    reveal_strlit("RSV");
                }
                r
            },
            UsageType::Other(s) => s.clone(),
        }
    }
}

impl core::str::FromStr for UsageType {
    type Err = core::convert::Infallible;

    fn from_str(s: &str) -> Result<UsageType, core::convert::Infallible> {
        Ok(UsageType::parse(&s.to_owned()))
    }
}

pub open spec fn is_digit(c: char) -> bool {
    '0' <= c <= '9'
}

/// The value of a string of decimal digits.
pub open spec fn digits_value(s: Seq<char>) -> int
    decreases s.len(),
{
    if s.len() == 0 {
        0
    } else {
        digits_value(s.drop_last()) * 10 + (s.last() as u32 - '0' as u32)
    }
}

/// A decimal `u64`: an optional `+`, then one or more digits whose value fits.
pub open spec fn decimal_u64(s: Seq<char>) -> Option<u64> {
    let d = if s.len() > 0 && s[0] == '+' {
        s.drop_first()
    } else {
        s
    };
    if d.len() > 0 && (forall|i: int| 0 <= i < d.len() ==> is_digit(#[trigger] d[i]))
        && digits_value(d) <= u64::MAX {
        Some(digits_value(d) as u64)
    } else {
        None
    }
}

/// Relies on `u64`'s `FromStr` (`str::parse::<u64>`): it accepts an optional
/// `+` followed by decimal digits whose value fits, and nothing else.
#[verifier::external_body]
fn parse_u64(s: &str) -> (r: Option<u64>)
    ensures
        r == decimal_u64(s@),
{
    s.parse::<u64>().ok()
}

/// Relies on `country_code::CountryCode`'s `FromStr`: it accepts each listed
/// ISO 3166-1 alpha-2 code and any other string of two bytes, and refuses
/// every other string.
#[verifier::external_body]
fn country_code_accepts(s: &str) -> (r: bool)
    ensures
        r == (encode_utf8(s@).len() == 2),
{
    s.parse::<country_code::CountryCode>().is_ok()
}

/// The proxy type that the known text `t` stands for.
pub open spec fn proxy_matches(p: Option<ProxyType>, t: Option<Seq<char>>) -> bool {
    match t {
        Some(x) => p matches Some(v) && v.denotes(x),
        None => p is None,
    }
}

/// The usage type that the known text `t` stands for.
pub open spec fn usage_matches(p: Option<UsageType>, t: Option<Seq<char>>) -> bool {
    match t {
        Some(x) => p matches Some(v) && v.denotes(x),
        None => p is None,
    }
}

pub open spec fn asn_of(t: Option<Seq<char>>) -> Option<u64> {
    match t {
        Some(x) => decimal_u64(x),
        None => None,
    }
}

/// A record of an IP2Proxy database.
#[derive(Debug, Clone)]
pub struct Record {
    pub ip_from: IpAddr,
    pub ip_to: IpAddr,
    pub proxy_type: Option<ProxyType>,
    pub country_code: CountryCode,
    pub country_name: Option<String>,
    pub region_name: Option<String>,
    pub city_name: Option<String>,
    pub isp: Option<String>,
    pub domain: Option<String>,
    pub usage_type: Option<UsageType>,
    pub asn: Option<u64>,
    pub as_name: Option<String>,
    pub last_seen: Option<String>,
    pub threat: Option<String>,
    pub residential: Option<String>,
    pub provider: Option<String>,
}

/// How reading a record's contents ends.
pub enum Scan {
    Fine,
    /// The country code is unknown: the lookup reports no record.
    Absent,
    /// The country code is not an ISO 3166-1 alpha-2 code.
    BadCountry,
    /// The ASN is not a decimal number.
    BadAsn,
    /// A field that this family does not have.
    Unknown(BinField),
}

/// The fields that IP2Proxy records have.
pub open spec fn proxy_field(f: BinField) -> bool {
    match f {
        BinField::COUNTRY | BinField::REGION | BinField::CITY | BinField::ISP | BinField::DOMAIN
        | BinField::PROXYTYPE | BinField::USAGETYPE | BinField::ASN | BinField::AS
        | BinField::LASTSEEN | BinField::THREAT | BinField::RESIDENTIAL
        | BinField::PROVIDER => true,
        _ => false,
    }
}

pub open spec fn scan_step(c: RecordFieldContent) -> Scan {
    if !proxy_field(c.field_spec()) {
        Scan::Unknown(c.field_spec())
    } else if c.field_spec() == BinField::COUNTRY && c.text_spec() == crate::content::unknown_text() {
        Scan::Absent
    } else if c.field_spec() == BinField::COUNTRY && encode_utf8(c.text_spec()).len() != 2 {
        Scan::BadCountry
    } else if c.field_spec() == BinField::ASN && known(c.text_spec()) is Some && decimal_u64(
        c.text_spec(),
    ) is None {
        Scan::BadAsn
    } else {
        Scan::Fine
    }
}

/// The first event, in order, of reading `s`.
pub open spec fn scan(s: Seq<RecordFieldContent>) -> Scan
    decreases s.len(),
{
    if s.len() == 0 {
        Scan::Fine
    } else {
        match scan(s.drop_last()) {
            Scan::Fine => scan_step(s.last()),
            other => other,
        }
    }
}

proof fn lemma_scan_prefix(s: Seq<RecordFieldContent>, k: int)
    requires
        0 <= k <= s.len(),
        !(scan(s.subrange(0, k)) is Fine),
    ensures
        scan(s) == scan(s.subrange(0, k)),
    decreases s.len() - k,
{
    if k < s.len() {
        assert(s.drop_last().subrange(0, k) =~= s.subrange(0, k));
        lemma_scan_prefix(s.drop_last(), k);
    } else {
        assert(s.subrange(0, k) =~= s);
    }
}

/// Why contents do not make a record.
#[derive(Debug, Clone, Copy, PartialEq, Eq, Structural)]
pub enum RecordError {
    UnknownField(BinField),
    InvalidCountryCode,
    InvalidAsn,
}

impl Record {
    /// The record's fields are those that `s` states.
    pub open spec fn describes(&self, s: Seq<RecordFieldContent>) -> bool {
        &&& self.country_code.0@ == code_of_last(s)
        &&& opt_view(self.country_name) == name_of_last(s)
        &&& proxy_matches(self.proxy_type, text_of_last(s, BinField::PROXYTYPE))
        &&& usage_matches(self.usage_type, text_of_last(s, BinField::USAGETYPE))
        &&& self.asn == asn_of(text_of_last(s, BinField::ASN))
        &&& opt_view(self.region_name) == text_of_last(s, BinField::REGION)
        &&& opt_view(self.city_name) == text_of_last(s, BinField::CITY)
        &&& opt_view(self.isp) == text_of_last(s, BinField::ISP)
        &&& opt_view(self.domain) == text_of_last(s, BinField::DOMAIN)
        &&& opt_view(self.as_name) == text_of_last(s, BinField::AS)
        &&& opt_view(self.last_seen) == text_of_last(s, BinField::LASTSEEN)
        &&& opt_view(self.threat) == text_of_last(s, BinField::THREAT)
        &&& opt_view(self.residential) == text_of_last(s, BinField::RESIDENTIAL)
        &&& opt_view(self.provider) == text_of_last(s, BinField::PROVIDER)
    }

    /// A record with the given bounds and no field set.
    pub fn with_empty(ip_from: IpAddr, ip_to: IpAddr) -> (r: Record)
        ensures
            r.ip_from == ip_from,
            r.ip_to == ip_to,
            r.describes(Seq::<RecordFieldContent>::empty()),
    {
        Record {
            ip_from,
            ip_to,
            proxy_type: None,
            country_code: CountryCode(String::new()),
            country_name: None,
            region_name: None,
            city_name: None,
            isp: None,
            domain: None,
            usage_type: None,
            asn: None,
            as_name: None,
            last_seen: None,
            threat: None,
            residential: None,
            provider: None,
        }
    }

    /// The record that the contents of a lookup state: none when the
    /// country code is unknown, an error on a field this family lacks or
    /// on an ASN that is not a number.
    #[verifier::rlimit(60)]
    pub fn from_contents(ip_from: IpAddr, ip_to: IpAddr, contents: &RecordFieldContents) -> (r: Result<
        Option<Record>,
        RecordError,
    >)
        ensures
            match scan(contents@) {
                Scan::Unknown(f) => r == Err::<Option<Record>, RecordError>(RecordError::UnknownField(f)),
                Scan::BadAsn => r == Err::<Option<Record>, RecordError>(RecordError::InvalidAsn),
                Scan::BadCountry => r == Err::<Option<Record>, RecordError>(
                    RecordError::InvalidCountryCode,
                ),
                Scan::Absent => r matches Ok(None),
                Scan::Fine => r matches Ok(Some(rec)) && rec.ip_from == ip_from && rec.ip_to == ip_to
                    && rec.describes(contents@),
            },
    {
        let ghost s = contents@;
        let mut record = Record::with_empty(ip_from, ip_to);
        let n = contents.len();
        let mut i: usize = 0;
        while i < n
            invariant
                n == s.len(),
                s == contents@,
                i <= n,
                scan(s.subrange(0, i as int)) is Fine,
                record.ip_from == ip_from,
                record.ip_to == ip_to,
                record.describes(s.subrange(0, i as int)),
            decreases n - i,
        {
            let ghost pre = s.subrange(0, i as int);
            let ghost next = s.subrange(0, i + 1);
            proof {
                assert(next.drop_last() =~= pre);
                assert(next.last() == s[i as int]);
                lemma_last_of_push(s, i as int);
            }
            let c = contents.get(i);
            match c.field() {
                BinField::COUNTRY => {
                    let code = c.text();
                    if is_unknown(&code) {
                        proof {
                            lemma_scan_prefix(s, i + 1);
                        }
                        return Ok(None);
                    }
                    if !country_code_accepts(code.as_str()) {
                        proof {
                            lemma_scan_prefix(s, i + 1);
                        }
                        return Err(RecordError::InvalidCountryCode);
                    }
                    record.country_code = CountryCode(code);
                    record.country_name = known_text(c.name());
                },
                BinField::PROXYTYPE => {
                    record.proxy_type = match known_text(c.text()) {
                        Some(t) => Some(ProxyType::parse(&t)),
                        None => None,
                    };
                },
                BinField::USAGETYPE => {
                    record.usage_type = match known_text(c.text()) {
                        Some(t) => Some(UsageType::parse(&t)),
                        None => None,
                    };
                },
                BinField::ASN => {
                    record.asn = match known_text(c.text()) {
                        Some(t) => match parse_u64(t.as_str()) {
                            Some(v) => Some(v),
                            None => {
                                proof {
                                    lemma_scan_prefix(s, i + 1);
                                }
                                return Err(RecordError::InvalidAsn);
                            },
                        },
                        None => None,
                    };
                },
                BinField::REGION => {
                    record.region_name = known_text(c.text());
                },
                BinField::CITY => {
                    record.city_name = known_text(c.text());
                },
                BinField::ISP => {
                    record.isp = known_text(c.text());
                },
                BinField::DOMAIN => {
                    record.domain = known_text(c.text());
                },
                BinField::AS => {
                    record.as_name = known_text(c.text());
                },
                BinField::LASTSEEN => {
                    record.last_seen = known_text(c.text());
                },
                BinField::THREAT => {
                    record.threat = known_text(c.text());
                },
                BinField::RESIDENTIAL => {
                    record.residential = known_text(c.text());
                },
                BinField::PROVIDER => {
                    record.provider = known_text(c.text());
                },
                other => {
                    proof {
                        lemma_scan_prefix(s, i + 1);
                    }
                    return Err(RecordError::UnknownField(other));
                },
            }
            i = i + 1;
        }
        assert(s.subrange(0, n as int) =~= s);
        Ok(Some(record))
    }
}

/// A field that a lookup in an IP2Proxy database can ask for.
#[derive(Debug, Clone, Copy, PartialEq, Eq, Structural)]
pub enum RecordField {
    CountryCodeAndName,
    RegionName,
    CityName,
    Isp,
    Domain,
    ProxyType,
    UsageType,
    Asn,
    AsName,
    LastSeen,
    Threat,
    Provider,
    Residential,
}

impl RecordField {
    pub open spec fn bin_spec(&self) -> BinField {
        match self {
            RecordField::CountryCodeAndName => BinField::COUNTRY,
            RecordField::RegionName => BinField::REGION,
            RecordField::CityName => BinField::CITY,
            RecordField::Isp => BinField::ISP,
            RecordField::Domain => BinField::DOMAIN,
            RecordField::ProxyType => BinField::PROXYTYPE,
            RecordField::UsageType => BinField::USAGETYPE,
            RecordField::Asn => BinField::ASN,
            RecordField::AsName => BinField::AS,
            RecordField::LastSeen => BinField::LASTSEEN,
            RecordField::Threat => BinField::THREAT,
            RecordField::Provider => BinField::PROVIDER,
            RecordField::Residential => BinField::RESIDENTIAL,
        }
    }

    /// The file field it stands for.
    pub fn to_bin(&self) -> (r: BinField)
        ensures
            r == self.bin_spec(),
    {
        match self {
            RecordField::CountryCodeAndName => BinField::COUNTRY,
            RecordField::RegionName => BinField::REGION,
            RecordField::CityName => BinField::CITY,
            RecordField::Isp => BinField::ISP,
            RecordField::Domain => BinField::DOMAIN,
            RecordField::ProxyType => BinField::PROXYTYPE,
            RecordField::UsageType => BinField::USAGETYPE,
            RecordField::Asn => BinField::ASN,
            RecordField::AsName => BinField::AS,
            RecordField::LastSeen => BinField::LASTSEEN,
            RecordField::Threat => BinField::THREAT,
            RecordField::Provider => BinField::PROVIDER,
            RecordField::Residential => BinField::RESIDENTIAL,
        }
    }
}

/// The file fields that `fields` stand for.
pub fn to_bin_fields(fields: &[RecordField]) -> (r: Vec<BinField>)
    ensures
        r@.len() == fields@.len(),
        forall|i: int| 0 <= i < r@.len() ==> r@[i] == (#[trigger] fields@[i]).bin_spec(),
{
    let mut r: Vec<BinField> = Vec::new();
    let mut i: usize = 0;
    while i < fields.len()
        invariant
            i <= fields@.len(),
            r@.len() == i,
            forall|j: int| 0 <= j < i ==> r@[j] == (#[trigger] fields@[j]).bin_spec(),
        decreases fields@.len() - i,
    {
        r.push(fields[i].to_bin());
        i = i + 1;
    }
    r
}

/// Why an IP2Proxy database cannot be opened.
#[derive(Debug, Clone, Copy, PartialEq, Eq, Structural)]
pub enum DatabaseNewError {
    QuerierNewError(QuerierNewError),
    /// The file is not an IP2Proxy database.
    TypeMismatch,
}

/// Why an IP2Proxy lookup failed.
#[derive(Debug, Clone, Copy, PartialEq, Eq, Structural)]
pub enum DatabaseLookupError {
    QuerierLookupError(QuerierLookupError),
    ToRecordFailed(RecordError),
}

/// The record that a lookup result `r0` makes.
pub open spec fn record_outcome(
    r0: Result<Option<(IpAddr, IpAddr, RecordFieldContents)>, QuerierLookupError>,
    r: Result<Option<Record>, DatabaseLookupError>,
) -> bool {
    match r0 {
        Err(e) => r == Err::<Option<Record>, DatabaseLookupError>(
            DatabaseLookupError::QuerierLookupError(e),
        ),
        Ok(None) => r matches Ok(None),
        Ok(Some((lo, hi, c))) => match scan(c@) {
            Scan::Unknown(f) => r == Err::<Option<Record>, DatabaseLookupError>(
                DatabaseLookupError::ToRecordFailed(RecordError::UnknownField(f)),
            ),
            Scan::BadAsn => r == Err::<Option<Record>, DatabaseLookupError>(
                DatabaseLookupError::ToRecordFailed(RecordError::InvalidAsn),
            ),
            Scan::BadCountry => r == Err::<Option<Record>, DatabaseLookupError>(
                DatabaseLookupError::ToRecordFailed(RecordError::InvalidCountryCode),
            ),
            Scan::Absent => r matches Ok(None),
            Scan::Fine => r matches Ok(Some(rec)) && rec.ip_from == lo && rec.ip_to == hi
                && rec.describes(c@),
        },
    }
}

/// An opened IP2Proxy database.
#[derive(Debug)]
pub struct Database {
    inner: Querier,
}

impl Database {
    pub closed spec fn inner(&self) -> Querier {
        self.inner
    }

    pub open spec fn wf(&self) -> bool {
        self.inner().wf()
    }

    /// Opens the IP2Proxy database held in `file`.
    pub fn new(file: Vec<u8>) -> (r: Result<Database, DatabaseNewError>)
        ensures
            match crate::querier::open_outcome(file@) {
                Err(e) => r == Err::<Database, DatabaseNewError>(
                    DatabaseNewError::QuerierNewError(e),
                ),
                Ok(h) => if h.schema_type != crate::schema::SchemaType::IP2Proxy {
                    r == Err::<Database, DatabaseNewError>(DatabaseNewError::TypeMismatch)
                } else {
                    r matches Ok(d) && d.wf() && d.inner().file() == file@
                        && d.inner().header_spec() == h
                },
            },
    {
        let inner = match Querier::new(file) {
            Ok(q) => q,
            Err(e) => return Err(DatabaseNewError::QuerierNewError(e)),
        };
        if !inner.header().schema_type.is_ip2proxy() {
            return Err(DatabaseNewError::TypeMismatch);
        }
        Ok(Database { inner })
    }

    /// The database underneath.
    pub fn querier(&self) -> (r: &Querier)
        ensures
            *r == self.inner(),
    {
        &self.inner
    }

    /// A content resolver with empty caches, fit for this database.
    pub fn content_querier(&self) -> (r: ContentQuerier)
        ensures
            r.agrees_with(self.inner().file()),
    {
        self.inner.content_querier()
    }

    /// The record whose range holds `ip`, with only `selected_fields` when
    /// given; none when no range holds it or its country is unknown.
    pub fn lookup(
        &self,
        content: &mut ContentQuerier,
        ip: IpAddr,
        selected_fields: Option<&[RecordField]>,
    ) -> (r: Result<Option<Record>, DatabaseLookupError>)
        requires
            self.wf(),
            old(content).agrees_with(self.inner().file()),
        ensures
            final(content).agrees_with(self.inner().file()),
            exists|r0: Result<Option<(IpAddr, IpAddr, RecordFieldContents)>, QuerierLookupError>|
                self.inner().lookup_post(
                    ip,
                    match selected_fields {
                        Some(s) => Some(s@.map_values(|f: RecordField| f.bin_spec())),
                        None => None,
                    },
                    r0,
                ) && #[trigger] record_outcome(r0, r),
    {
        let r0 = match selected_fields {
            Some(s) => {
                let bin = to_bin_fields(s);
                assert(bin@ =~= s@.map_values(|f: RecordField| f.bin_spec()));
                self.inner.lookup(content, ip, Some(bin.as_slice()))
            },
            None => self.inner.lookup(content, ip, None),
        };
        let r = match r0 {
            Err(e) => Err(DatabaseLookupError::QuerierLookupError(e)),
            Ok(None) => Ok(None),
            Ok(Some((lo, hi, c))) => match Record::from_contents(lo, hi, &c) {
                Ok(x) => Ok(x),
                Err(e) => Err(DatabaseLookupError::ToRecordFailed(e)),
            },
        };
        assert(record_outcome(r0, r));
        r
    }
}

} // verus!
