use ip2location_bin::content::FillError;
use ip2location_bin::header::ParseError;
use ip2location_bin::ip2location::Database as LocationDatabase;
use ip2location_bin::ip2proxy::{
    Database as ProxyDatabase, ProxyType, RecordField as ProxyField, UsageType,
};
use ip2location_bin::querier::{IpAddr, LookupError, NewError, Querier};
use ip2location_bin::record_field::{RecordField, RecordFieldContent, RecordFieldContents};
use ip2location_bin::records::{Error as SearchError, PositionRange};
use ip2location_bin::schema::{LayoutField, VerifyError};

const INDEX_LEN: usize = 524288;

/// A string pool that records where each string went.
struct Pool {
    bytes: Vec<u8>,
    base: usize,
}

impl Pool {
    fn new(base: usize) -> Pool {
        // the next row's address that the search reads after the last row
        Pool { bytes: vec![0xff; 16], base }
    }

    fn put(&mut self, s: &str) -> u32 {
        let at = self.base + self.bytes.len();
        self.bytes.push(s.len() as u8);
        self.bytes.extend_from_slice(s.as_bytes());
        at as u32
    }

    /// A country: the code, then the name three bytes later.
    fn country(&mut self, code: &str, name: &str) -> u32 {
        assert!(code.len() <= 2);
        let at = self.put(code);
        while self.base + self.bytes.len() < at as usize + 3 {
            self.bytes.push(0);
        }
        self.put(name);
        at
    }
}

struct Layout {
    subtype: u8,
    fields: u8,
    tag: u8,
    year: u8,
    license: u8,
}

fn header(l: &Layout, v4_count: u32, v4_start: u32, v6_count: u32, v6_start: u32, v6_index: u32, total: u32) -> Vec<u8> {
    let mut h = vec![0u8; 64];
    h[0] = l.subtype;
    h[1] = l.fields;
    h[2] = l.year;
    h[3] = 11;
    h[4] = 1;
    h[5..9].copy_from_slice(&v4_count.to_le_bytes());
    h[9..13].copy_from_slice(&v4_start.to_le_bytes());
    h[13..17].copy_from_slice(&v6_count.to_le_bytes());
    h[17..21].copy_from_slice(&v6_start.to_le_bytes());
    h[21..25].copy_from_slice(&65u32.to_le_bytes());
    h[25..29].copy_from_slice(&v6_index.to_le_bytes());
    h[29] = l.tag;
    h[30] = l.license;
    h[31..35].copy_from_slice(&total.to_le_bytes());
    h
}

/// An index whose every bucket spans rows `0..=last`, but for `empty`.
fn index(last: u32, empty: &[usize]) -> Vec<u8> {
    let mut b = Vec::with_capacity(INDEX_LEN);
    for k in 0..65536usize {
        let (lo, hi) = if empty.contains(&k) { (0u32, 0u32) } else { (0u32, last) };
        b.extend_from_slice(&lo.to_le_bytes());
        b.extend_from_slice(&hi.to_le_bytes());
    }
    b
}

type Row = (u128, Vec<u32>);

/// Builds a file: header, v4 index, optional v6 index, v4 rows, v6 rows,
/// then the string pool. `slots` turns a pool into each table's rows.
fn build(l: &Layout, v4: &dyn Fn(&mut Pool) -> Vec<Row>, v6: Option<&dyn Fn(&mut Pool) -> Vec<Row>>, size_delta: i64) -> Vec<u8> {
    let slots = l.fields as usize - 1;
    let v4_row = 4 + 4 * slots;
    let v6_row = 16 + 4 * slots;
    // first pass for the row counts
    let mut probe = Pool::new(0);
    let n4 = v4(&mut probe).len();
    let n6 = v6.map(|f| f(&mut probe).len()).unwrap_or(0);
    let has_v6 = n6 > 0;
    let index_end = 64 + INDEX_LEN * if has_v6 { 2 } else { 1 };
    let v4_start = index_end;
    let v6_start = v4_start + n4 * v4_row;
    let pool_start = v6_start + n6 * v6_row;
    let mut pool = Pool::new(pool_start);
    let rows4 = v4(&mut pool);
    let rows6 = v6.map(|f| f(&mut pool)).unwrap_or_default();
    let total = pool_start + pool.bytes.len();
    let mut file = header(
        l,
        n4 as u32,
        v4_start as u32 + 1,
        n6 as u32,
        if has_v6 { v6_start as u32 + 1 } else { 1 },
        if has_v6 { (64 + INDEX_LEN) as u32 + 1 } else { 1 },
        (total as i64 + size_delta) as u32,
    );
    file.extend(index(n4 as u32 - 1, &[200 << 8]));
    if has_v6 {
        file.extend(index(n6 as u32 - 1, &[0x3000]));
    }
    for (ip, s) in rows4.iter() {
        file.extend_from_slice(&(*ip as u32).to_le_bytes());
        for x in s {
            file.extend_from_slice(&x.to_le_bytes());
        }
    }
    for (ip, s) in rows6.iter() {
        file.extend_from_slice(&ip.to_le_bytes());
        for x in s {
            file.extend_from_slice(&x.to_le_bytes());
        }
    }
    file.extend(pool.bytes);
    assert_eq!(file.len(), total);
    file
}

fn db11_rows(p: &mut Pool) -> Vec<Row> {
    let mut city = |p: &mut Pool, cc: &str, cn: &str, region: &str, city: &str, lat: f32, lon: f32, zip: &str, tz: &str| {
        let c = p.country(cc, cn);
        vec![c, p.put(region), p.put(city), lat.to_bits(), lon.to_bits(), p.put(zip), p.put(tz)]
    };
    vec![
        (0, city(p, "-", "-", "-", "-", 0.0, 0.0, "-", "-")),
        (16777216, city(p, "US", "United States of America", "California", "Los Angeles", 34.052235, -118.243683, "90001", "-07:00")),
        (16777472, city(p, "CN", "China", "Fujian", "Fuzhou", 26.06139, 119.30611, "350004", "+08:00")),
        (16778240, city(p, "AU", "Australia", "Victoria", "Melbourne", -37.814, 144.96332, "3000", "+10:00")),
        (16779264, city(p, "-", "-", "-", "-", 0.0, 0.0, "-", "-")),
        (u32::MAX as u128, city(p, "-", "-", "-", "-", 0.0, 0.0, "-", "-")),
    ]
}

fn db11_v6_rows(p: &mut Pool) -> Vec<Row> {
    let c = p.country("JP", "Japan");
    let jp = vec![c, p.put("Tokyo"), p.put("Tokyo"), 35.6895f32.to_bits(), 139.69171f32.to_bits(), p.put("100-0001"), p.put("+09:00")];
    let d = p.country("-", "-");
    let dash = vec![d, p.put("-"), p.put("-"), 0, 0, p.put("-"), p.put("-")];
    vec![
        (0, dash.clone()),
        (0x2001_0000u128 << 96, dash.clone()),
        (0x2001_0200u128 << 96, jp),
        (0x2001_0300u128 << 96, dash.clone()),
        (0x2400_0000u128 << 96, dash.clone()),
        (u128::MAX, dash),
    ]
}

const DB11: Layout = Layout { subtype: 11, fields: 8, tag: 1, year: 22, license: 0 };
const PX11: Layout = Layout { subtype: 11, fields: 13, tag: 2, year: 22, license: 0 };

fn db11_file() -> Vec<u8> {
    build(&DB11, &db11_rows, None, 0)
}

fn db11_dual_file() -> Vec<u8> {
    build(&DB11, &db11_rows, Some(&db11_v6_rows), 0)
}

fn px11_rows(p: &mut Pool) -> Vec<Row> {
    let mut row = |p: &mut Pool, pt: &str, cc: &str, cn: &str, rest: [&str; 10]| {
        let t = p.put(pt);
        let c = p.country(cc, cn);
        let mut v = vec![t, c];
        for s in rest {
            v.push(p.put(s));
        }
        v
    };
    let dash = ["-"; 10];
    vec![
        (0, row(p, "-", "-", "-", dash)),
        (16778240, row(p, "PUB", "AU", "Australia", ["Victoria", "Melbourne", "Example ISP", "example.com", "DCH", "13335", "CLOUDFLARENET", "27", "SCANNER", "Example"])),
        (16778496, row(p, "-", "-", "-", dash)),
        (134744064, row(p, "-", "-", "-", dash)),
        (134744320, row(p, "-", "-", "-", dash)),
        (u32::MAX as u128, row(p, "-", "-", "-", dash)),
    ]
}

fn px11_file() -> Vec<u8> {
    build(&PX11, &px11_rows, None, 0)
}

fn v4(a: u8, b: u8, c: u8, d: u8) -> u32 {
    u32::from_be_bytes([a, b, c, d])
}

fn text(c: &RecordFieldContent) -> String {
    c.text()
}

#[test]
fn db11_lookup_us() {
    let db = LocationDatabase::new(db11_file()).unwrap();
    let mut content = db.content_querier();
    let rec = db.lookup(&mut content, IpAddr::V4(16777216), None).unwrap().unwrap();
    assert_eq!(rec.country_code.0, "US");
    assert_eq!(rec.country_name.as_deref(), Some("United States of America"));
    assert_eq!(rec.region_name.as_deref(), Some("California"));
    assert_eq!(rec.time_zone.as_deref(), Some("-07:00"));
    let lat = f32::from_bits(rec.latitude.unwrap());
    assert!((lat - 34.052).abs() < 1e-3);
    assert_eq!(rec.ip_from, IpAddr::V4(16777216));
    assert_eq!(rec.ip_to, IpAddr::V4(16777472));
    assert!(rec.isp.is_none());
}

#[test]
fn db11_mapped_equals_v4() {
    let db = LocationDatabase::new(db11_dual_file()).unwrap();
    let mut content = db.content_querier();
    let a = db.lookup(&mut content, IpAddr::V4(v4(1, 0, 1, 0)), None).unwrap().unwrap();
    let b = db.lookup(&mut content, IpAddr::V6(281470698520832), None).unwrap().unwrap();
    assert_eq!(a.country_code, b.country_code);
    assert_eq!(a.city_name, b.city_name);
    assert_eq!(a.latitude, b.latitude);
    assert_eq!(a.ip_from, IpAddr::V4(16777472));
    assert_eq!(b.ip_from, IpAddr::V6(281470698520832));
    assert_eq!(b.ip_to, IpAddr::V6(281470698521600));
}

#[test]
fn db11_v6_lookup() {
    let db = LocationDatabase::new(db11_dual_file()).unwrap();
    let mut content = db.content_querier();
    let ip = (0x2001_0200u128 << 96) + 5;
    let rec = db.lookup(&mut content, IpAddr::V6(ip), None).unwrap().unwrap();
    assert_eq!(rec.country_code.0, "JP");
    assert_eq!(rec.ip_from, IpAddr::V6(0x2001_0200u128 << 96));
    assert_eq!(rec.ip_to, IpAddr::V6(0x2001_0300u128 << 96));
}

#[test]
fn v6_lookup_without_v6_table_is_none() {
    let q = Querier::new(db11_file()).unwrap();
    let mut content = q.content_querier();
    let ip = (0x2001_0200u128 << 96) + 5;
    assert!(q.lookup(&mut content, IpAddr::V6(ip), None).unwrap().is_none());
    // an IPv4-mapped address is still looked up in the v4 table
    let r = q.lookup(&mut content, IpAddr::V6(0xffff_0100_0000), None).unwrap().unwrap();
    assert_eq!(r.0, IpAddr::V6(0xffff_0100_0000));
}

#[test]
fn boundary_addresses() {
    let q = Querier::new(db11_dual_file()).unwrap();
    let mut content = q.content_querier();
    // 0.0.0.0 and :: fall in the first rows, whose country is unknown
    let (lo, hi, c) = q.lookup(&mut content, IpAddr::V4(0), None).unwrap().unwrap();
    assert_eq!((lo, hi), (IpAddr::V4(0), IpAddr::V4(16777216)));
    assert_eq!(text(c.get(0)), "-");
    let (lo, _, _) = q.lookup(&mut content, IpAddr::V6(0), None).unwrap().unwrap();
    assert_eq!(lo, IpAddr::V6(0));
    // the top addresses lie past the last row's upper bound
    assert!(q.lookup(&mut content, IpAddr::V4(u32::MAX), None).unwrap().is_none());
    assert!(q.lookup(&mut content, IpAddr::V6(u128::MAX), None).unwrap().is_none());
    let db = LocationDatabase::new(db11_dual_file()).unwrap();
    let mut content = db.content_querier();
    assert!(db.lookup(&mut content, IpAddr::V4(0), None).unwrap().is_none());
    assert!(db.lookup(&mut content, IpAddr::V6(0), None).unwrap().is_none());
}

#[test]
fn empty_bucket_is_none() {
    let q = Querier::new(db11_dual_file()).unwrap();
    let mut content = q.content_querier();
    // bucket 200.0/16 is empty in the index, though a row spans it
    assert!(q.lookup(&mut content, IpAddr::V4(v4(200, 0, 0, 1)), None).unwrap().is_none());
    assert!(q.lookup(&mut content, IpAddr::V4(v4(201, 0, 0, 1)), None).unwrap().is_some());
    assert!(q.lookup(&mut content, IpAddr::V6(0x3000u128 << 112), None).unwrap().is_none());
}

#[test]
fn lookup_twice_agrees() {
    let q = Querier::new(db11_file()).unwrap();
    let mut content = q.content_querier();
    let a = q.lookup(&mut content, IpAddr::V4(v4(1, 0, 2, 3)), None).unwrap().unwrap();
    let b = q.lookup(&mut content, IpAddr::V4(v4(1, 0, 2, 3)), None).unwrap().unwrap();
    assert_eq!(a.0, b.0);
    assert_eq!(a.1, b.1);
    for i in 0..a.2.len() {
        assert_eq!(text(a.2.get(i)), text(b.2.get(i)));
        assert_eq!(a.2.get(i).name(), b.2.get(i).name());
        assert_eq!(a.2.get(i).slot(), b.2.get(i).slot());
    }
}

#[test]
fn cache_hits_agree_with_misses() {
    let q = Querier::new(db11_file()).unwrap();
    let mut warm = q.content_querier();
    let ip = IpAddr::V4(v4(1, 0, 4, 9));
    q.lookup(&mut warm, ip, None).unwrap();
    let cached = q.lookup(&mut warm, ip, None).unwrap().unwrap();
    let mut cold = q.content_querier();
    let fresh = q.lookup(&mut cold, ip, None).unwrap().unwrap();
    assert_eq!(cached.2.len(), fresh.2.len());
    for i in 0..cached.2.len() {
        assert_eq!(text(cached.2.get(i)), text(fresh.2.get(i)));
        assert_eq!(cached.2.get(i).name(), fresh.2.get(i).name());
    }
    assert_eq!(text(fresh.2.get(0)), "AU");
    assert_eq!(fresh.2.get(0).name(), "Australia");
}

#[test]
fn range_holds_address() {
    let q = Querier::new(db11_file()).unwrap();
    let mut content = q.content_querier();
    for ip in [0u32, 5, 16777216, 16777300, 16777472, 16778239, 16778240, 16779263, 16779264, 0x7000_0000] {
        if let Some((IpAddr::V4(lo), IpAddr::V4(hi), _)) = q.lookup(&mut content, IpAddr::V4(ip), None).unwrap() {
            assert!(lo <= ip && ip < hi);
        } else {
            panic!("no range for {ip}");
        }
    }
}

#[test]
fn selected_fields_mask() {
    let q = Querier::new(db11_file()).unwrap();
    let mut content = q.content_querier();
    let (_, _, c) = q
        .lookup(&mut content, IpAddr::V4(16777216), Some(&[RecordField::CITY, RecordField::LATITUDE]))
        .unwrap()
        .unwrap();
    assert_eq!(c.len(), 2);
    assert_eq!(c.get(0).field(), RecordField::CITY);
    assert_eq!(text(c.get(0)), "Los Angeles");
    assert_eq!(c.get(1).field(), RecordField::LATITUDE);
    assert!((f32::from_bits(c.get(1).slot()) - 34.052).abs() < 1e-3);
}

#[test]
fn px11_lookup_au() {
    let db = ProxyDatabase::new(px11_file()).unwrap();
    let mut content = db.content_querier();
    let rec = db.lookup(&mut content, IpAddr::V4(16778241), None).unwrap().unwrap();
    assert_eq!(rec.country_code.0, "AU");
    assert_eq!(rec.proxy_type, Some(ProxyType::PUB));
    assert_eq!(rec.usage_type, Some(UsageType::DCH));
    assert_eq!(rec.asn, Some(13335));
    assert_eq!(rec.as_name.as_deref(), Some("CLOUDFLARENET"));
    assert_eq!(rec.provider.as_deref(), Some("Example"));
    let rec = db
        .lookup(&mut content, IpAddr::V4(16778241), Some(&[ProxyField::CountryCodeAndName, ProxyField::RegionName]))
        .unwrap()
        .unwrap();
    assert_eq!(rec.country_code.0, "AU");
    assert_eq!(rec.region_name.as_deref(), Some("Victoria"));
    assert!(rec.proxy_type.is_none());
    assert!(rec.city_name.is_none());
    assert!(rec.asn.is_none());
    assert_eq!(rec.ip_from, IpAddr::V4(16778240));
}

#[test]
fn px11_unknown_is_none() {
    let db = ProxyDatabase::new(px11_file()).unwrap();
    let mut content = db.content_querier();
    assert!(db.lookup(&mut content, IpAddr::V4(v4(8, 8, 8, 8)), None).unwrap().is_none());
    // the range itself exists
    let q = db.querier();
    let (lo, hi, c) = q.lookup(&mut content, IpAddr::V4(v4(8, 8, 8, 8)), None).unwrap().unwrap();
    assert_eq!((lo, hi), (IpAddr::V4(134744064), IpAddr::V4(134744320)));
    assert_eq!(text(c.get(0)), "-");
}

#[test]
fn family_mismatch() {
    assert!(matches!(
        ProxyDatabase::new(db11_file()),
        Err(ip2location_bin::ip2proxy::DatabaseNewError::TypeMismatch)
    ));
    assert!(matches!(
        LocationDatabase::new(px11_file()),
        Err(ip2location_bin::ip2location::DatabaseNewError::TypeMismatch)
    ));
}

#[test]
fn total_size_mismatch_fails() {
    let file = build(&DB11, &db11_rows, None, 10);
    assert_eq!(Querier::new(file).unwrap_err(), NewError::LayoutMismatch);
    let file = build(&DB11, &db11_rows, None, -2000);
    assert!(matches!(
        Querier::new(file),
        Err(NewError::HeaderParseFailed(ParseError::VerifyFailed(VerifyError::TotalSizeTooSmall(_))))
    ));
}

#[test]
fn legacy_format_fails() {
    let l = Layout { subtype: 11, fields: 8, tag: 1, year: 22, license: 1 };
    let file = build(&l, &db11_rows, None, 0);
    assert_eq!(Querier::new(file).unwrap_err(), NewError::HeaderParseFailed(ParseError::LegacyFormat));
    // an IP2Proxy tag, or a year up to 2020, passes that check
    let l = Layout { subtype: 11, fields: 8, tag: 1, year: 20, license: 1 };
    assert!(Querier::new(build(&l, &db11_rows, None, 0)).is_ok());
}

#[test]
fn header_errors() {
    let mut file = db11_file();
    file[1] = 7;
    assert_eq!(
        Querier::new(file).unwrap_err(),
        NewError::HeaderParseFailed(ParseError::VerifyFailed(VerifyError::NumRecordFieldsMismatch(7)))
    );
    let l = Layout { subtype: 11, fields: 8, tag: 3, year: 20, license: 0 };
    assert_eq!(
        Querier::new(build(&l, &db11_rows, None, 0)).unwrap_err(),
        NewError::HeaderParseFailed(ParseError::TypeValueInvalid(3))
    );
    let mut file = db11_file();
    file[3] = 13;
    assert_eq!(
        Querier::new(file).unwrap_err(),
        NewError::HeaderParseFailed(ParseError::YearOrMonthOrDayValueInvalid(22, 13, 1))
    );
    let mut file = db11_file();
    file[0] = 30;
    assert!(matches!(
        Querier::new(file),
        Err(NewError::HeaderParseFailed(ParseError::VerifyFailed(VerifyError::SubTypeInvalid(_))))
    ));
    let mut file = db11_file();
    file[21] = 66;
    assert_eq!(
        Querier::new(file).unwrap_err(),
        NewError::HeaderParseFailed(ParseError::VerifyFailed(VerifyError::XPositionStartInvalid(
            LayoutField::V4IndexPositionStart
        )))
    );
    let mut file = db11_file();
    file[25] = 2;
    assert_eq!(
        Querier::new(file).unwrap_err(),
        NewError::HeaderParseFailed(ParseError::VerifyFailed(VerifyError::Other(LayoutField::V6IndexPositionStart)))
    );
    assert_eq!(Querier::new(vec![0u8; 10]).unwrap_err(), NewError::ReadOtherError);
}

#[test]
fn content_errors() {
    let q = Querier::new(db11_file()).unwrap();
    let file = db11_file();
    let mut content = q.content_querier();
    let (_, _, mut c) = q.lookup(&mut content, IpAddr::V4(16777216), Some(&[RecordField::REGION])).unwrap().unwrap();
    // point the slot past the end of the file
    let mut moved = RecordFieldContent::empty_of(RecordField::REGION);
    moved.set_slot(file.len() as u32);
    c.set(0, moved);
    let mut fresh = q.content_querier();
    assert_eq!(fresh.fill(&mut c, &file), Err(FillError::ReadFailed));
    // a string whose length runs past the end
    let mut short = file.clone();
    let n = short.len();
    short[n - 2] = 200;
    let mut moved = RecordFieldContent::empty_of(RecordField::CITY);
    moved.set_slot((n - 2) as u32);
    c.set(0, moved);
    assert_eq!(fresh.fill(&mut c, &short), Err(FillError::ShortRead));
    // bytes that are not UTF-8
    let bad = vec![2u8, 0xff, 0xfe];
    let mut moved = RecordFieldContent::empty_of(RecordField::ISP);
    moved.set_slot(0);
    c.set(0, moved);
    assert_eq!(fresh.fill(&mut c, &bad), Err(FillError::ToUtf8Failed));
}

#[test]
fn search_read_failure() {
    let file = db11_file();
    let header = Querier::new(file.clone()).unwrap().header();
    let searcher = ip2location_bin::records::V4Querier::new(header).unwrap();
    // the same table over a file cut short
    let cut = &file[..64 + INDEX_LEN + 40];
    assert_eq!(
        searcher.query(cut, 16777216, PositionRange::new(0, 4)).unwrap_err(),
        SearchError::ReadFailed
    );
    let r = searcher.query(&file, 16777216, PositionRange::new(0, 4)).unwrap().unwrap();
    assert_eq!((r.0, r.1), (16777216, 16777472));
    assert!(ip2location_bin::records::V6Querier::new(header).is_err());
}

#[test]
fn last_row_upper_bound() {
    let short = |p: &mut Pool| {
        let mut rows = db11_rows(p);
        rows.pop();
        rows
    };
    let file = build(&DB11, &short, None, 0);
    let header = Querier::new(file.clone()).unwrap().header();
    let searcher = ip2location_bin::records::V4Querier::new(header).unwrap();
    // a range reaching the row count makes the last row's bound its own plus one
    let r = searcher.query(&file, 16779264, PositionRange::new(4, 9)).unwrap().unwrap();
    assert_eq!((r.0, r.1), (16779264, 16779265));
    assert!(searcher.query(&file, 16779265, PositionRange::new(4, 9)).unwrap().is_none());
    // within the table the bound is the next row's
    let r = searcher.query(&file, 16778241, PositionRange::new(0, 4)).unwrap().unwrap();
    assert_eq!((r.0, r.1), (16778240, 16779264));
}

#[test]
fn rows_sorted_check() {
    let file = db11_dual_file();
    let header = Querier::new(file.clone()).unwrap().header();
    let v4 = ip2location_bin::records::V4Querier::new(header).unwrap();
    let v6 = ip2location_bin::records::V6Querier::new(header).unwrap();
    assert!(v4.check_sorted(&file));
    assert!(v6.check_sorted(&file));
    // swap two rows' lower bounds
    let mut bad = file.clone();
    let start = 64 + 2 * INDEX_LEN + 32;
    bad[start..start + 4].copy_from_slice(&16777472u32.to_le_bytes());
    assert!(!v4.check_sorted(&bad));
}

#[test]
fn record_conversion_errors() {
    let mut c = RecordFieldContents::new();
    let mut pt = RecordFieldContent::empty_of(RecordField::PROXYTYPE);
    pt.set_text("VPN".to_string());
    c.push(pt);
    assert_eq!(
        ip2location_bin::ip2location::Record::from_contents(IpAddr::V4(1), IpAddr::V4(2), &c).unwrap_err(),
        ip2location_bin::ip2location::RecordError::UnknownField(RecordField::PROXYTYPE)
    );
    let r = ip2location_bin::ip2proxy::Record::from_contents(IpAddr::V4(1), IpAddr::V4(2), &c).unwrap().unwrap();
    assert_eq!(r.proxy_type, Some(ProxyType::VPN));
    assert!(r.country_code.is_default());
    let mut asn = RecordFieldContent::empty_of(RecordField::ASN);
    asn.set_text("AS13335".to_string());
    c.push(asn);
    assert_eq!(
        ip2location_bin::ip2proxy::Record::from_contents(IpAddr::V4(1), IpAddr::V4(2), &c).unwrap_err(),
        ip2location_bin::ip2proxy::RecordError::InvalidAsn
    );
    let mut c = RecordFieldContents::new();
    let mut lat = RecordFieldContent::empty_of(RecordField::LATITUDE);
    lat.set_slot(1.5f32.to_bits());
    c.push(lat);
    assert_eq!(
        ip2location_bin::ip2proxy::Record::from_contents(IpAddr::V4(1), IpAddr::V4(2), &c).unwrap_err(),
        ip2location_bin::ip2proxy::RecordError::UnknownField(RecordField::LATITUDE)
    );
    let r = ip2location_bin::ip2location::Record::from_contents(IpAddr::V4(1), IpAddr::V4(2), &c).unwrap().unwrap();
    assert_eq!(r.latitude.map(f32::from_bits), Some(1.5));
    assert!(r.country_name.is_none());
    let mut c = RecordFieldContents::new();
    let mut country = RecordFieldContent::empty_of(RecordField::COUNTRY);
    country.set_text("USA".to_string());
    c.push(country);
    assert_eq!(
        ip2location_bin::ip2proxy::Record::from_contents(IpAddr::V4(1), IpAddr::V4(2), &c).unwrap_err(),
        ip2location_bin::ip2proxy::RecordError::InvalidCountryCode
    );
    let r = ip2location_bin::ip2location::Record::from_contents(IpAddr::V4(1), IpAddr::V4(2), &c).unwrap().unwrap();
    assert_eq!(r.country_code.0, "USA");
}

#[test]
fn ranges_follow_address_order() {
    let q = Querier::new(db11_dual_file()).unwrap();
    let mut content = q.content_querier();
    let ips = [5u32, 16777216, 16777300, 16777472, 16778239, 16778240, 16779264, 0x7000_0000];
    let mut prev: Option<(u32, u32)> = None;
    for ip in ips {
        if let Some((IpAddr::V4(lo), IpAddr::V4(hi), _)) = q.lookup(&mut content, IpAddr::V4(ip), None).unwrap() {
            if let Some((plo, phi)) = prev {
                assert!(plo <= lo);
                assert!(plo == lo || phi <= lo);
            }
            prev = Some((lo, hi));
        }
    }
    assert_eq!(prev, Some((16779264, u32::MAX)));
}
