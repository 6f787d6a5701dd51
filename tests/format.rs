use ip2location_bin::header::{parse_header, ParseError, ParseStep, Parser, LEN};
use ip2location_bin::index::{BuildError, Builder, V4Querier};
use ip2location_bin::proxy_format::{Field, Ipv4DataInfo, Ipv4Index, Ipv6DataInfo, Ipv6Index, Type};
use ip2location_bin::record_field::RecordFields;
use ip2location_bin::schema::{Schema, SchemaSubType, SchemaType, VerifyError, INDEX_LEN};

fn header_bytes(year: u8, month: u8, day: u8) -> Vec<u8> {
    // DB1, IPv4 only, two rows of 8 bytes
    let mut h = vec![0u8; 64];
    h[0] = 1;
    h[1] = 2;
    h[2] = year;
    h[3] = month;
    h[4] = day;
    h[5..9].copy_from_slice(&2u32.to_le_bytes());
    h[9..13].copy_from_slice(&(65 + INDEX_LEN).to_le_bytes());
    h[17..21].copy_from_slice(&1u32.to_le_bytes());
    h[21..25].copy_from_slice(&65u32.to_le_bytes());
    h[25..29].copy_from_slice(&1u32.to_le_bytes());
    h[29] = 1;
    h[31..35].copy_from_slice(&(64 + INDEX_LEN + 16 + 20).to_le_bytes());
    h
}

#[test]
fn parse_header_fields() {
    let s = parse_header(&header_bytes(22, 11, 1)).unwrap();
    assert_eq!(s.sub_type, SchemaSubType(1));
    assert_eq!(s.num_record_fields, 2);
    assert_eq!(s.date, (22, 11, 1));
    assert_eq!(s.v4_records_count, 2);
    assert_eq!(s.v4_records_position_start, 65 + INDEX_LEN);
    assert_eq!(s.schema_type, SchemaType::IP2Location);
    assert_eq!(s.total_size, 64 + INDEX_LEN + 36);
    assert!(!s.has_v6());
    assert_eq!(s.v4_index_seek_from_start(), 64);
    assert_eq!(s.v4_records_seek_from_start(), 64 + INDEX_LEN as u64);
    assert_eq!(s.v6_index_seek_from_start(), None);
    assert_eq!(s.record_fields().unwrap().len(), 2);
}

#[test]
fn parse_header_dates() {
    assert!(parse_header(&header_bytes(24, 2, 29)).is_ok());
    assert_eq!(
        parse_header(&header_bytes(23, 2, 29)).unwrap_err(),
        ParseError::YearOrMonthOrDayValueInvalid(23, 2, 29)
    );
    assert_eq!(
        parse_header(&header_bytes(22, 4, 31)).unwrap_err(),
        ParseError::YearOrMonthOrDayValueInvalid(22, 4, 31)
    );
    assert_eq!(
        parse_header(&header_bytes(22, 0, 1)).unwrap_err(),
        ParseError::YearOrMonthOrDayValueInvalid(22, 0, 1)
    );
}

#[test]
fn parser_in_pieces() {
    let bytes = header_bytes(22, 11, 1);
    let mut parser = Parser::new();
    // three bytes hold the first two fields whole
    match parser.parse(&bytes[..3]).unwrap() {
        ParseStep::Continue(n) => assert_eq!(n, 2),
        _ => panic!("header complete too early"),
    }
    match parser.parse(&bytes[2..10]).unwrap() {
        ParseStep::Continue(n) => assert_eq!(n, 7),
        _ => panic!("header complete too early"),
    }
    match parser.parse(&bytes[9..]).unwrap() {
        ParseStep::Break(n, s) => {
            assert_eq!(n, LEN - 9);
            assert_eq!(s.v4_records_count, 2);
        }
        _ => panic!("header not complete"),
    }
    // the parser starts over after a header
    match parser.parse(&bytes).unwrap() {
        ParseStep::Break(n, _) => assert_eq!(n, LEN),
        _ => panic!("header not complete"),
    }
}

#[test]
fn verify_layout_errors() {
    let mut s: Schema = parse_header(&header_bytes(22, 11, 1)).unwrap();
    assert_eq!(s.verify(), Ok(()));
    s.total_size = 100;
    assert_eq!(s.verify(), Err(VerifyError::TotalSizeTooSmall(100)));
    s.total_size = 64 + INDEX_LEN + 16;
    assert_eq!(s.verify(), Ok(()));
    s.v4_records_position_start += 1;
    assert!(matches!(s.verify(), Err(VerifyError::XPositionStartInvalid(_))));
}

#[test]
fn index_builder() {
    let mut b = Builder::new();
    b.append(&[0u8; 10]);
    assert_eq!(b.finish().unwrap_err(), BuildError::LenMismatch);
    let mut bytes = vec![0u8; INDEX_LEN as usize];
    // bucket 1.0/16 holds rows 3 to 7
    bytes[256 * 8..256 * 8 + 4].copy_from_slice(&3u32.to_le_bytes());
    bytes[256 * 8 + 4..256 * 8 + 8].copy_from_slice(&7u32.to_le_bytes());
    let mut b = V4Querier::builder();
    b.append(&bytes[..1000]);
    b.append(&bytes[1000..]);
    let q = V4Querier::from_block(b.finish().unwrap());
    let r = q.query(u32::from_be_bytes([1, 0, 200, 3]));
    assert_eq!((r.start, r.end), (3, 7));
    let r = q.query(u32::from_be_bytes([1, 1, 0, 0]));
    assert_eq!((r.start, r.end), (0, 0));
    let mut b = Ipv4Index::builder();
    b.append(&bytes);
    let ix = Ipv4Index::from_block(b.finish().unwrap());
    assert_eq!(ix.low_and_high(u32::from_be_bytes([1, 0, 0, 0])), (3, 7));
    let mut b = Ipv6Index::builder();
    b.append(&bytes);
    let ix = Ipv6Index::from_block(b.finish().unwrap());
    assert_eq!(ix.low_and_high(0x0100u128 << 112), (3, 7));
    assert_eq!(Ipv4Index::len(), 524288);
    assert_eq!(Ipv6Index::len(), 524288);
}

#[test]
fn proxy_types_and_fields() {
    assert_eq!(Type::from_sub_type(11), Some(Type::PX11));
    assert_eq!(Type::from_sub_type(12), None);
    assert_eq!(Type::PX1.fields(), vec![Field::IP, Field::COUNTRY]);
    assert_eq!(Field::fields_by_type(&Type::PX11).len(), 13);
    assert_eq!(Field::fields_by_type(&Type::PX2), vec![Field::IP, Field::PROXYTYPE, Field::COUNTRY]);
    let px7 = Field::fields_by_type(&Type::PX7);
    assert_eq!(px7.len(), 10);
    assert_eq!(&px7[8..], &[Field::ASN, Field::AS]);
    for n in 1..=11u8 {
        let t = Type::from_sub_type(n).unwrap();
        let core = RecordFields::from_schema(SchemaType::IP2Proxy, SchemaSubType(n)).unwrap();
        assert_eq!(t.fields().len(), core.len());
    }
    let v4 = Ipv4DataInfo { count: 10, index_start: 100 };
    assert_eq!(v4.index_end(13), 100 + 10 * 13 * 4);
    let v6 = Ipv6DataInfo { count: 10, index_start: 100 };
    assert_eq!(v6.index_end(13), 100 + 10 * (13 * 4 + 12));
}
