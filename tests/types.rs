use ip2location_bin::index::{ipv4_addr_position, ipv6_addr_position, v4_index_len, v6_index_len};
use ip2location_bin::ip2proxy::{ProxyType, UsageType};
use ip2location_bin::proxy_format::{Ipv4Index, Ipv6Index};
use ip2location_bin::record_field::{RecordField, RecordFields};
use ip2location_bin::schema::{SchemaSubType, SchemaType, INDEX_LEN};

#[test]
fn test_record_fields_prefix() {
    for n in 1..=11u8 {
        let fields = RecordFields::from_schema(SchemaType::IP2Location, SchemaSubType(n)).unwrap();
        assert_eq!(fields.get(0), RecordField::IP);
    }
    for n in 1..=11u8 {
        let fields = RecordFields::from_schema(SchemaType::IP2Proxy, SchemaSubType(n)).unwrap();
        assert_eq!(fields.get(0), RecordField::IP);
    }
}

#[test]
fn record_fields_unknown_subtype() {
    assert_eq!(
        RecordFields::from_schema(SchemaType::IP2Location, SchemaSubType(12)).unwrap_err(),
        SchemaSubType(12)
    );
    assert_eq!(
        RecordFields::from_schema(SchemaType::IP2Proxy, SchemaSubType(0)).unwrap_err(),
        SchemaSubType(0)
    );
}

#[test]
fn record_fields_db11_and_px11() {
    let db11 = RecordFields::from_schema(SchemaType::IP2Location, SchemaSubType(11)).unwrap();
    assert_eq!(db11.len(), 8);
    assert_eq!(db11.get(4), RecordField::LATITUDE);
    assert_eq!(db11.get(7), RecordField::TIMEZONE);
    assert_eq!(db11.record_bytes_len_for_ipv4(), 32);
    assert_eq!(db11.record_bytes_len_for_ipv4_with_double_ip(), 36);
    assert_eq!(db11.record_bytes_len_for_ipv6(), 44);
    assert_eq!(db11.record_bytes_len_for_ipv6_with_double_ip(), 60);
    assert_eq!(db11.records_bytes_len_for_ipv4(3), 96);
    assert_eq!(db11.records_bytes_len_for_ipv6(3), 132);
    let px11 = RecordFields::from_schema(SchemaType::IP2Proxy, SchemaSubType(11)).unwrap();
    assert_eq!(px11.len(), 13);
    assert_eq!(px11.get(1), RecordField::PROXYTYPE);
    assert_eq!(px11.get(12), RecordField::PROVIDER);
}

#[test]
fn proxy_type_from_str() {
    assert_eq!("PUB".parse::<ProxyType>().unwrap(), ProxyType::PUB);
}

#[test]
fn usage_type_from_str() {
    assert_eq!("ISP".parse::<UsageType>().unwrap(), UsageType::ISP);
}

#[test]
fn proxy_type_other_code() {
    assert_eq!("XYZ".parse::<ProxyType>().unwrap(), ProxyType::Other("XYZ".to_string()));
    assert_eq!(ProxyType::VPN.code(), "VPN");
    assert_eq!(UsageType::Other("ABC".to_string()).code(), "ABC");
}

#[test]
fn test_index_len() {
    assert_eq!(v4_index_len(), INDEX_LEN);
    assert_eq!(v6_index_len(), INDEX_LEN);
}

#[test]
fn ipv4_index_test_len() {
    assert_eq!(Ipv4Index::ipv4_addr_index(u32::from_be_bytes([255, 255, 255, 255])), 524280);
    assert_eq!(Ipv4Index::len(), 524288);
}

#[test]
fn ipv6_index_test_len() {
    assert_eq!(
        Ipv6Index::ipv6_addr_index(u128::from_be_bytes([0xff; 16])),
        524280
    );
    assert_eq!(Ipv6Index::len(), 524288);
}

#[test]
fn index_positions() {
    assert_eq!(ipv4_addr_position(0x0100_0000), 256 * 8);
    assert_eq!(ipv6_addr_position(0x2001_0db8u128 << 96), 0x2001 * 8);
}
