//! The IP2Proxy-only layout descriptions: variants, their field lists,
//! table extents and the two index blocks.
use vstd::prelude::*;

use crate::index::{
    ipv4_addr_position, ipv6_addr_position, v4_prefix, v6_prefix, Builder, IndexBlock,
};
use crate::record_field::{px_fields, RecordField};
use crate::schema::INDEX_LEN;

verus! {

/// An IP2Proxy variant.
#[derive(Debug, Clone, Copy, PartialEq, Eq, Structural)]
pub enum Type {
    PX1,
    PX2,
    PX3,
    PX4,
    PX5,
    PX6,
    PX7,
    PX8,
    PX9,
    PX10,
    PX11,
}

/// A field of an IP2Proxy row.
#[allow(non_camel_case_types)]
#[derive(Debug, Clone, Copy, PartialEq, Eq, Structural)]
pub enum Field {
    IP,
    PROXYTYPE,
    COUNTRY,
    REGION,
    CITY,
    ISP,
    DOMAIN,
    USAGETYPE,
    ASN,
    AS,
    LASTSEEN,
    THREAT,
    RESIDENTIAL,
    PROVIDER,
}

impl Field {
    /// The record field it is.
    pub open spec fn record_field_spec(&self) -> RecordField {
        match self {
            Field::IP => RecordField::IP,
            Field::PROXYTYPE => RecordField::PROXYTYPE,
            Field::COUNTRY => RecordField::COUNTRY,
            Field::REGION => RecordField::REGION,
            Field::CITY => RecordField::CITY,
            Field::ISP => RecordField::ISP,
            Field::DOMAIN => RecordField::DOMAIN,
            Field::USAGETYPE => RecordField::USAGETYPE,
            Field::ASN => RecordField::ASN,
            Field::AS => RecordField::AS,
            Field::LASTSEEN => RecordField::LASTSEEN,
            Field::THREAT => RecordField::THREAT,
            Field::RESIDENTIAL => RecordField::RESIDENTIAL,
            Field::PROVIDER => RecordField::PROVIDER,
        }
    }
}

impl Type {
    /// The subtype byte of the variant.
    pub open spec fn sub_type_spec(&self) -> u8 {
        match self {
            Type::PX1 => 1,
            Type::PX2 => 2,
            Type::PX3 => 3,
            Type::PX4 => 4,
            Type::PX5 => 5,
            Type::PX6 => 6,
            Type::PX7 => 7,
            Type::PX8 => 8,
            Type::PX9 => 9,
            Type::PX10 => 10,
            Type::PX11 => 11,
        }
    }

    /// The variant of a subtype byte, 1 to 11.
    pub fn from_sub_type(n: u8) -> (r: Option<Type>)
        ensures
            1 <= n <= 11 ==> (r matches Some(t) && t.sub_type_spec() == n),
            !(1 <= n <= 11) ==> r is None,
    {
        match n {
            1 => Some(Type::PX1),
            2 => Some(Type::PX2),
            3 => Some(Type::PX3),
            4 => Some(Type::PX4),
            5 => Some(Type::PX5),
            6 => Some(Type::PX6),
            7 => Some(Type::PX7),
            8 => Some(Type::PX8),
            9 => Some(Type::PX9),
            10 => Some(Type::PX10),
            11 => Some(Type::PX11),
            _ => None,
        }
    }

    /// The ordered fields of the variant, as the IP2Proxy field table of
    /// `record_field` lists them.
    pub fn fields(&self) -> (r: Vec<Field>)
        ensures
            r@.map_values(|f: Field| f.record_field_spec()) == px_fields(self.sub_type_spec()).unwrap(),
    {
        Field::fields_by_type(self)
    }
}

impl Field {
    /// The ordered fields of variant `t`, as the IP2Proxy field table of
    /// `record_field` lists them.
    pub fn fields_by_type(t: &Type) -> (r: Vec<Field>)
        ensures
            r@.map_values(|f: Field| f.record_field_spec()) == px_fields(t.sub_type_spec()).unwrap(),
    {
        let r = match t {
            Type::PX1 => vec![Field::IP, Field::COUNTRY],
            Type::PX2 => vec![Field::IP, Field::PROXYTYPE, Field::COUNTRY],
            Type::PX3 => vec![Field::IP, Field::PROXYTYPE, Field::COUNTRY, Field::REGION, Field::CITY],
            Type::PX4 => vec![Field::IP, Field::PROXYTYPE, Field::COUNTRY, Field::REGION, Field::CITY, Field::ISP],
            Type::PX5 => vec![Field::IP, Field::PROXYTYPE, Field::COUNTRY, Field::REGION, Field::CITY, Field::ISP, Field::DOMAIN],
            Type::PX6 => vec![Field::IP, Field::PROXYTYPE, Field::COUNTRY, Field::REGION, Field::CITY, Field::ISP, Field::DOMAIN, Field::USAGETYPE],
            Type::PX7 => vec![Field::IP, Field::PROXYTYPE, Field::COUNTRY, Field::REGION, Field::CITY, Field::ISP, Field::DOMAIN, Field::USAGETYPE, Field::ASN, Field::AS],
            Type::PX8 => vec![Field::IP, Field::PROXYTYPE, Field::COUNTRY, Field::REGION, Field::CITY, Field::ISP, Field::DOMAIN, Field::USAGETYPE, Field::ASN, Field::AS, Field::LASTSEEN],
            Type::PX9 => vec![Field::IP, Field::PROXYTYPE, Field::COUNTRY, Field::REGION, Field::CITY, Field::ISP, Field::DOMAIN, Field::USAGETYPE, Field::ASN, Field::AS, Field::LASTSEEN, Field::THREAT],
            Type::PX10 => vec![Field::IP, Field::PROXYTYPE, Field::COUNTRY, Field::REGION, Field::CITY, Field::ISP, Field::DOMAIN, Field::USAGETYPE, Field::ASN, Field::AS, Field::LASTSEEN, Field::THREAT],
            Type::PX11 => vec![Field::IP, Field::PROXYTYPE, Field::COUNTRY, Field::REGION, Field::CITY, Field::ISP, Field::DOMAIN, Field::USAGETYPE, Field::ASN, Field::AS, Field::LASTSEEN, Field::THREAT, Field::PROVIDER],
        };
        assert(r@.map_values(|f: Field| f.record_field_spec()) =~= px_fields(t.sub_type_spec()).unwrap());
        r
    }
}

/// Where the IPv4 rows lie: their count and 1-based start.
#[derive(Debug, Clone, Copy, Default, PartialEq, Eq, Structural)]
pub struct Ipv4DataInfo {
    pub count: u32,
    pub index_start: u32,
}

impl Ipv4DataInfo {
    /// The 1-based position after the last IPv4 row of `num_fields` fields.
    pub fn index_end(&self, num_fields: u8) -> (r: u32)
        requires
            self.index_start + self.count * num_fields * 4 <= u32::MAX,
        ensures
            r == self.index_start + self.count * num_fields * 4,
    {
        proof {
            assert(0 <= self.count * num_fields * 4) by (nonlinear_arith);
            assert(self.count * num_fields * 4 == (self.count as int) * ((num_fields as int) * 4))
                by (nonlinear_arith);
            assert((num_fields as int) * 4 <= 1020);
            assert(self.count * ((num_fields as u32) * 4) <= u32::MAX) by (nonlinear_arith)
                requires
                    self.count * ((num_fields as int) * 4) <= u32::MAX,
            ;
        }
        self.index_start + self.count * ((num_fields as u32) * 4)
    }
}

/// Where the IPv6 rows lie: their count and 1-based start.
#[derive(Debug, Clone, Copy, Default, PartialEq, Eq, Structural)]
pub struct Ipv6DataInfo {
    pub count: u32,
    pub index_start: u32,
}

impl Ipv6DataInfo {
    /// The 1-based position after the last IPv6 row of `num_fields` fields.
    pub fn index_end(&self, num_fields: u8) -> (r: u32)
        requires
            self.index_start + self.count * (num_fields * 4 + 12) <= u32::MAX,
        ensures
            r == self.index_start + self.count * (num_fields * 4 + 12),
    {
        proof {
            assert(0 <= self.count * (num_fields * 4 + 12)) by (nonlinear_arith);
            assert(self.count * ((num_fields as u32) * 4 + 12) <= u32::MAX) by (nonlinear_arith)
                requires
                    self.count * ((num_fields as int) * 4 + 12) <= u32::MAX,
            ;
        }
        self.index_start + self.count * ((num_fields as u32) * 4 + 12)
    }
}

/// The IPv4 index of an IP2Proxy file.
#[derive(Debug)]
pub struct Ipv4Index {
    inner: IndexBlock,
}

impl Ipv4Index {
    pub closed spec fn block(&self) -> IndexBlock {
        self.inner
    }

    /// Byte offset of the pair for `ip`.
    pub fn ipv4_addr_index(ip: u32) -> (r: u32)
        ensures
            r == 8 * v4_prefix(ip),
    {
        ipv4_addr_position(ip)
    }

    /// Bytes of the index: one pair past the pair of the highest address.
    pub fn len() -> (r: u32)
        ensures
            r == INDEX_LEN,
    {
        Self::ipv4_addr_index(0xffff_ffff) + 4 + 4
    }

    pub fn builder() -> (r: Builder)
        ensures
            r@ == Seq::<u8>::empty(),
    {
        Builder::new()
    }

    pub fn from_block(inner: IndexBlock) -> (r: Ipv4Index)
        ensures
            r.block() == inner,
    {
        Ipv4Index { inner }
    }

    /// The first and last row positions of the bucket of `ip`.
    pub fn low_and_high(&self, ip: u32) -> (r: (u32, u32))
        requires
            self.block().wf(),
        ensures
            r.0 == self.block().range_at(8 * v4_prefix(ip)).start,
            r.1 == self.block().range_at(8 * v4_prefix(ip)).end,
    {
        let range = self.inner.pair(Self::ipv4_addr_index(ip));
        (range.start, range.end)
    }
}

/// The IPv6 index of an IP2Proxy file.
#[derive(Debug)]
pub struct Ipv6Index {
    inner: IndexBlock,
}

impl Ipv6Index {
    pub closed spec fn block(&self) -> IndexBlock {
        self.inner
    }

    /// Byte offset of the pair for `ip`.
    pub fn ipv6_addr_index(ip: u128) -> (r: u32)
        ensures
            r == 8 * v6_prefix(ip),
    {
        ipv6_addr_position(ip)
    }

    /// Bytes of the index: one pair past the pair of the highest address.
    pub fn len() -> (r: u32)
        ensures
            r == INDEX_LEN,
    {
        Self::ipv6_addr_index(u128::MAX) + 4 + 4
    }

    pub fn builder() -> (r: Builder)
        ensures
            r@ == Seq::<u8>::empty(),
    {
        Builder::new()
    }

    pub fn from_block(inner: IndexBlock) -> (r: Ipv6Index)
        ensures
            r.block() == inner,
    {
        Ipv6Index { inner }
    }

    /// The first and last row positions of the bucket of `ip`.
    pub fn low_and_high(&self, ip: u128) -> (r: (u32, u32))
        requires
            self.block().wf(),
        ensures
            r.0 == self.block().range_at(8 * v6_prefix(ip)).start,
            r.1 == self.block().range_at(8 * v6_prefix(ip)).end,
    {
        let range = self.inner.pair(Self::ipv6_addr_index(ip));
        (range.start, range.end)
    }
}

} // verus!
