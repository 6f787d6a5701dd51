//! The decoded file header and the layout rules it must obey.
use vstd::prelude::*;

use crate::record_field::{schema_fields, RecordField, RecordFields};

verus! {

/// Bytes of the fixed file header.
pub const HEADER_LEN: u32 = 64;

/// Bytes of one index block: 65,536 pairs of two `u32`.
pub const INDEX_LEN: u32 = 524288;

/// The schema subtype byte (`DB<n>` or `PX<n>`).
#[derive(Debug, Clone, Copy, Default, PartialEq, Eq, Structural)]
pub struct SchemaSubType(pub u8);

/// The schema family tag.
#[derive(Debug, Clone, Copy, PartialEq, Eq, Structural)]
pub enum SchemaType {
    Unknown,
    IP2Location,
    IP2Proxy,
}

impl SchemaType {
    /// The family of a tag byte: 1 is IP2Location, 2 is IP2Proxy.
    pub fn from_tag(tag: u8) -> (r: Option<SchemaType>)
        ensures
            tag == 1 ==> r == Some(SchemaType::IP2Location),
            tag == 2 ==> r == Some(SchemaType::IP2Proxy),
            tag != 1 && tag != 2 ==> r is None,
    {
        match tag {
            1 => Some(SchemaType::IP2Location),
            2 => Some(SchemaType::IP2Proxy),
            _ => None,
        }
    }

    pub fn is_ip2location(&self) -> (r: bool)
        ensures
            r == (*self == SchemaType::IP2Location || *self == SchemaType::Unknown),
    {
        match self {
            SchemaType::IP2Location | SchemaType::Unknown => true,
            SchemaType::IP2Proxy => false,
        }
    }

    pub fn is_ip2proxy(&self) -> (r: bool)
        ensures
            r == (*self == SchemaType::IP2Proxy),
    {
        match self {
            SchemaType::IP2Proxy => true,
            _ => false,
        }
    }
}

/// Which position field of the header breaks the layout.
#[derive(Debug, Clone, Copy, PartialEq, Eq, Structural)]
pub enum LayoutField {
    V4IndexPositionStart,
    V6IndexPositionStart,
    V4RecordsPositionStart,
    V6RecordsPositionStart,
}

/// Why a header's layout is refused.
#[derive(Debug, Clone, Copy, PartialEq, Eq, Structural)]
pub enum VerifyError {
    SubTypeInvalid(SchemaSubType),
    NumRecordFieldsMismatch(u8),
    /// A region does not start where the one before it ends.
    XPositionStartInvalid(LayoutField),
    TotalSizeTooSmall(u32),
    /// A v6 position is not 1 although the file has no v6 records.
    Other(LayoutField),
}

/// The decoded file header.
#[derive(Debug, Clone, Copy)]
pub struct Schema {
    pub sub_type: SchemaSubType,
    pub num_record_fields: u8,
    /// Year offset from 2000, month, day.
    pub date: (u8, u8, u8),
    pub v4_records_count: u32,
    pub v4_records_position_start: u32,
    pub v6_records_count: u32,
    pub v6_records_position_start: u32,
    pub v4_index_position_start: u32,
    pub v6_index_position_start: u32,
    pub schema_type: SchemaType,
    pub license_code: u8,
    pub total_size: u32,
}

/// Bytes of one IPv4 row for `n` fields.
pub open spec fn v4_row_len(n: nat) -> nat {
    4 * n
}

/// Bytes of one IPv6 row for `n` fields.
pub open spec fn v6_row_len(n: nat) -> nat {
    4 * n + 12
}

impl Schema {
    pub open spec fn has_v6_spec(&self) -> bool {
        self.v6_records_count > 0
    }

    /// The 1-based position at which the v4 record table ends.
    pub open spec fn v4_records_end(&self, n: nat) -> int {
        self.v4_records_position_start + v4_row_len(n) * self.v4_records_count
    }

    /// The 1-based position after the last table.
    pub open spec fn tables_end(&self, n: nat) -> int {
        if self.has_v6_spec() {
            self.v6_records_position_start + v6_row_len(n) * self.v6_records_count
        } else {
            self.v4_records_end(n)
        }
    }

    /// What `verify` returns: the checks in their order.
    pub open spec fn verify_spec(&self) -> Result<(), VerifyError> {
        match schema_fields(self.schema_type, self.sub_type.0) {
            None => Err(VerifyError::SubTypeInvalid(self.sub_type)),
            Some(fields) => {
                let n = fields.len();
                let v4_index_end = HEADER_LEN + 1 + INDEX_LEN;
                let v4_records_start = if self.has_v6_spec() {
                    v4_index_end + INDEX_LEN
                } else {
                    v4_index_end
                };
                if n != self.num_record_fields {
                    Err(VerifyError::NumRecordFieldsMismatch(self.num_record_fields))
                } else if !self.has_v6_spec() && self.v6_index_position_start != 1 {
                    Err(VerifyError::Other(LayoutField::V6IndexPositionStart))
                } else if !self.has_v6_spec() && self.v6_records_position_start != 1 {
                    Err(VerifyError::Other(LayoutField::V6RecordsPositionStart))
                } else if self.v4_index_position_start != HEADER_LEN + 1 {
                    Err(VerifyError::XPositionStartInvalid(LayoutField::V4IndexPositionStart))
                } else if self.has_v6_spec() && self.v6_index_position_start != v4_index_end {
                    Err(VerifyError::XPositionStartInvalid(LayoutField::V6IndexPositionStart))
                } else if self.v4_records_position_start != v4_records_start {
                    Err(VerifyError::XPositionStartInvalid(LayoutField::V4RecordsPositionStart))
                } else if self.has_v6_spec() && self.v6_records_position_start
                    != self.v4_records_end(n) {
                    Err(VerifyError::XPositionStartInvalid(LayoutField::V6RecordsPositionStart))
                } else if self.tables_end(n) - 1 > self.total_size {
                    Err(VerifyError::TotalSizeTooSmall(self.total_size))
                } else {
                    Ok(())
                }
            },
        }
    }

    /// A header whose layout is checked: the field list is known and every
    /// table lies inside the file.
    pub open spec fn wf(&self) -> bool {
        self.verify_spec() is Ok
    }

    pub open spec fn fields_spec(&self) -> Seq<RecordField> {
        schema_fields(self.schema_type, self.sub_type.0).unwrap()
    }

    /// The field list of the header's variant.
    pub fn record_fields(&self) -> (r: Option<RecordFields>)
        ensures
            r matches Some(f) ==> schema_fields(self.schema_type, self.sub_type.0) == Some(f@)
                && f.wf(),
            r is None ==> schema_fields(self.schema_type, self.sub_type.0) is None,
    {
        match RecordFields::from_schema(self.schema_type, self.sub_type) {
            Ok(f) => Some(f),
            Err(_) => None,
        }
    }

    pub fn has_v6(&self) -> (r: bool)
        ensures
            r == self.has_v6_spec(),
    {
        self.v6_records_count > 0
    }

    /// Byte offset of the v4 index.
    pub fn v4_index_seek_from_start(&self) -> (r: u64)
        requires
            self.v4_index_position_start >= 1,
        ensures
            r == self.v4_index_position_start - 1,
    {
        self.v4_index_position_start as u64 - 1
    }

    /// Byte offset of the v6 index, when the file has v6 data.
    pub fn v6_index_seek_from_start(&self) -> (r: Option<u64>)
        requires
            self.has_v6_spec() ==> self.v6_index_position_start >= 1,
        ensures
            self.has_v6_spec() ==> r == Some((self.v6_index_position_start - 1) as u64),
            !self.has_v6_spec() ==> r is None,
    {
        if self.has_v6() {
            Some(self.v6_index_position_start as u64 - 1)
        } else {
            None
        }
    }

    /// Byte offset of the v4 record table.
    pub fn v4_records_seek_from_start(&self) -> (r: u64)
        requires
            self.v4_records_position_start >= 1,
        ensures
            r == self.v4_records_position_start - 1,
    {
        self.v4_records_position_start as u64 - 1
    }

    /// Byte offset of the v6 record table, when the file has v6 data.
    pub fn v6_records_seek_from_start(&self) -> (r: Option<u64>)
        requires
            self.has_v6_spec() ==> self.v6_records_position_start >= 1,
        ensures
            self.has_v6_spec() ==> r == Some((self.v6_records_position_start - 1) as u64),
            !self.has_v6_spec() ==> r is None,
    {
        if self.has_v6() {
            Some(self.v6_records_position_start as u64 - 1)
        } else {
            None
        }
    }

    /// Checks the field count and that index and record regions follow one
    /// another with no gap and end inside the file.
    pub fn verify(&self) -> (r: Result<(), VerifyError>)
        ensures
            r == self.verify_spec(),
    {
        let record_fields = match self.record_fields() {
            Some(f) => f,
            None => return Err(VerifyError::SubTypeInvalid(self.sub_type)),
        };
        let n = record_fields.len();
        if n != self.num_record_fields as usize {
            return Err(VerifyError::NumRecordFieldsMismatch(self.num_record_fields));
        }
        if !self.has_v6() {
            if self.v6_index_position_start != 1 {
                return Err(VerifyError::Other(LayoutField::V6IndexPositionStart));
            }
            if self.v6_records_position_start != 1 {
                return Err(VerifyError::Other(LayoutField::V6RecordsPositionStart));
            }
        }
        let mut cur: u64 = HEADER_LEN as u64 + 1;
        if self.v4_index_position_start as u64 != cur {
            return Err(VerifyError::XPositionStartInvalid(LayoutField::V4IndexPositionStart));
        }
        cur = cur + INDEX_LEN as u64;
        if self.has_v6() {
            if self.v6_index_position_start as u64 != cur {
                return Err(VerifyError::XPositionStartInvalid(LayoutField::V6IndexPositionStart));
            }
            cur = cur + INDEX_LEN as u64;
        }
        if self.v4_records_position_start as u64 != cur {
            return Err(VerifyError::XPositionStartInvalid(LayoutField::V4RecordsPositionStart));
        }
        let n64 = n as u64;
        proof {
            assert(n64 * 4 <= 4 * 13) by (nonlinear_arith)
                requires n64 <= 13;
            assert(n64 * 4 * (self.v4_records_count as u64) <= 52 * 0xffff_ffffu64) by (nonlinear_arith)
                requires n64 * 4 <= 52;
        }
        cur = cur + n64 * 4 * self.v4_records_count as u64;
        if self.has_v6() {
            if self.v6_records_position_start as u64 != cur {
                return Err(
                    VerifyError::XPositionStartInvalid(LayoutField::V6RecordsPositionStart),
                );
            }
            proof {
                assert((n64 * 4 + 12) * (self.v6_records_count as u64) <= 64 * 0xffff_ffffu64) by (nonlinear_arith)
                    requires n64 * 4 <= 52;
            }
            cur = self.v6_records_position_start as u64 + (n64 * 4 + 12)
                * self.v6_records_count as u64;
        }
        if cur - 1 > self.total_size as u64 {
            return Err(VerifyError::TotalSizeTooSmall(self.total_size));
        }
        Ok(())
    }
}

} // verus!
