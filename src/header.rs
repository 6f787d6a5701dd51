//! Decoding of the 64-byte file header, whole or fed in pieces.
use vstd::prelude::*;

use crate::bytes::{le_at, read_u32_le};
use crate::schema::{Schema, SchemaSubType, SchemaType, VerifyError};

verus! {

/// Bytes of the header that carry fields; the rest of the 64 are reserved.
pub const LEN: usize = 35;

pub open spec fn is_leap_year(y: int) -> bool {
    (y % 4 == 0 && y % 100 != 0) || y % 400 == 0
}

pub open spec fn days_in_month(y: int, m: int) -> int {
    if m == 2 {
        if is_leap_year(y) {
            29
        } else {
            28
        }
    } else if m == 4 || m == 6 || m == 9 || m == 11 {
        30
    } else {
        31
    }
}

/// A day of the proleptic Gregorian calendar.
pub open spec fn valid_ymd(y: int, m: int, d: int) -> bool {
    1 <= m <= 12 && 1 <= d <= days_in_month(y, m)
}

/// Relies on chrono's `NaiveDate::from_ymd_opt`, which returns `Some` exactly for
/// an existing calendar date within its year range (which holds years 1 to 9999).
#[verifier::external_body]
fn date_exists(year: i32, month: u32, day: u32) -> (r: bool)
    requires
        1 <= year <= 9999,
    ensures
        r == valid_ymd(year as int, month as int, day as int),
{
    chrono::NaiveDate::from_ymd_opt(year, month, day).is_some()
}

/// Why a header is refused.
#[derive(Debug, Clone, Copy, PartialEq, Eq, Structural)]
pub enum ParseError {
    YearOrMonthOrDayValueInvalid(u8, u8, u8),
    /// A file of the old format: built after 2020 with a non-zero license
    /// byte and a family tag that is neither 0 nor 2.
    LegacyFormat,
    TypeValueInvalid(u8),
    VerifyFailed(VerifyError),
}

pub open spec fn type_of_tag(tag: u8) -> SchemaType {
    if tag == 1 {
        SchemaType::IP2Location
    } else if tag == 2 {
        SchemaType::IP2Proxy
    } else {
        SchemaType::Unknown
    }
}

/// The header fields as the bytes `b` state them.
pub open spec fn header_of(b: Seq<u8>) -> Schema {
    Schema {
        sub_type: SchemaSubType(b[0]),
        num_record_fields: b[1],
        date: (b[2], b[3], b[4]),
        v4_records_count: le_at(b, 5, 4) as u32,
        v4_records_position_start: le_at(b, 9, 4) as u32,
        v6_records_count: le_at(b, 13, 4) as u32,
        v6_records_position_start: le_at(b, 17, 4) as u32,
        v4_index_position_start: le_at(b, 21, 4) as u32,
        v6_index_position_start: le_at(b, 25, 4) as u32,
        schema_type: type_of_tag(b[29]),
        license_code: b[30],
        total_size: le_at(b, 31, 4) as u32,
    }
}

/// What decoding the header bytes `b` gives, the checks in their order.
pub open spec fn header_result(b: Seq<u8>) -> Result<Schema, ParseError> {
    if !valid_ymd(2000 + b[2], b[3] as int, b[4] as int) {
        Err(ParseError::YearOrMonthOrDayValueInvalid(b[2], b[3], b[4]))
    } else if b[2] > 20 && b[30] != 0 && b[29] != 0 && b[29] != 2 {
        Err(ParseError::LegacyFormat)
    } else if b[29] != 1 && b[29] != 2 {
        Err(ParseError::TypeValueInvalid(b[29]))
    } else {
        match header_of(b).verify_spec() {
            Ok(_) => Ok(header_of(b)),
            Err(e) => Err(ParseError::VerifyFailed(e)),
        }
    }
}

/// Decodes and checks a header from its first `LEN` bytes.
pub fn parse_header(b: &[u8]) -> (r: Result<Schema, ParseError>)
    requires
        b@.len() >= LEN,
    ensures
        r == header_result(b@),
        r matches Ok(s) ==> s.wf(),
{
    let year = b[2];
    let month = b[3];
    let day = b[4];
    if !date_exists(2000 + year as i32, month as u32, day as u32) {
        return Err(ParseError::YearOrMonthOrDayValueInvalid(year, month, day));
    }
    let tag = b[29];
    let license_code = b[30];
    if year > 20 && license_code != 0 && tag != 0 && tag != 2 {
        return Err(ParseError::LegacyFormat);
    }
    let schema_type = match SchemaType::from_tag(tag) {
        Some(t) => t,
        None => return Err(ParseError::TypeValueInvalid(tag)),
    };
    let schema = Schema {
        sub_type: SchemaSubType(b[0]),
        num_record_fields: b[1],
        date: (year, month, day),
        v4_records_count: read_u32_le(b, 5),
        v4_records_position_start: read_u32_le(b, 9),
        v6_records_count: read_u32_le(b, 13),
        v6_records_position_start: read_u32_le(b, 17),
        v4_index_position_start: read_u32_le(b, 21),
        v6_index_position_start: read_u32_le(b, 25),
        schema_type,
        license_code,
        total_size: read_u32_le(b, 31),
    };
    assert(schema == header_of(b@));
    match schema.verify() {
        Ok(_) => Ok(schema),
        Err(e) => Err(ParseError::VerifyFailed(e)),
    }
}

/// The start of the `i`-th header field; the twelfth ends at `LEN`.
pub open spec fn boundary(i: int) -> int {
    if i <= 0 {
        0
    } else if i == 1 {
        1
    } else if i == 2 {
        2
    } else if i <= 9 {
        5 + 4 * (i - 3)
    } else if i == 10 {
        30
    } else if i == 11 {
        31
    } else {
        35
    }
}

fn boundary_exec(i: usize) -> (r: usize)
    requires
        i <= 12,
    ensures
        r == boundary(i as int),
{
    if i == 0 {
        0
    } else if i == 1 {
        1
    } else if i == 2 {
        2
    } else if i <= 9 {
        5 + 4 * (i - 3)
    } else if i == 10 {
        30
    } else if i == 11 {
        31
    } else {
        35
    }
}

/// The number of whole fields, from field `k` on, held in `avail` bytes.
pub open spec fn fields_fitting(k: int, avail: int) -> int
    decreases 12 - k,
{
    if k >= 12 || boundary(k + 1) - boundary(k) > avail {
        k
    } else {
        fields_fitting(k + 1, avail - (boundary(k + 1) - boundary(k)))
    }
}

/// What one call of `Parser::parse` reports.
#[derive(Debug, Clone, Copy)]
pub enum ParseStep {
    /// More bytes are needed; this many were taken.
    Continue(usize),
    /// The header is complete: the bytes taken by this call, and the header.
    Break(usize, Schema),
}

/// A header parser that takes its input in pieces and keeps whole fields only.
#[derive(Debug)]
pub struct Parser {
    consumed: Vec<u8>,
    parsed_fields: usize,
}

impl Parser {
    /// The header bytes taken so far.
    pub closed spec fn consumed(&self) -> Seq<u8> {
        self.consumed@
    }

    /// The number of whole fields taken so far.
    pub closed spec fn parsed_fields(&self) -> int {
        self.parsed_fields as int
    }

    pub closed spec fn wf(&self) -> bool {
        &&& self.parsed_fields <= 12
        &&& self.consumed@.len() == boundary(self.parsed_fields as int)
    }

    pub fn new() -> (r: Parser)
        ensures
            r.wf(),
            r.consumed() == Seq::<u8>::empty(),
            r.parsed_fields() == 0,
    {
        Parser { consumed: Vec::new(), parsed_fields: 0 }
    }

    /// Takes the whole fields that `input` holds. Once all twelve are in,
    /// checks the header: on success returns it and starts over.
    pub fn parse(&mut self, input: &[u8]) -> (r: Result<ParseStep, ParseError>)
        requires
            old(self).wf(),
        ensures
            final(self).wf(),
            ({
                let k = old(self).parsed_fields();
                let k2 = fields_fitting(k, input@.len() as int);
                let taken = boundary(k2) - boundary(k);
                let all = old(self).consumed() + input@.subrange(0, taken);
                if k2 < 12 {
                    &&& r == Ok::<ParseStep, ParseError>(ParseStep::Continue(taken as usize))
                    &&& final(self).consumed() == all
                    &&& final(self).parsed_fields() == k2
                } else {
                    &&& all.len() == LEN
                    &&& match header_result(all) {
                        Ok(s) => r == Ok::<ParseStep, ParseError>(ParseStep::Break(taken as usize, s))
                            && final(self).consumed() == Seq::<u8>::empty()
                            && final(self).parsed_fields() == 0,
                        Err(e) => r == Err::<ParseStep, ParseError>(e)
                            && final(self).consumed() == all
                            && final(self).parsed_fields() == 12,
                    }
                }
            }),
    {
        let ghost k0 = self.parsed_fields as int;
        let ghost avail0 = input@.len() as int;
        let start = boundary_exec(self.parsed_fields);
        let mut k = self.parsed_fields;
        while k < 12 && boundary_exec(k + 1) - start <= input.len()
            invariant
                k0 <= k <= 12,
                start == boundary(k0),
                avail0 == input@.len(),
                fields_fitting(k as int, avail0 - (boundary(k as int) - start)) == fields_fitting(
                    k0,
                    avail0,
                ),
                boundary(k as int) - start <= avail0,
            decreases 12 - k,
        {
            k = k + 1;
        }
        let taken = boundary_exec(k) - start;
        assert(fields_fitting(k as int, avail0 - (boundary(k as int) - start)) == k);
        let mut i: usize = 0;
        let ghost before = self.consumed@;
        while i < taken
            invariant
                i <= taken <= input@.len(),
                self.consumed@ == before + input@.subrange(0, i as int),
                before.len() + taken <= LEN,
            decreases taken - i,
        {
            self.consumed.push(input[i]);
            i = i + 1;
            assert(before + input@.subrange(0, i as int) =~= (before + input@.subrange(
                0,
                i - 1,
            )).push(input@[i - 1]));
        }
        self.parsed_fields = k;
        if k < 12 {
            return Ok(ParseStep::Continue(taken));
        }
        match parse_header(self.consumed.as_slice()) {
            Ok(s) => {
                self.consumed = Vec::new();
                self.parsed_fields = 0;
                Ok(ParseStep::Break(taken, s))
            },
            Err(e) => Err(e),
        }
    }
}

} // verus!
