//! The index blocks: for each 16-bit address prefix, the range of record
//! table positions that may hold the address.
use vstd::prelude::*;

use crate::bytes::{le_at, read_u32_le};
use crate::records::PositionRange;
use crate::schema::INDEX_LEN;

verus! {

/// Bytes of one half of an index pair.
pub const INDEX_ELEMENT_LEN: u32 = 4;

/// The high 16 bits of an IPv4 address.
pub open spec fn v4_prefix(ip: u32) -> int {
    ip as int / 0x1_0000
}

/// The first two octets of an IPv6 address.
pub open spec fn v6_prefix(ip: u128) -> int {
    ip as int / 0x1_0000_0000_0000_0000_0000_0000_0000
}

/// Byte offset in the v4 index of the pair for `ip`.
pub fn ipv4_addr_position(ip: u32) -> (r: u32)
    ensures
        r == 8 * v4_prefix(ip),
{
    (ip / 0x1_0000) * 8
}

/// Byte offset in the v6 index of the pair for `ip`.
pub fn ipv6_addr_position(ip: u128) -> (r: u32)
    ensures
        r == 8 * v6_prefix(ip),
{
    let high = ip / 0x1_0000_0000_0000_0000_0000_0000_0000u128;
    assert(high < 0x1_0000) by (nonlinear_arith)
        requires
            high == ip / 0x1_0000_0000_0000_0000_0000_0000_0000u128,
            ip <= u128::MAX,
    ;
    (high as u32) * 8
}

/// The bytes that the v4 index spans: one pair past the pair of the
/// highest address.
pub fn v4_index_len() -> (r: u32)
    ensures
        r == INDEX_LEN,
{
    ipv4_addr_position(0xffff_ffff) + INDEX_ELEMENT_LEN + INDEX_ELEMENT_LEN
}

/// The bytes that the v6 index spans: one pair past the pair of the
/// highest address.
pub fn v6_index_len() -> (r: u32)
    ensures
        r == INDEX_LEN,
{
    ipv6_addr_position(u128::MAX) + INDEX_ELEMENT_LEN + INDEX_ELEMENT_LEN
}

/// Why an index block cannot be built.
#[derive(Debug, Clone, Copy, PartialEq, Eq, Structural)]
pub enum BuildError {
    LenMismatch,
}

/// A complete index block of `INDEX_LEN` bytes.
#[derive(Debug)]
pub struct IndexBlock {
    bytes: Vec<u8>,
}

impl View for IndexBlock {
    type V = Seq<u8>;

    closed spec fn view(&self) -> Seq<u8> {
        self.bytes@
    }
}

impl IndexBlock {
    pub open spec fn wf(&self) -> bool {
        self@.len() == INDEX_LEN
    }

    /// The position range stored at byte `pos`.
    pub open spec fn range_at(&self, pos: int) -> PositionRange {
        PositionRange { start: le_at(self@, pos, 4) as u32, end: le_at(self@, pos + 4, 4) as u32 }
    }

    /// The position range stored at byte `pos`.
    pub fn pair(&self, pos: u32) -> (r: PositionRange)
        requires
            self.wf(),
            pos % 8 == 0,
            pos < INDEX_LEN,
        ensures
            r == self.range_at(pos as int),
    {
        let p = pos as usize;
        PositionRange::new(read_u32_le(self.bytes.as_slice(), p), read_u32_le(self.bytes.as_slice(), p + 4))
    }
}

/// Collects the bytes of one index block.
#[derive(Debug)]
pub struct Builder {
    bytes: Vec<u8>,
}

impl View for Builder {
    type V = Seq<u8>;

    closed spec fn view(&self) -> Seq<u8> {
        self.bytes@
    }
}

impl Builder {
    pub fn new() -> (r: Builder)
        ensures
            r@ == Seq::<u8>::empty(),
    {
        Builder { bytes: Vec::new() }
    }

    /// Appends a chunk of the block.
    pub fn append(&mut self, slice: &[u8])
        ensures
            final(self)@ == old(self)@ + slice@,
    {
        self.bytes.extend_from_slice(slice);
    }

    /// The block, when exactly `INDEX_LEN` bytes were appended.
    pub fn finish(self) -> (r: Result<IndexBlock, BuildError>)
        ensures
            self@.len() == INDEX_LEN ==> (r matches Ok(b) && b@ == self@ && b.wf()),
            self@.len() != INDEX_LEN ==> r == Err::<IndexBlock, BuildError>(BuildError::LenMismatch),
    {
        if self.bytes.len() != INDEX_LEN as usize {
            return Err(BuildError::LenMismatch);
        }
        Ok(IndexBlock { bytes: self.bytes })
    }
}

/// The IPv4 index.
#[derive(Debug)]
pub struct V4Querier {
    inner: IndexBlock,
}

impl V4Querier {
    pub open spec fn wf(&self) -> bool {
        self.block().wf()
    }

    pub closed spec fn block(&self) -> IndexBlock {
        self.inner
    }

    pub fn from_block(inner: IndexBlock) -> (r: V4Querier)
        ensures
            r.block() == inner,
    {
        V4Querier { inner }
    }

    pub fn builder() -> (r: Builder)
        ensures
            r@ == Seq::<u8>::empty(),
    {
        Builder::new()
    }

    /// The position range of the bucket that holds `ip`.
    pub fn query(&self, ip: u32) -> (r: PositionRange)
        requires
            self.wf(),
        ensures
            r == self.block().range_at(8 * v4_prefix(ip)),
    {
        self.inner.pair(ipv4_addr_position(ip))
    }
}

/// The IPv6 index.
#[derive(Debug)]
pub struct V6Querier {
    inner: IndexBlock,
}

impl V6Querier {
    pub open spec fn wf(&self) -> bool {
        self.block().wf()
    }

    pub closed spec fn block(&self) -> IndexBlock {
        self.inner
    }

    pub fn from_block(inner: IndexBlock) -> (r: V6Querier)
        ensures
            r.block() == inner,
    {
        V6Querier { inner }
    }

    pub fn builder() -> (r: Builder)
        ensures
            r@ == Seq::<u8>::empty(),
    {
        Builder::new()
    }

    /// The position range of the bucket that holds `ip`.
    pub fn query(&self, ip: u128) -> (r: PositionRange)
        requires
            self.wf(),
        ensures
            r == self.block().range_at(8 * v6_prefix(ip)),
    {
        self.inner.pair(ipv6_addr_position(ip))
    }
}

} // verus!
