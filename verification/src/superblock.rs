use vstd::prelude::*;

use crate::reader::{fits, le16_at, le32_at, Reader};
use crate::Error;
use crate::FormatError;

verus! {

/// Fixed absolute byte offset of the superblock, whatever the block size.
pub const SUPERBLOCK_OFFSET: u64 = 1024;

/// The superblock signature.
pub const SUPERBLOCK_MAGIC: u16 = 0xEF53;

/// Volume geometry, decoded once per opened volume and immutable after.
#[derive(Clone, Copy, Debug, PartialEq, Eq, Structural)]
pub struct Superblock {
    pub magic: u16,
    pub block_size: u64,
    pub blocks_per_group: u64,
    pub inodes_per_group: u64,
    pub inode_size: u64,
}

/// block_size derived from the stored logarithm: 2^(10 + log).
pub open spec fn spec_block_size_of(log: u32) -> u64 {
    1u64 << ((10 + log) as u64)
}

/// Decode of the superblock out of the volume bytes: magic u16 at 0x38,
/// log_block_size u32 at 0x18, blocks_per_group u32 at 0x20,
/// inodes_per_group u32 at 0x28, inode_size u16 at 0x58, all relative to
/// the fixed base. A wrong signature, a block size of 1024, one too large
/// to derive, or a zero inode group are rejected.
pub open spec fn spec_superblock(d: Seq<u8>) -> Result<Superblock, Error> {
    let base = SUPERBLOCK_OFFSET as int;
    if !fits(d, base + 0x38, 2) {
        Err(Error::Io)
    } else if le16_at(d, base + 0x38) != SUPERBLOCK_MAGIC {
        Err(Error::Format(FormatError::BadSuperblockMagic))
    } else if !fits(d, base + 0x18, 4) {
        Err(Error::Io)
    } else if le32_at(d, base + 0x18) == 0 || le32_at(d, base + 0x18) > 21 {
        Err(Error::Format(FormatError::UnsupportedBlockSize))
    } else if !fits(d, base + 0x20, 4) {
        Err(Error::Io)
    } else if !fits(d, base + 0x28, 4) {
        Err(Error::Io)
    } else if le32_at(d, base + 0x28) == 0 {
        Err(Error::Format(FormatError::ZeroInodesPerGroup))
    } else if !fits(d, base + 0x58, 2) {
        Err(Error::Io)
    } else {
        Ok(
            Superblock {
                magic: SUPERBLOCK_MAGIC,
                block_size: spec_block_size_of(le32_at(d, base + 0x18)),
                blocks_per_group: le32_at(d, base + 0x20) as u64,
                inodes_per_group: le32_at(d, base + 0x28) as u64,
                inode_size: le16_at(d, base + 0x58) as u64,
            },
        )
    }
}

impl Superblock {
    /// Geometry validity as decode establishes it: at least one inode per
    /// group, and a block size between 2048 (the 1024-byte geometry is
    /// rejected outright) and 2^31.
    pub open spec fn wf(self) -> bool {
        &&& 1 <= self.inodes_per_group <= u32::MAX as u64
        &&& 2048 <= self.block_size <= 0x8000_0000u64
        &&& self.inode_size <= u16::MAX as u64
    }

    /// Decode the superblock from the fixed offset of the volume image.
    pub fn new(r: &Reader) -> (res: Result<Superblock, Error>)
        ensures
            res == spec_superblock(r@),
    {
        let magic = r.u16(SUPERBLOCK_OFFSET + 0x38)?;
        if magic != SUPERBLOCK_MAGIC {
            return Err(Error::Format(FormatError::BadSuperblockMagic));
        }
        let log_block_size = r.u32(SUPERBLOCK_OFFSET + 0x18)?;
        if log_block_size == 0 || log_block_size > 21 {
            return Err(Error::Format(FormatError::UnsupportedBlockSize));
        }
        let blocks_per_group = r.u32(SUPERBLOCK_OFFSET + 0x20)?;
        let inodes_per_group = r.u32(SUPERBLOCK_OFFSET + 0x28)?;
        if inodes_per_group == 0 {
            return Err(Error::Format(FormatError::ZeroInodesPerGroup));
        }
        let inode_size = r.u16(SUPERBLOCK_OFFSET + 0x58)?;
        let shift: u64 = 10 + log_block_size as u64;
        let block_size: u64 = 1u64 << shift;
        Ok(
            Superblock {
                magic,
                block_size,
                blocks_per_group: blocks_per_group as u64,
                inodes_per_group: inodes_per_group as u64,
                inode_size: inode_size as u64,
            },
        )
    }
}

/// Any bytes that decode successfully yield a well-formed geometry.
pub proof fn lemma_superblock_wf(d: Seq<u8>)
    ensures
        spec_superblock(d) matches Ok(sb) ==> sb.wf(),
{
    if spec_superblock(d) is Ok {
        let log = le32_at(d, SUPERBLOCK_OFFSET as int + 0x18);
        assert(1 <= log <= 21);
        assert(1 <= log <= 21 ==> 2048 <= (1u64 << ((10 + log) as u64)) <= 0x8000_0000u64)
            by (bit_vector);
    }
}

/// Superblock decode is pure: identical bytes decode to identical results,
/// however often the decode is repeated.
pub proof fn lemma_superblock_decode_deterministic(d1: Seq<u8>, d2: Seq<u8>)
    requires
        d1 == d2,
    ensures
        spec_superblock(d1) == spec_superblock(d2),
{
}

} // verus!
