use vstd::prelude::*;

use crate::reader::{combine64, fits, le32_at, Reader};
use crate::superblock::Superblock;
use crate::Error;

verus! {

/// Fixed size of one group descriptor record.
pub const DESCRIPTOR_SIZE: u64 = 64;

/// A group descriptor, decoded on demand; only the inode table address is
/// of interest.
#[derive(Clone, Copy, Debug, PartialEq, Eq, Structural)]
pub struct BlockGroupDescriptor {
    pub inode_table: u64,
}

/// A 0-based block-group index, derived per inode lookup.
#[derive(Clone, Copy, Debug, PartialEq, Eq, Structural)]
pub struct BlockGroupNumber(pub u64);

/// A 1-based inode identifier.
#[derive(Clone, Copy, Debug, PartialEq, Eq, Structural)]
pub struct InodeNumber(pub u64);

impl BlockGroupNumber {
    /// Absolute byte offset of this group's descriptor: the table starts
    /// in the block after the superblock's, at offset block_size, and each
    /// record is 64 bytes.
    pub open spec fn spec_desc_offset(self, sb: Superblock) -> int {
        sb.block_size + self.0 * DESCRIPTOR_SIZE
    }

    /// Decode of this group's descriptor out of the volume bytes: the
    /// inode table address is the lo/hi split field at 0x8 and 0x28.
    pub open spec fn spec_desc(self, sb: Superblock, d: Seq<u8>) -> Result<
        BlockGroupDescriptor,
        Error,
    > {
        let base = self.spec_desc_offset(sb);
        if !(fits(d, base + 0x8, 4) && fits(d, base + 0x28, 4)) {
            Err(Error::Io)
        } else {
            Ok(
                BlockGroupDescriptor {
                    inode_table: combine64(le32_at(d, base + 0x8), le32_at(d, base + 0x28)),
                },
            )
        }
    }

    /// The descriptor's absolute offset; an address beyond the 64-bit
    /// range can never be read and surfaces as an I/O error.
    pub fn desc_offset(self, sb: &Superblock) -> (res: Result<u64, Error>)
        ensures
            self.spec_desc_offset(*sb) <= u64::MAX ==> res == Ok::<u64, Error>(
                self.spec_desc_offset(*sb) as u64,
            ),
            self.spec_desc_offset(*sb) > u64::MAX ==> res == Err::<u64, Error>(Error::Io),
    {
        let scaled = match self.0.checked_mul(DESCRIPTOR_SIZE) {
            Some(m) => m,
            None => {
                return Err(Error::Io);
            },
        };
        match sb.block_size.checked_add(scaled) {
            Some(b) => Ok(b),
            None => Err(Error::Io),
        }
    }

    /// Decode this group's descriptor from the volume image.
    pub fn desc(self, sb: &Superblock, r: &Reader) -> (res: Result<BlockGroupDescriptor, Error>)
        ensures
            res == self.spec_desc(*sb, r@),
    {
        let n = r.len();
        let base = match self.desc_offset(sb) {
            Ok(b) => b,
            Err(e) => {
                return Err(e);
            },
        };
        let lo_off = match base.checked_add(0x8) {
            Some(v) => v,
            None => {
                return Err(Error::Io);
            },
        };
        let hi_off = match base.checked_add(0x28) {
            Some(v) => v,
            None => {
                return Err(Error::Io);
            },
        };
        match r.u64_lohi(lo_off, hi_off) {
            Ok(v) => Ok(BlockGroupDescriptor { inode_table: v }),
            Err(e) => Err(e),
        }
    }
}

impl InodeNumber {
    /// The 0-based group an inode belongs to: (number - 1) divided by the
    /// group size.
    pub fn blockgroup_number(self, sb: &Superblock) -> (r: BlockGroupNumber)
        requires
            self.0 >= 1,
            sb.inodes_per_group >= 1,
        ensures
            r.0 == (self.0 - 1) as int / sb.inodes_per_group as int,
    {
        let n = (self.0 - 1) / sb.inodes_per_group;
        BlockGroupNumber(n)
    }

    /// The 0-based position of an inode within its group's table:
    /// (number - 1) modulo the group size.
    pub fn index_in_group(self, sb: &Superblock) -> (r: u64)
        requires
            self.0 >= 1,
            sb.inodes_per_group >= 1,
        ensures
            r == (self.0 - 1) as int % sb.inodes_per_group as int,
    {
        (self.0 - 1) % sb.inodes_per_group
    }
}

} // verus!
