use vstd::prelude::*;

use crate::reader::{combine48, fits, get_u16, get_u32, le16_at, le32_at};
use crate::Error;
use crate::FormatError;

verus! {

/// The extent-tree signature.
pub const EXTENT_MAGIC: u16 = 0xF30A;

/// Size of the extent header and of each extent record.
pub const EXTENT_RECORD_SIZE: u64 = 12;

/// The header of an inline extent tree: its signature, the count of
/// records that follow, and the tree depth (only 0, a leaf list, is
/// supported).
#[derive(Clone, Copy, Debug, PartialEq, Eq, Structural)]
pub struct ExtentHeader {
    pub magic: u16,
    pub entries: u16,
    pub depth: u16,
}

/// One extent record: its block count (only 1 is supported) and its
/// 48-bit physical start block.
#[derive(Clone, Copy, Debug, PartialEq, Eq, Structural)]
pub struct Extent {
    pub len: u16,
    pub start: u64,
}

/// Decode of an extent header out of an inline area: magic u16 at 0x0,
/// entries u16 at 0x2, depth u16 at 0x6. A wrong signature means the
/// inode is not extent-mapped; a nonzero depth means an index node, both
/// explicit failures.
pub open spec fn spec_extent_header(b: Seq<u8>) -> Result<ExtentHeader, Error> {
    if !fits(b, 0, 2) {
        Err(Error::Io)
    } else if le16_at(b, 0) != EXTENT_MAGIC {
        Err(Error::Format(FormatError::BadExtentMagic))
    } else if !fits(b, 6, 2) {
        Err(Error::Io)
    } else if le16_at(b, 6) != 0 {
        Err(Error::Format(FormatError::UnsupportedExtentDepth))
    } else {
        Ok(ExtentHeader { magic: EXTENT_MAGIC, entries: le16_at(b, 2), depth: 0 })
    }
}

/// Decode of the `i`-th extent record, the 12 bytes at 12*(i+1): len u16
/// at 0x4 (which must be 1), start assembled from a high 16-bit half at
/// 0x6 and a low 32-bit half at 0x8.
pub open spec fn spec_extent_at(b: Seq<u8>, i: int) -> Result<Extent, Error> {
    let off = 12 * (i + 1);
    if !fits(b, off + 0x4, 2) {
        Err(Error::Io)
    } else if le16_at(b, off + 0x4) != 1 {
        Err(Error::Format(FormatError::UnsupportedExtentLength))
    } else if !fits(b, off + 0x8, 4) {
        Err(Error::Io)
    } else {
        Ok(Extent { len: 1, start: combine48(le16_at(b, off + 0x6), le32_at(b, off + 0x8)) })
    }
}

/// Resolution of 0-indexed logical block `i` through a leaf extent list:
/// the byte range [start * block_size, (start + 1) * block_size) of the
/// `i`-th record's start block. A logical block at or past the record
/// count, like a range beyond 64-bit addressing, can never be read and
/// surfaces as an I/O error.
pub open spec fn spec_resolve_block(root: Seq<u8>, i: int, block_size: u64) -> Result<
    (u64, u64),
    Error,
> {
    match spec_extent_header(root) {
        Err(e) => Err(e),
        Ok(h) => if !(0 <= i < h.entries) {
            Err(Error::Io)
        } else {
            match spec_extent_at(root, i) {
                Err(e) => Err(e),
                Ok(ext) => if ext.start * block_size + block_size > u64::MAX {
                    Err(Error::Io)
                } else {
                    Ok(
                        (
                            (ext.start * block_size) as u64,
                            (ext.start * block_size + block_size) as u64,
                        ),
                    )
                },
            }
        },
    }
}

impl ExtentHeader {
    /// Decode the header from the first bytes of an inline area.
    pub fn parse(b: &Vec<u8>) -> (res: Result<ExtentHeader, Error>)
        ensures
            res == spec_extent_header(b@),
    {
        let n = b.len();
        if n < 2 {
            return Err(Error::Io);
        }
        let magic = get_u16(b, 0);
        if magic != EXTENT_MAGIC {
            return Err(Error::Format(FormatError::BadExtentMagic));
        }
        if n < 8 {
            return Err(Error::Io);
        }
        let entries = get_u16(b, 2);
        let depth = get_u16(b, 6);
        if depth != 0 {
            return Err(Error::Format(FormatError::UnsupportedExtentDepth));
        }
        Ok(ExtentHeader { magic, entries, depth })
    }
}

impl Extent {
    /// Decode the `i`-th extent record of an inline area.
    pub fn parse(b: &Vec<u8>, i: u16) -> (res: Result<Extent, Error>)
        ensures
            res == spec_extent_at(b@, i as int),
    {
        let n = b.len();
        let off: usize = 12 * (i as usize + 1);
        if n < off + 6 {
            return Err(Error::Io);
        }
        let elen = get_u16(b, off + 4);
        if elen != 1 {
            return Err(Error::Format(FormatError::UnsupportedExtentLength));
        }
        if n < off + 12 {
            return Err(Error::Io);
        }
        let hi = get_u16(b, off + 6);
        let lo = get_u32(b, off + 8);
        Ok(Extent { len: elen, start: lo as u64 + (hi as u64) * 0x1_0000_0000 })
    }
}

/// Resolve 0-indexed logical block `i` of an inline extent tree to its
/// physical byte range.
pub fn resolve_block(root: &Vec<u8>, i: u16, block_size: u64) -> (res: Result<(u64, u64), Error>)
    ensures
        res == spec_resolve_block(root@, i as int, block_size),
{
    let h = ExtentHeader::parse(root)?;
    if i >= h.entries {
        return Err(Error::Io);
    }
    let ext = Extent::parse(root, i)?;
    let lo = match ext.start.checked_mul(block_size) {
        Some(v) => v,
        None => {
            return Err(Error::Io);
        },
    };
    let hi = match lo.checked_add(block_size) {
        Some(v) => v,
        None => {
            return Err(Error::Io);
        },
    };
    Ok((lo, hi))
}

} // verus!
