use vstd::prelude::*;

use crate::reader::{combine64, fits, le16_at, le32_at, Reader};
use crate::Error;
use crate::FormatError;

verus! {

/// Length of the inline area holding the root of an inode's extent tree.
pub const EXTENT_ROOT_LEN: u64 = 60;

/// The closed set of file-type tags carried in an inode's mode field.
#[derive(Clone, Copy, Debug, PartialEq, Eq, Structural)]
pub enum FileType {
    Fifo,
    CharacterDevice,
    Directory,
    BlockDevice,
    Regular,
    SymbolicLink,
    Socket,
}

/// Classification of a mode: its top four bits against the known tags;
/// any other value is invalid.
pub open spec fn spec_file_type(mode: u16) -> Option<FileType> {
    let tag = mode & 0xF000;
    if tag == 0x1000 {
        Some(FileType::Fifo)
    } else if tag == 0x2000 {
        Some(FileType::CharacterDevice)
    } else if tag == 0x4000 {
        Some(FileType::Directory)
    } else if tag == 0x6000 {
        Some(FileType::BlockDevice)
    } else if tag == 0x8000 {
        Some(FileType::Regular)
    } else if tag == 0xA000 {
        Some(FileType::SymbolicLink)
    } else if tag == 0xC000 {
        Some(FileType::Socket)
    } else {
        None
    }
}

/// Classify an inode mode's file-type tag.
pub fn file_type_of_mode(mode: u16) -> (r: Option<FileType>)
    ensures
        r == spec_file_type(mode),
{
    let tag = mode & 0xF000;
    if tag == 0x1000 {
        Some(FileType::Fifo)
    } else if tag == 0x2000 {
        Some(FileType::CharacterDevice)
    } else if tag == 0x4000 {
        Some(FileType::Directory)
    } else if tag == 0x6000 {
        Some(FileType::BlockDevice)
    } else if tag == 0x8000 {
        Some(FileType::Regular)
    } else if tag == 0xA000 {
        Some(FileType::SymbolicLink)
    } else if tag == 0xC000 {
        Some(FileType::Socket)
    } else {
        None
    }
}

/// An inode's decoded metadata: its file type, its 64-bit size (a lo/hi
/// split field), and the 60-byte inline area holding its extent-tree
/// root.
pub struct Inode {
    pub ftype: FileType,
    pub size: u64,
    pub extent_root: Vec<u8>,
}

/// The mathematical image of a decoded inode.
pub struct SpecInode {
    pub ftype: FileType,
    pub size: u64,
    pub root: Seq<u8>,
}

impl View for Inode {
    type V = SpecInode;

    open spec fn view(&self) -> SpecInode {
        SpecInode { ftype: self.ftype, size: self.size, root: self.extent_root@ }
    }
}

/// Decode of the fixed inode record at absolute offset `off`: mode u16 at
/// 0x0, size as the lo/hi pair at 0x4 and 0x6C, and the 60-byte inline
/// extent-tree root at 0x28. An unrecognized file-type tag is a fatal
/// decode error.
pub open spec fn spec_inode_at(d: Seq<u8>, off: int) -> Result<SpecInode, Error> {
    if !fits(d, off, 2) {
        Err(Error::Io)
    } else if !(fits(d, off + 0x4, 4) && fits(d, off + 0x6C, 4)) {
        Err(Error::Io)
    } else if !fits(d, off + 0x28, EXTENT_ROOT_LEN as int) {
        Err(Error::Io)
    } else {
        match spec_file_type(le16_at(d, off)) {
            None => Err(Error::Format(FormatError::UnknownFileType)),
            Some(ft) => Ok(
                SpecInode {
                    ftype: ft,
                    size: combine64(le32_at(d, off + 0x4), le32_at(d, off + 0x6C)),
                    root: d.subrange(off + 0x28, off + 0x28 + EXTENT_ROOT_LEN as int),
                },
            ),
        }
    }
}

impl Inode {
    /// Decode the inode record at absolute offset `offset` of the volume
    /// image.
    pub fn decode(r: &Reader, offset: u64) -> (res: Result<Inode, Error>)
        ensures
            match spec_inode_at(r@, offset as int) {
                Ok(si) => res matches Ok(i) && i@ == si,
                Err(e) => res == Err::<Inode, Error>(e),
            },
    {
        let n = r.len();
        let mode = r.u16(offset)?;
        let lo_off = match offset.checked_add(0x4) {
            Some(v) => v,
            None => {
                return Err(Error::Io);
            },
        };
        let hi_off = match offset.checked_add(0x6C) {
            Some(v) => v,
            None => {
                return Err(Error::Io);
            },
        };
        let size = r.u64_lohi(lo_off, hi_off)?;
        let root_off = match offset.checked_add(0x28) {
            Some(v) => v,
            None => {
                return Err(Error::Io);
            },
        };
        let root = match r.read_bytes(root_off, 60) {
            Ok(v) => v,
            Err(e) => {
                return Err(e);
            },
        };
        match file_type_of_mode(mode) {
            None => Err(Error::Format(FormatError::UnknownFileType)),
            Some(ft) => Ok(Inode { ftype: ft, size, extent_root: root }),
        }
    }
}

} // verus!
