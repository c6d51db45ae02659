use vstd::prelude::*;

pub mod dir;
pub mod extent;
pub mod group;
pub mod inode;
pub mod path;
pub mod reader;
pub mod superblock;
pub mod volume;

verus! {

/// Malformed or unsupported on-disk format data, found while decoding.
#[derive(Clone, Copy, Debug, PartialEq, Eq, Structural)]
pub enum FormatError {
    /// The superblock signature does not match.
    BadSuperblockMagic,
    /// The block size is 1024 (a geometry with a different descriptor
    /// table layout) or too large to represent.
    UnsupportedBlockSize,
    /// A group size of zero inodes makes inode addressing meaningless.
    ZeroInodesPerGroup,
    /// The inline area does not carry the extent-tree signature, so the
    /// inode is not extent-mapped.
    BadExtentMagic,
    /// The extent tree has index levels; only leaf lists are supported.
    UnsupportedExtentDepth,
    /// An extent covers more than one block; only single-block runs are
    /// supported.
    UnsupportedExtentLength,
    /// The mode's file-type tag is outside the known set.
    UnknownFileType,
}

/// Every failure a decode or lookup can surface.
#[derive(Clone, Copy, Debug, PartialEq, Eq, Structural)]
pub enum Error {
    /// Malformed or unsupported format data.
    Format(FormatError),
    /// A read past the end of the byte source.
    Io,
    /// A path component absent from its directory.
    NotFound,
    /// Path traversal expected a directory and found something else.
    NotADirectory,
}

} // verus!
