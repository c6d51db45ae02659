use vstd::prelude::*;

use crate::dir::{
    lemma_dir_entries_nonzero, lemma_lookup_found, lookup_entry, parse_dir_block, spec_dir_entries,
    spec_lookup, DirEntry, SpecDirEntry,
};
use crate::extent::{spec_extent_header, spec_resolve_block, resolve_block, ExtentHeader};
use crate::group::{BlockGroupNumber, InodeNumber};
use crate::inode::{spec_inode_at, FileType, Inode, SpecInode};
use crate::path::{components_of, split_path};
use crate::reader::Reader;
use crate::superblock::{lemma_superblock_wf, spec_superblock, Superblock};
use crate::Error;

verus! {

/// The fixed inode number of the root directory.
pub const ROOT_INODE: u64 = 2;

/// Decode of the inode record numbered `n` (1-based): its group's
/// descriptor gives the inode table block, and the record sits at
/// table * block_size + ((n - 1) % inodes_per_group) * inode_size.
pub open spec fn spec_inode(d: Seq<u8>, sb: Superblock, n: int) -> Result<SpecInode, Error> {
    let g = BlockGroupNumber(((n - 1) / (sb.inodes_per_group as int)) as u64);
    match g.spec_desc(sb, d) {
        Err(e) => Err(e),
        Ok(desc) => {
            let idx = (n - 1) % (sb.inodes_per_group as int);
            spec_inode_at(d, desc.inode_table * sb.block_size + idx * sb.inode_size)
        },
    }
}

/// The bytes of logical block `i` of an extent-mapped object: its
/// physical byte range, cut out of the volume image.
pub open spec fn spec_block_bytes(d: Seq<u8>, sb: Superblock, root: Seq<u8>, i: int) -> Result<
    Seq<u8>,
    Error,
> {
    match spec_resolve_block(root, i, sb.block_size) {
        Err(e) => Err(e),
        Ok(range) => if range.1 <= d.len() {
            Ok(d.subrange(range.0 as int, range.1 as int))
        } else {
            Err(Error::Io)
        },
    }
}

/// Directory records of logical blocks `i` up to `entries`, in block
/// order.
pub open spec fn spec_dir_blocks(d: Seq<u8>, sb: Superblock, root: Seq<u8>, i: int, entries: int)
    -> Result<Seq<SpecDirEntry>, Error>
    decreases entries - i,
{
    if i >= entries {
        Ok(Seq::empty())
    } else {
        match spec_block_bytes(d, sb, root, i) {
            Err(e) => Err(e),
            Ok(block) => match spec_dir_blocks(d, sb, root, i + 1, entries) {
                Err(e) => Err(e),
                Ok(rest) => Ok(spec_dir_entries(block) + rest),
            },
        }
    }
}

/// The full listing of a directory: every record of every data block the
/// inline extent tree maps, one leaf extent per data block.
pub open spec fn spec_read_dir(d: Seq<u8>, sb: Superblock, root: Seq<u8>) -> Result<
    Seq<SpecDirEntry>,
    Error,
> {
    match spec_extent_header(root) {
        Err(e) => Err(e),
        Ok(h) => spec_dir_blocks(d, sb, root, 0, h.entries as int),
    }
}

/// An opened volume: the byte image and the superblock decoded once from
/// it; all later lookups recompute from these.
pub struct Volume {
    pub reader: Reader,
    pub superblock: Superblock,
}

impl View for Volume {
    type V = Seq<u8>;

    open spec fn view(&self) -> Seq<u8> {
        self.reader@
    }
}

impl Volume {
    /// The held superblock is the one the image decodes to.
    pub open spec fn wf(self) -> bool {
        spec_superblock(self@) == Ok::<Superblock, Error>(self.superblock)
    }

    /// Open a volume image: decode its superblock and hold it.
    pub fn new(image: Vec<u8>) -> (res: Result<Volume, Error>)
        ensures
            match spec_superblock(image@) {
                Ok(sb) => res matches Ok(v) && v@ == image@ && v.superblock == sb && v.wf(),
                Err(e) => res == Err::<Volume, Error>(e),
            },
    {
        let reader = Reader::new(image);
        let superblock = match Superblock::new(&reader) {
            Ok(sb) => sb,
            Err(e) => {
                return Err(e);
            },
        };
        Ok(Volume { reader, superblock })
    }

    /// Decode inode number `n`: find its group descriptor, then the
    /// record in that group's inode table.
    pub fn inode(&self, n: InodeNumber) -> (res: Result<Inode, Error>)
        requires
            self.wf(),
            n.0 >= 1,
        ensures
            match spec_inode(self@, self.superblock, n.0 as int) {
                Ok(si) => res matches Ok(i) && i@ == si,
                Err(e) => res == Err::<Inode, Error>(e),
            },
    {
        proof {
            lemma_superblock_wf(self@);
        }
        // binds the image length, so overflowing offsets are known unreadable
        let image_len = self.reader.len();
        let g = n.blockgroup_number(&self.superblock);
        let desc = match g.desc(&self.superblock, &self.reader) {
            Ok(d) => d,
            Err(e) => {
                return Err(e);
            },
        };
        let idx = n.index_in_group(&self.superblock);
        let table_off = match desc.inode_table.checked_mul(self.superblock.block_size) {
            Some(v) => v,
            None => {
                return Err(Error::Io);
            },
        };
        let rec_off = match idx.checked_mul(self.superblock.inode_size) {
            Some(v) => v,
            None => {
                return Err(Error::Io);
            },
        };
        let off = match table_off.checked_add(rec_off) {
            Some(v) => v,
            None => {
                return Err(Error::Io);
            },
        };
        Inode::decode(&self.reader, off)
    }
}

/// Every entry a directory listing yields names a real inode: 0 only
/// ever terminates a block's scan.
pub proof fn lemma_dir_blocks_nonzero(
    d: Seq<u8>,
    sb: Superblock,
    root: Seq<u8>,
    i: int,
    entries: int,
)
    ensures
        spec_dir_blocks(d, sb, root, i, entries) matches Ok(es) ==> forall|k: int|
            0 <= k < es.len() ==> (#[trigger] es[k]).inode != 0,
    decreases entries - i,
{
    if i >= entries {
    } else {
        if spec_block_bytes(d, sb, root, i) is Ok {
            let block = spec_block_bytes(d, sb, root, i)->Ok_0;
            lemma_dir_entries_nonzero(block, 0);
            lemma_dir_blocks_nonzero(d, sb, root, i + 1, entries);
            if spec_dir_blocks(d, sb, root, i + 1, entries) is Ok {
                let rest = spec_dir_blocks(d, sb, root, i + 1, entries)->Ok_0;
                let es = spec_dir_entries(block) + rest;
                assert forall|k: int| 0 <= k < es.len() implies (#[trigger] es[k]).inode != 0 by {
                    if k < spec_dir_entries(block).len() {
                        assert(es[k] == spec_dir_entries(block)[k]);
                    } else {
                        assert(es[k] == rest[k - spec_dir_entries(block).len()]);
                    }
                }
            }
        }
    }
}

/// Lookup of `name` among the children of a directory inode: anything
/// but a directory is a type error, a missing name is NotFound.
pub open spec fn spec_lookup_child(d: Seq<u8>, sb: Superblock, ino: SpecInode, name: Seq<u8>)
    -> Result<u64, Error> {
    if ino.ftype != FileType::Directory {
        Err(Error::NotADirectory)
    } else {
        match spec_read_dir(d, sb, ino.root) {
            Err(e) => Err(e),
            Ok(es) => match spec_lookup(es, name) {
                None => Err(Error::NotFound),
                Some(c) => Ok(c as u64),
            },
        }
    }
}

/// Resolution of the remaining components from inode `cur` on: decode
/// the inode, require a directory, look the component up, recurse.
pub open spec fn spec_resolve_from(d: Seq<u8>, sb: Superblock, cur: u64, comps: Seq<Seq<u8>>)
    -> Result<u64, Error>
    decreases comps.len(),
{
    if comps.len() == 0 {
        Ok(cur)
    } else {
        match spec_inode(d, sb, cur as int) {
            Err(e) => Err(e),
            Ok(si) => match spec_lookup_child(d, sb, si, comps[0]) {
                Err(e) => Err(e),
                Ok(child) => spec_resolve_from(d, sb, child, comps.drop_first()),
            },
        }
    }
}

/// Resolution of a '/'-delimited path, starting at the root directory.
pub open spec fn spec_resolve_path(d: Seq<u8>, sb: Superblock, p: Seq<u8>) -> Result<u64, Error> {
    spec_resolve_from(d, sb, ROOT_INODE, components_of(p))
}

/// File data blocks `i` up to `entries`, concatenated in logical order.
pub open spec fn spec_file_blocks(d: Seq<u8>, sb: Superblock, root: Seq<u8>, i: int, entries: int)
    -> Result<Seq<u8>, Error>
    decreases entries - i,
{
    if i >= entries {
        Ok(Seq::empty())
    } else {
        match spec_block_bytes(d, sb, root, i) {
            Err(e) => Err(e),
            Ok(block) => match spec_file_blocks(d, sb, root, i + 1, entries) {
                Err(e) => Err(e),
                Ok(rest) => Ok(block + rest),
            },
        }
    }
}

/// The data of an extent-mapped file: its blocks in logical order,
/// truncated to the inode's size where the size is smaller.
pub open spec fn spec_read_file(d: Seq<u8>, sb: Superblock, ino: SpecInode) -> Result<
    Seq<u8>,
    Error,
> {
    match spec_extent_header(ino.root) {
        Err(e) => Err(e),
        Ok(h) => match spec_file_blocks(d, sb, ino.root, 0, h.entries as int) {
            Err(e) => Err(e),
            Ok(bytes) => Ok(
                if ino.size < bytes.len() {
                    bytes.take(ino.size as int)
                } else {
                    bytes
                },
            ),
        },
    }
}

impl Volume {
    /// Enumerate a directory inode's entries across all its data blocks.
    pub fn read_dir(&self, ino: &Inode) -> (res: Result<Vec<DirEntry>, Error>)
        requires
            self.wf(),
        ensures
            match spec_read_dir(self@, self.superblock, ino@.root) {
                Ok(es) => res matches Ok(v) && v@.map_values(|e: DirEntry| e@) == es,
                Err(e) => res == Err::<Vec<DirEntry>, Error>(e),
            },
    {
        let h = match ExtentHeader::parse(&ino.extent_root) {
            Ok(h) => h,
            Err(e) => {
                return Err(e);
            },
        };
        let mut out: Vec<DirEntry> = Vec::new();
        let mut i: u16 = 0;
        proof {
            assert(out@.map_values(|e: DirEntry| e@) =~= Seq::<SpecDirEntry>::empty());
        }
        while i < h.entries
            invariant
                self.wf(),
                spec_extent_header(ino@.root) == Ok::<ExtentHeader, Error>(h),
                i <= h.entries,
                ({
                    match spec_dir_blocks(
                        self@,
                        self.superblock,
                        ino@.root,
                        i as int,
                        h.entries as int,
                    ) {
                        Ok(rest) => spec_dir_blocks(
                            self@,
                            self.superblock,
                            ino@.root,
                            0,
                            h.entries as int,
                        ) == Ok::<Seq<SpecDirEntry>, Error>(
                            out@.map_values(|e: DirEntry| e@) + rest,
                        ),
                        Err(e) => spec_dir_blocks(
                            self@,
                            self.superblock,
                            ino@.root,
                            0,
                            h.entries as int,
                        ) == Err::<Seq<SpecDirEntry>, Error>(e),
                    }
                }),
            decreases h.entries - i,
        {
            proof {
                lemma_superblock_wf(self@);
            }
            let range = match resolve_block(&ino.extent_root, i, self.superblock.block_size) {
                Ok(r) => r,
                Err(e) => {
                    return Err(e);
                },
            };
            let len_usize = (range.1 - range.0) as usize;
            let block = match self.reader.read_bytes(range.0, len_usize) {
                Ok(b) => b,
                Err(e) => {
                    return Err(e);
                },
            };
            let mut es = parse_dir_block(&block);
            let ghost prev = out@.map_values(|e: DirEntry| e@);
            let ghost parsed = es@.map_values(|e: DirEntry| e@);
            out.append(&mut es);
            proof {
                assert(out@.map_values(|e: DirEntry| e@) =~= prev + parsed);
                if spec_dir_blocks(self@, self.superblock, ino@.root, i + 1, h.entries as int)
                    is Ok {
                    let rest = spec_dir_blocks(
                        self@,
                        self.superblock,
                        ino@.root,
                        i + 1,
                        h.entries as int,
                    )->Ok_0;
                    assert((prev + parsed) + rest =~= prev + (parsed + rest));
                }
            }
            i = i + 1;
        }
        proof {
            assert(out@.map_values(|e: DirEntry| e@) + Seq::<SpecDirEntry>::empty()
                =~= out@.map_values(|e: DirEntry| e@));
        }
        Ok(out)
    }

    /// Find the child named `name` within a directory inode, by a linear
    /// scan of its entries in block order.
    pub fn lookup_child(&self, dir: &Inode, name: &Vec<u8>) -> (res: Result<InodeNumber, Error>)
        requires
            self.wf(),
        ensures
            match spec_lookup_child(self@, self.superblock, dir@, name@) {
                Ok(c) => res == Ok::<InodeNumber, Error>(InodeNumber(c)) && c >= 1,
                Err(e) => res == Err::<InodeNumber, Error>(e),
            },
    {
        if !matches!(dir.ftype, FileType::Directory) {
            return Err(Error::NotADirectory);
        }
        let entries = match self.read_dir(dir) {
            Ok(v) => v,
            Err(e) => {
                return Err(e);
            },
        };
        match lookup_entry(&entries, name) {
            None => Err(Error::NotFound),
            Some(c) => {
                proof {
                    let es = spec_read_dir(self@, self.superblock, dir@.root)->Ok_0;
                    let h = spec_extent_header(dir@.root)->Ok_0;
                    lemma_dir_blocks_nonzero(
                        self@,
                        self.superblock,
                        dir@.root,
                        0,
                        h.entries as int,
                    );
                    lemma_lookup_found(es, name@);
                    let k = choose|k: int|
                        0 <= k < es.len() && (#[trigger] es[k]).inode == c && es[k].name == name@;
                    assert(es[k].inode != 0);
                }
                Ok(InodeNumber(c as u64))
            },
        }
    }

    /// Resolve a '/'-delimited path from the root directory to an inode
    /// number.
    #[verifier::rlimit(50)]
    pub fn resolve_path(&self, p: &Vec<u8>) -> (res: Result<InodeNumber, Error>)
        requires
            self.wf(),
        ensures
            match spec_resolve_path(self@, self.superblock, p@) {
                Ok(x) => res == Ok::<InodeNumber, Error>(InodeNumber(x)) && x >= 1,
                Err(e) => res == Err::<InodeNumber, Error>(e),
            },
    {
        let comps = split_path(p);
        let ghost cl = comps@.map_values(|c: Vec<u8>| c@);
        let m = comps.len();
        let mut cur = InodeNumber(ROOT_INODE);
        let mut j: usize = 0;
        proof {
            assert(cl.skip(0) =~= cl);
        }
        while j < m
            invariant
                self.wf(),
                j <= m,
                m == comps@.len(),
                cl == comps@.map_values(|c: Vec<u8>| c@),
                cl == components_of(p@),
                cur.0 >= 1,
                spec_resolve_from(self@, self.superblock, ROOT_INODE, cl) == spec_resolve_from(
                    self@,
                    self.superblock,
                    cur.0,
                    cl.skip(j as int),
                ),
            decreases m - j,
        {
            proof {
                assert(cl.skip(j as int).len() == m - j);
                assert(cl.skip(j as int)[0] == cl[j as int]);
                assert(cl[j as int] == comps@[j as int]@);
            }
            let ino = match self.inode(cur) {
                Ok(i) => i,
                Err(e) => {
                    proof {
                        assert(spec_resolve_from(self@, self.superblock, cur.0, cl.skip(j as int))
                            == Err::<u64, Error>(e));
                    }
                    return Err(e);
                },
            };
            let child = match self.lookup_child(&ino, &comps[j]) {
                Ok(c) => c,
                Err(e) => {
                    proof {
                        assert(spec_resolve_from(self@, self.superblock, cur.0, cl.skip(j as int))
                            == Err::<u64, Error>(e));
                    }
                    return Err(e);
                },
            };
            proof {
                assert(cl.skip(j as int).drop_first() =~= cl.skip(j + 1));
            }
            cur = child;
            j = j + 1;
        }
        proof {
            assert(cl.skip(m as int) =~= Seq::<Seq<u8>>::empty());
        }
        Ok(cur)
    }

    /// Read the data of an extent-mapped file inode: every mapped block,
    /// truncated to the inode's size.
    pub fn read_file(&self, ino: &Inode) -> (res: Result<Vec<u8>, Error>)
        requires
            self.wf(),
        ensures
            match spec_read_file(self@, self.superblock, ino@) {
                Ok(bytes) => res matches Ok(v) && v@ == bytes,
                Err(e) => res == Err::<Vec<u8>, Error>(e),
            },
    {
        let h = match ExtentHeader::parse(&ino.extent_root) {
            Ok(h) => h,
            Err(e) => {
                return Err(e);
            },
        };
        let mut out: Vec<u8> = Vec::new();
        let mut i: u16 = 0;
        proof {
            assert(out@ =~= Seq::<u8>::empty());
        }
        while i < h.entries
            invariant
                self.wf(),
                spec_extent_header(ino@.root) == Ok::<ExtentHeader, Error>(h),
                i <= h.entries,
                ({
                    match spec_file_blocks(
                        self@,
                        self.superblock,
                        ino@.root,
                        i as int,
                        h.entries as int,
                    ) {
                        Ok(rest) => spec_file_blocks(
                            self@,
                            self.superblock,
                            ino@.root,
                            0,
                            h.entries as int,
                        ) == Ok::<Seq<u8>, Error>(out@ + rest),
                        Err(e) => spec_file_blocks(
                            self@,
                            self.superblock,
                            ino@.root,
                            0,
                            h.entries as int,
                        ) == Err::<Seq<u8>, Error>(e),
                    }
                }),
            decreases h.entries - i,
        {
            proof {
                lemma_superblock_wf(self@);
            }
            let range = match resolve_block(&ino.extent_root, i, self.superblock.block_size) {
                Ok(r) => r,
                Err(e) => {
                    return Err(e);
                },
            };
            let len_usize = (range.1 - range.0) as usize;
            let mut block = match self.reader.read_bytes(range.0, len_usize) {
                Ok(b) => b,
                Err(e) => {
                    return Err(e);
                },
            };
            let ghost prev = out@;
            let ghost bl = block@;
            out.append(&mut block);
            proof {
                if spec_file_blocks(self@, self.superblock, ino@.root, i + 1, h.entries as int)
                    is Ok {
                    let rest = spec_file_blocks(
                        self@,
                        self.superblock,
                        ino@.root,
                        i + 1,
                        h.entries as int,
                    )->Ok_0;
                    assert((prev + bl) + rest =~= prev + (bl + rest));
                }
            }
            i = i + 1;
        }
        proof {
            assert(out@ + Seq::<u8>::empty() =~= out@);
        }
        let total = out.len();
        if ino.size < total as u64 {
            let ghost whole = out@;
            out.truncate(ino.size as usize);
            proof {
                assert(out@ =~= whole.take(ino.size as int));
            }
        }
        Ok(out)
    }
}

} // verus!
