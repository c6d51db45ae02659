use vstd::prelude::*;

use crate::reader::{get_u16, get_u32, le16_at, le32_at};

verus! {

/// One directory entry: the inode it names, the record length used only
/// to advance the scan, and the raw name bytes.
#[derive(Debug)]
pub struct DirEntry {
    pub inode: u32,
    pub rec_len: u16,
    pub name: Vec<u8>,
}

/// The mathematical image of a directory entry.
pub struct SpecDirEntry {
    pub inode: u32,
    pub rec_len: u16,
    pub name: Seq<u8>,
}

impl View for DirEntry {
    type V = SpecDirEntry;

    open spec fn view(&self) -> SpecDirEntry {
        SpecDirEntry { inode: self.inode, rec_len: self.rec_len, name: self.name@ }
    }
}

/// The records of a directory block from offset `off` on: each record
/// holds inode u32 at 0x0, record length u16 at 0x4, name length u8 at
/// 0x6 and that many name bytes at 0x8. The scan stops when the block's
/// byte range is exhausted (a fixed header or a name that would overrun
/// it), when a record's inode is 0 (the terminator convention), or when a
/// record length of 0 cannot advance it.
pub open spec fn spec_dir_entries_from(b: Seq<u8>, off: int) -> Seq<SpecDirEntry>
    decreases b.len() - off,
{
    if off + 8 > b.len() {
        Seq::empty()
    } else {
        let ino = le32_at(b, off);
        if ino == 0 {
            Seq::empty()
        } else {
            let rl = le16_at(b, off + 4) as int;
            let nl = b[off + 6] as int;
            if off + 8 + nl > b.len() {
                Seq::empty()
            } else {
                let e = SpecDirEntry {
                    inode: ino,
                    rec_len: le16_at(b, off + 4),
                    name: b.subrange(off + 8, off + 8 + nl),
                };
                if rl == 0 || off + rl + 8 > b.len() {
                    seq![e]
                } else {
                    seq![e] + spec_dir_entries_from(b, off + rl)
                }
            }
        }
    }
}

/// All the records of a directory block.
pub open spec fn spec_dir_entries(b: Seq<u8>) -> Seq<SpecDirEntry> {
    spec_dir_entries_from(b, 0)
}

/// Enumerate the records of one directory data block.
pub fn parse_dir_block(b: &Vec<u8>) -> (r: Vec<DirEntry>)
    ensures
        r@.map_values(|e: DirEntry| e@) == spec_dir_entries(b@),
{
    let n = b.len();
    let mut out: Vec<DirEntry> = Vec::new();
    let mut off: usize = 0;
    proof {
        assert(out@.map_values(|e: DirEntry| e@) =~= Seq::<SpecDirEntry>::empty());
    }
    loop
        invariant_except_break
            spec_dir_entries(b@) == out@.map_values(|e: DirEntry| e@) + spec_dir_entries_from(
                b@,
                off as int,
            ),
        invariant
            n == b@.len(),
            off <= n,
        ensures
            spec_dir_entries(b@) == out@.map_values(|e: DirEntry| e@),
        decreases n - off,
    {
        if n < 8 || off > n - 8 {
            proof {
                assert(spec_dir_entries_from(b@, off as int) =~= Seq::<SpecDirEntry>::empty());
                assert(out@.map_values(|e: DirEntry| e@) + Seq::<SpecDirEntry>::empty()
                    =~= out@.map_values(|e: DirEntry| e@));
            }
            break;
        }
        let ino = get_u32(b, off);
        if ino == 0 {
            proof {
                assert(spec_dir_entries_from(b@, off as int) =~= Seq::<SpecDirEntry>::empty());
                assert(out@.map_values(|e: DirEntry| e@) + Seq::<SpecDirEntry>::empty()
                    =~= out@.map_values(|e: DirEntry| e@));
            }
            break;
        }
        let rl = get_u16(b, off + 4);
        let nl = b[off + 6] as usize;
        if nl > n - 8 - off {
            proof {
                assert(spec_dir_entries_from(b@, off as int) =~= Seq::<SpecDirEntry>::empty());
                assert(out@.map_values(|e: DirEntry| e@) + Seq::<SpecDirEntry>::empty()
                    =~= out@.map_values(|e: DirEntry| e@));
            }
            break;
        }
        let mut name: Vec<u8> = Vec::new();
        let mut j: usize = 0;
        proof {
            assert(name@ =~= b@.subrange(off + 8, off + 8 + 0));
        }
        while j < nl
            invariant
                j <= nl,
                off + 8 + nl <= n,
                n == b@.len(),
                name@ == b@.subrange(off + 8, off + 8 + j),
            decreases nl - j,
        {
            name.push(b[off + 8 + j]);
            j = j + 1;
            proof {
                assert(name@ =~= b@.subrange(off + 8, off + 8 + j));
            }
        }
        let ghost prev = out@.map_values(|e: DirEntry| e@);
        let e = DirEntry { inode: ino, rec_len: rl, name };
        let ghost se = e@;
        out.push(e);
        proof {
            assert(out@.map_values(|ee: DirEntry| ee@) =~= prev + seq![se]);
        }
        if rl == 0 {
            proof {
                assert(spec_dir_entries_from(b@, off as int) =~= seq![se]);
            }
            break;
        }
        if rl as usize > n - 8 - off {
            proof {
                assert(spec_dir_entries_from(b@, off as int) =~= seq![se]);
            }
            break;
        }
        proof {
            assert(spec_dir_entries_from(b@, off as int) =~= seq![se] + spec_dir_entries_from(
                b@,
                off + rl,
            ));
            assert((prev + seq![se]) + spec_dir_entries_from(b@, off + rl) =~= prev + (seq![se]
                + spec_dir_entries_from(b@, off + rl)));
        }
        off = off + rl as usize;
    }
    out
}

/// A block whose first record carries inode 0 holds no entries at all.
pub proof fn lemma_dir_terminator_first(b: Seq<u8>)
    requires
        b.len() >= 8,
        le32_at(b, 0) == 0,
    ensures
        spec_dir_entries(b) == Seq::<SpecDirEntry>::empty(),
{
}

/// No enumeration overruns its block: every record's inode field and name
/// bytes lie within the block's byte range, the name as a contiguous
/// subrange starting 8 bytes into its record.
pub proof fn lemma_dir_entries_in_block(b: Seq<u8>, off: int)
    requires
        0 <= off,
    ensures
        forall|k: int|
            0 <= k < spec_dir_entries_from(b, off).len() ==> exists|p: int|
                {
                    &&& off <= p
                    &&& p + 8 + (#[trigger] spec_dir_entries_from(b, off)[k]).name.len() <= b.len()
                    &&& spec_dir_entries_from(b, off)[k].inode == le32_at(b, p)
                    &&& spec_dir_entries_from(b, off)[k].name == b.subrange(
                        p + 8,
                        p + 8 + spec_dir_entries_from(b, off)[k].name.len() as int,
                    )
                },
    decreases b.len() - off,
{
    let s = spec_dir_entries_from(b, off);
    if off + 8 > b.len() {
    } else {
        let ino = le32_at(b, off);
        if ino == 0 {
        } else {
            let rl = le16_at(b, off + 4) as int;
            let nl = b[off + 6] as int;
            if off + 8 + nl > b.len() {
            } else {
                assert forall|k: int| 0 <= k < s.len() implies exists|p: int|
                    {
                        &&& off <= p
                        &&& p + 8 + (#[trigger] s[k]).name.len() <= b.len()
                        &&& s[k].inode == le32_at(b, p)
                        &&& s[k].name == b.subrange(p + 8, p + 8 + s[k].name.len() as int)
                    } by {
                    if k == 0 {
                        let p = off;
                        assert(s[0].name == b.subrange(off + 8, off + 8 + nl));
                        assert(off <= p && p + 8 + s[0].name.len() <= b.len() && s[0].inode
                            == le32_at(b, p) && s[0].name == b.subrange(
                            p + 8,
                            p + 8 + s[0].name.len() as int,
                        ));
                    } else {
                        assert(!(rl == 0 || off + rl + 8 > b.len()));
                        lemma_dir_entries_in_block(b, off + rl);
                        let rest = spec_dir_entries_from(b, off + rl);
                        assert(s[k] == rest[k - 1]);
                        let p = choose|p: int|
                            {
                                &&& off + rl <= p
                                &&& p + 8 + (#[trigger] rest[k - 1]).name.len() <= b.len()
                                &&& rest[k - 1].inode == le32_at(b, p)
                                &&& rest[k - 1].name == b.subrange(
                                    p + 8,
                                    p + 8 + rest[k - 1].name.len() as int,
                                )
                            };
                        assert(off <= p && p + 8 + s[k].name.len() <= b.len() && s[k].inode
                            == le32_at(b, p) && s[k].name == b.subrange(
                            p + 8,
                            p + 8 + s[k].name.len() as int,
                        ));
                    }
                }
            }
        }
    }
}

/// Every enumerated entry names a real inode: the 0 inode only ever
/// terminates a listing.
pub proof fn lemma_dir_entries_nonzero(b: Seq<u8>, off: int)
    ensures
        forall|k: int|
            0 <= k < spec_dir_entries_from(b, off).len() ==> (#[trigger] spec_dir_entries_from(
                b,
                off,
            )[k]).inode != 0,
    decreases b.len() - off,
{
    let s = spec_dir_entries_from(b, off);
    if off + 8 > b.len() {
    } else {
        let ino = le32_at(b, off);
        if ino != 0 {
            let rl = le16_at(b, off + 4) as int;
            let nl = b[off + 6] as int;
            if off + 8 + nl <= b.len() {
                if !(rl == 0 || off + rl + 8 > b.len()) {
                    lemma_dir_entries_nonzero(b, off + rl);
                    let rest = spec_dir_entries_from(b, off + rl);
                    assert forall|k: int| 0 <= k < s.len() implies (#[trigger] s[k]).inode != 0 by {
                        if k > 0 {
                            assert(s[k] == rest[k - 1]);
                        }
                    }
                }
            }
        }
    }
}

/// The first entry of `entries` whose name equals `name`, by a linear
/// scan in block order; None when no entry matches.
pub open spec fn spec_lookup(entries: Seq<SpecDirEntry>, name: Seq<u8>) -> Option<u32>
    decreases entries.len(),
{
    if entries.len() == 0 {
        None
    } else if entries[0].name == name {
        Some(entries[0].inode)
    } else {
        spec_lookup(entries.drop_first(), name)
    }
}

/// A found lookup names some matching entry of the listing.
pub proof fn lemma_lookup_found(entries: Seq<SpecDirEntry>, name: Seq<u8>)
    ensures
        spec_lookup(entries, name) matches Some(x) ==> exists|k: int|
            0 <= k < entries.len() && (#[trigger] entries[k]).inode == x && entries[k].name
                == name,
    decreases entries.len(),
{
    if entries.len() == 0 {
    } else if entries[0].name == name {
        assert(entries[0].inode == spec_lookup(entries, name)->Some_0);
    } else {
        lemma_lookup_found(entries.drop_first(), name);
        if spec_lookup(entries, name) is Some {
            let x = spec_lookup(entries, name)->Some_0;
            let k = choose|k: int|
                0 <= k < entries.drop_first().len() && (#[trigger] entries.drop_first()[k]).inode
                    == x && entries.drop_first()[k].name == name;
            assert(entries[k + 1].inode == x && entries[k + 1].name == name);
        }
    }
}

/// Byte-for-byte equality of two byte vectors.
pub fn bytes_eq(a: &Vec<u8>, b: &Vec<u8>) -> (r: bool)
    ensures
        r == (a@ == b@),
{
    let n = a.len();
    if n != b.len() {
        return false;
    }
    let mut j: usize = 0;
    while j < n
        invariant
            j <= n,
            n == a@.len(),
            n == b@.len(),
            forall|t: int| 0 <= t < j ==> a@[t] == b@[t],
        decreases n - j,
    {
        if a[j] != b[j] {
            return false;
        }
        j = j + 1;
    }
    proof {
        assert(a@ =~= b@);
    }
    true
}

/// Scan a listing for the first entry named `name`.
pub fn lookup_entry(entries: &Vec<DirEntry>, name: &Vec<u8>) -> (r: Option<u32>)
    ensures
        r == spec_lookup(entries@.map_values(|e: DirEntry| e@), name@),
{
    let ghost all = entries@.map_values(|e: DirEntry| e@);
    let n = entries.len();
    let mut j: usize = 0;
    proof {
        assert(all.skip(0) =~= all);
    }
    while j < n
        invariant
            j <= n,
            n == entries@.len(),
            all == entries@.map_values(|e: DirEntry| e@),
            spec_lookup(all, name@) == spec_lookup(all.skip(j as int), name@),
        decreases n - j,
    {
        proof {
            assert(all.skip(j as int)[0] == all[j as int]);
        }
        let e = &entries[j];
        if bytes_eq(&e.name, name) {
            return Some(e.inode);
        }
        proof {
            assert(all.skip(j as int).drop_first() =~= all.skip(j + 1));
        }
        j = j + 1;
    }
    proof {
        assert(all.skip(n as int) =~= Seq::<SpecDirEntry>::empty());
    }
    None
}

} // verus!
