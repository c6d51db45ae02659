use ext4_reader::dir::{lookup_entry, parse_dir_block, DirEntry};
use ext4_reader::extent::{resolve_block, ExtentHeader};
use ext4_reader::group::InodeNumber;
use ext4_reader::inode::FileType;
use ext4_reader::path::split_path;
use ext4_reader::reader::Reader;
use ext4_reader::superblock::Superblock;
use ext4_reader::volume::Volume;
use ext4_reader::{Error, FormatError};

fn put_u16(img: &mut Vec<u8>, off: usize, v: u16) {
    img[off] = (v & 0xFF) as u8;
    img[off + 1] = (v >> 8) as u8;
}

fn put_u32(img: &mut Vec<u8>, off: usize, v: u32) {
    img[off] = (v & 0xFF) as u8;
    img[off + 1] = ((v >> 8) & 0xFF) as u8;
    img[off + 2] = ((v >> 16) & 0xFF) as u8;
    img[off + 3] = ((v >> 24) & 0xFF) as u8;
}

/// A minimal image holding only a valid superblock: block_size 4096,
/// 8192 inodes per group, 256-byte inode records.
fn superblock_image() -> Vec<u8> {
    let mut img = vec![0u8; 2048];
    put_u16(&mut img, 1024 + 0x38, 0xEF53);
    put_u32(&mut img, 1024 + 0x18, 2);
    put_u32(&mut img, 1024 + 0x20, 32768);
    put_u32(&mut img, 1024 + 0x28, 8192);
    put_u16(&mut img, 1024 + 0x58, 256);
    img
}

fn write_dir_record(img: &mut Vec<u8>, off: usize, inode: u32, rec_len: u16, name: &[u8]) {
    put_u32(img, off, inode);
    put_u16(img, off + 4, rec_len);
    img[off + 6] = name.len() as u8;
    for (k, b) in name.iter().enumerate() {
        img[off + 8 + k] = *b;
    }
}

/// Write an inode record: its mode, size, and a leaf extent tree mapping
/// logical block 0 to `start_block`.
fn write_inode(img: &mut Vec<u8>, off: usize, mode: u16, size: u32, start_block: u32) {
    put_u16(img, off, mode);
    put_u32(img, off + 0x4, size);
    let root = off + 0x28;
    put_u16(img, root, 0xF30A);
    put_u16(img, root + 2, 1);
    put_u16(img, root + 6, 0);
    put_u16(img, root + 12 + 4, 1);
    put_u16(img, root + 12 + 6, 0);
    put_u32(img, root + 12 + 8, start_block);
}

/// The synthetic volume of the end-to-end scenario: a root directory
/// holding "etc" (inode 12), /etc holding "hosts" (inode 34), and inode
/// 34 a regular file whose block carries "127.0.0.1 localhost\n".
fn e2e_image() -> Vec<u8> {
    let mut img = vec![0u8; 14 * 4096];
    put_u16(&mut img, 1024 + 0x38, 0xEF53);
    put_u32(&mut img, 1024 + 0x18, 2);
    put_u32(&mut img, 1024 + 0x20, 32768);
    put_u32(&mut img, 1024 + 0x28, 8192);
    put_u16(&mut img, 1024 + 0x58, 256);
    // group 0 descriptor at block_size: inode table starts at block 4
    put_u32(&mut img, 4096 + 0x8, 4);
    put_u32(&mut img, 4096 + 0x28, 0);
    let table = 4 * 4096;
    // root directory, inode 2, data in block 10
    write_inode(&mut img, table + 1 * 256, 0x4000, 4096, 10);
    // /etc, inode 12, data in block 11
    write_inode(&mut img, table + 11 * 256, 0x4000, 4096, 11);
    // /etc/hosts, inode 34, 20 bytes of data in block 12
    write_inode(&mut img, table + 33 * 256, 0x8000, 20, 12);
    // root directory block: "etc" -> 12, then the terminator
    write_dir_record(&mut img, 10 * 4096, 12, 12, b"etc");
    put_u32(&mut img, 10 * 4096 + 12, 0);
    // /etc block: "hosts" -> 34, then the terminator
    write_dir_record(&mut img, 11 * 4096, 34, 16, b"hosts");
    put_u32(&mut img, 11 * 4096 + 16, 0);
    // file content
    let content = b"127.0.0.1 localhost\n";
    for (k, b) in content.iter().enumerate() {
        img[12 * 4096 + k] = *b;
    }
    img
}

#[test]
fn superblock_fixed_bytes_block_size() {
    let r = Reader::new(superblock_image());
    let sb = Superblock::new(&r).unwrap();
    assert_eq!(sb.magic, 0xEF53);
    assert_eq!(sb.block_size, 4096);
    assert_eq!(sb.blocks_per_group, 32768);
    assert_eq!(sb.inodes_per_group, 8192);
    assert_eq!(sb.inode_size, 256);
}

#[test]
fn superblock_decode_repeatable() {
    let r = Reader::new(superblock_image());
    let first = Superblock::new(&r).unwrap();
    let second = Superblock::new(&r).unwrap();
    assert_eq!(first, second);
}

#[test]
fn blockgroup_mapping() {
    let sb = Superblock {
        magic: 0xEF53,
        block_size: 4096,
        blocks_per_group: 32768,
        inodes_per_group: 8192,
        inode_size: 256,
    };
    assert_eq!(InodeNumber(2).blockgroup_number(&sb).0, 0);
    assert_eq!(InodeNumber(8192).blockgroup_number(&sb).0, 0);
    assert_eq!(InodeNumber(8193).blockgroup_number(&sb).0, 1);
}

fn leaf_root(entries: u16, depth: u16, ext_len: u16, start: u32) -> Vec<u8> {
    let mut root = vec![0u8; 60];
    put_u16(&mut root, 0, 0xF30A);
    put_u16(&mut root, 2, entries);
    put_u16(&mut root, 6, depth);
    put_u16(&mut root, 12 + 4, ext_len);
    put_u16(&mut root, 12 + 6, 0);
    put_u32(&mut root, 12 + 8, start);
    root
}

#[test]
fn extent_resolves_logical_block_zero() {
    let root = leaf_root(1, 0, 1, 100);
    let range = resolve_block(&root, 0, 4096).unwrap();
    assert_eq!(range, (409600, 413696));
}

#[test]
fn extent_header_fields() {
    let root = leaf_root(3, 0, 1, 100);
    let h = ExtentHeader::parse(&root).unwrap();
    assert_eq!(h.magic, 0xF30A);
    assert_eq!(h.entries, 3);
    assert_eq!(h.depth, 0);
}

#[test]
fn dir_block_terminator_empty() {
    let mut block = vec![0u8; 64];
    write_dir_record(&mut block, 0, 0, 12, b"xyz");
    let entries = parse_dir_block(&block);
    assert!(entries.is_empty());
}

#[test]
fn dir_block_packed_no_overrun() {
    // two records fill the block exactly; no terminator follows
    let mut block = vec![0u8; 24];
    write_dir_record(&mut block, 0, 7, 12, b"abc");
    write_dir_record(&mut block, 12, 9, 12, b"beta");
    let entries = parse_dir_block(&block);
    assert_eq!(entries.len(), 2);
    assert_eq!(entries[0].inode, 7);
    assert_eq!(entries[0].name, b"abc".to_vec());
    assert_eq!(entries[1].inode, 9);
    assert_eq!(entries[1].name, b"beta".to_vec());
}

#[test]
fn dir_record_name_overrunning_block_is_dropped() {
    // the record's name length runs past the block: nothing is yielded
    let mut block = vec![0u8; 12];
    write_dir_record(&mut block, 0, 7, 12, b"abc");
    block[6] = 50;
    let entries = parse_dir_block(&block);
    assert!(entries.is_empty());
}

#[test]
fn end_to_end_resolve_etc_hosts() {
    let vol = Volume::new(e2e_image()).unwrap();
    let n = vol.resolve_path(&b"/etc/hosts".to_vec()).unwrap();
    assert_eq!(n.0, 34);
    let ino = vol.inode(n).unwrap();
    assert_eq!(ino.ftype, FileType::Regular);
    assert_eq!(ino.size, 20);
    let data = vol.read_file(&ino).unwrap();
    assert_eq!(data, b"127.0.0.1 localhost\n".to_vec());
}

#[test]
fn read_dir_lists_root_entries() {
    let vol = Volume::new(e2e_image()).unwrap();
    let root = vol.inode(InodeNumber(2)).unwrap();
    assert_eq!(root.ftype, FileType::Directory);
    let entries = vol.read_dir(&root).unwrap();
    assert_eq!(entries.len(), 1);
    assert_eq!(entries[0].inode, 12);
    assert_eq!(entries[0].name, b"etc".to_vec());
}

#[test]
fn rejected_depth_one() {
    let root = leaf_root(1, 1, 1, 100);
    assert_eq!(
        resolve_block(&root, 0, 4096),
        Err(Error::Format(FormatError::UnsupportedExtentDepth))
    );
}

#[test]
fn rejected_extent_len_two() {
    let root = leaf_root(1, 0, 2, 100);
    assert_eq!(
        resolve_block(&root, 0, 4096),
        Err(Error::Format(FormatError::UnsupportedExtentLength))
    );
}

#[test]
fn rejected_non_extent_inode() {
    let mut root = leaf_root(1, 0, 1, 100);
    put_u16(&mut root, 0, 0x1234);
    assert_eq!(
        resolve_block(&root, 0, 4096),
        Err(Error::Format(FormatError::BadExtentMagic))
    );
}

#[test]
fn rejected_block_size_1024() {
    let mut img = superblock_image();
    put_u32(&mut img, 1024 + 0x18, 0);
    let r = Reader::new(img);
    assert_eq!(
        Superblock::new(&r),
        Err(Error::Format(FormatError::UnsupportedBlockSize))
    );
}

#[test]
fn rejected_bad_superblock_magic() {
    let mut img = superblock_image();
    put_u16(&mut img, 1024 + 0x38, 0xEF54);
    let r = Reader::new(img);
    assert_eq!(
        Superblock::new(&r),
        Err(Error::Format(FormatError::BadSuperblockMagic))
    );
}

#[test]
fn rejected_zero_inodes_per_group() {
    let mut img = superblock_image();
    put_u32(&mut img, 1024 + 0x28, 0);
    let r = Reader::new(img);
    assert_eq!(
        Superblock::new(&r),
        Err(Error::Format(FormatError::ZeroInodesPerGroup))
    );
}

#[test]
fn rejected_unknown_file_type() {
    let mut img = e2e_image();
    // clear the mode of inode 2
    put_u16(&mut img, 4 * 4096 + 256, 0x0000);
    let vol = Volume::new(img).unwrap();
    let r = vol.inode(InodeNumber(2));
    assert!(matches!(r, Err(Error::Format(FormatError::UnknownFileType))));
}

#[test]
fn not_found_component() {
    let vol = Volume::new(e2e_image()).unwrap();
    assert_eq!(vol.resolve_path(&b"/missing".to_vec()), Err(Error::NotFound));
    assert_eq!(vol.resolve_path(&b"/etc/shadow".to_vec()), Err(Error::NotFound));
}

#[test]
fn not_a_directory_traversal() {
    let vol = Volume::new(e2e_image()).unwrap();
    assert_eq!(
        vol.resolve_path(&b"/etc/hosts/deeper".to_vec()),
        Err(Error::NotADirectory)
    );
}

#[test]
fn root_path_resolves_to_root_inode() {
    let vol = Volume::new(e2e_image()).unwrap();
    assert_eq!(vol.resolve_path(&b"/".to_vec()).unwrap().0, 2);
}

#[test]
fn truncated_image_io_error() {
    let img = vec![0u8; 100];
    let r = Reader::new(img);
    assert_eq!(Superblock::new(&r), Err(Error::Io));
}

#[test]
fn reader_little_endian_order() {
    let r = Reader::new(vec![0x34, 0x12, 0x78, 0x56, 0xAB, 0x90]);
    assert_eq!(r.u16(0), Ok(0x1234));
    assert_eq!(r.u32(0), Ok(0x56781234));
    assert_eq!(r.u16(6), Err(Error::Io));
}

#[test]
fn reader_u64_lohi_combines_halves() {
    let mut img = vec![0u8; 16];
    put_u32(&mut img, 0, 0x11223344);
    put_u32(&mut img, 8, 0x55667788);
    let r = Reader::new(img);
    assert_eq!(r.u64_lohi(0, 8), Ok(0x55667788_11223344));
}

#[test]
fn split_path_drops_empty_components() {
    let comps = split_path(&b"/etc//hosts/".to_vec());
    assert_eq!(comps, vec![b"etc".to_vec(), b"hosts".to_vec()]);
    assert!(split_path(&b"///".to_vec()).is_empty());
}

#[test]
fn lookup_entry_first_match_wins() {
    let entries = vec![
        DirEntry { inode: 5, rec_len: 12, name: b"dup".to_vec() },
        DirEntry { inode: 8, rec_len: 12, name: b"dup".to_vec() },
    ];
    assert_eq!(lookup_entry(&entries, &b"dup".to_vec()), Some(5));
    assert_eq!(lookup_entry(&entries, &b"other".to_vec()), None);
}
