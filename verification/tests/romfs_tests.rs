use citrii::codec::ByteStructImpl;
use citrii::romfs::{get_romfs_file, DirectoryMetadata, FileMetadata, Header};

#[test]
fn struct_size_test() {
    assert_eq!(Header::byte_len(), 0x28);
    assert_eq!(DirectoryMetadata::byte_len(), 0x18);
    assert_eq!(FileMetadata::byte_len(), 0x20);
}

fn put32(buf: &mut Vec<u8>, v: u32) {
    buf.extend_from_slice(&v.to_le_bytes());
}

fn put64(buf: &mut Vec<u8>, v: u64) {
    buf.extend_from_slice(&v.to_le_bytes());
}

/// A one-directory, one-file filesystem image: the root directory at 0x28,
/// the file table at 0x40, the data region at 0x62.
fn tiny_romfs() -> Vec<u8> {
    let invalid = 0xFFFFFFFFu32;
    let mut buf = Vec::new();
    // header
    put32(&mut buf, 0x28); // header_length
    put32(&mut buf, 0); // dir_hash_table_offset
    put32(&mut buf, 0); // dir_hash_table_length
    put32(&mut buf, 0x28); // dir_table_offset
    put32(&mut buf, 0x18); // dir_table_length
    put32(&mut buf, 0); // file_hash_table_offset
    put32(&mut buf, 0); // file_hash_table_length
    put32(&mut buf, 0x40); // file_table_offset
    put32(&mut buf, 0x22); // file_table_length
    put32(&mut buf, 0x62); // data_offset
    assert_eq!(buf.len(), 0x28);
    // root directory
    put32(&mut buf, invalid); // parent
    put32(&mut buf, invalid); // next
    put32(&mut buf, invalid); // first child
    put32(&mut buf, 0); // first file
    put32(&mut buf, invalid); // same-hash next
    put32(&mut buf, 0); // name length
    assert_eq!(buf.len(), 0x40);
    // the file entry, named "A"
    put32(&mut buf, invalid); // parent
    put32(&mut buf, invalid); // next file
    put64(&mut buf, 0); // data offset
    put64(&mut buf, 3); // data length
    put32(&mut buf, invalid); // same-hash next
    put32(&mut buf, 2); // name length in bytes
    buf.extend_from_slice(&[b'A', 0]); // UTF-16LE name
    assert_eq!(buf.len(), 0x62);
    // the data region
    buf.extend_from_slice(&[10, 20, 30]);
    buf
}

#[test]
fn finds_a_root_file() {
    let romfs = tiny_romfs();
    let data = get_romfs_file(&romfs, &["A".to_string()]);
    assert_eq!(data, Some(&[10u8, 20, 30][..]));
}

#[test]
fn misses_an_absent_file() {
    let romfs = tiny_romfs();
    assert_eq!(get_romfs_file(&romfs, &["B".to_string()]), None);
    assert_eq!(
        get_romfs_file(&romfs, &["dir".to_string(), "A".to_string()]),
        None
    );
}

/// A filesystem with a root file "A", and a directory "D" holding "B".
fn nested_romfs() -> Vec<u8> {
    let invalid = 0xFFFFFFFFu32;
    let mut buf = Vec::new();
    // header
    put32(&mut buf, 0x28);
    put32(&mut buf, 0);
    put32(&mut buf, 0);
    put32(&mut buf, 0x28); // dir_table_offset
    put32(&mut buf, 0x32);
    put32(&mut buf, 0);
    put32(&mut buf, 0);
    put32(&mut buf, 0x5A); // file_table_offset
    put32(&mut buf, 0x44);
    put32(&mut buf, 0x9E); // data_offset
    assert_eq!(buf.len(), 0x28);
    // root directory, child chain starts at table offset 0x18
    put32(&mut buf, invalid);
    put32(&mut buf, invalid);
    put32(&mut buf, 0x18); // first child: D
    put32(&mut buf, 0); // first file: A
    put32(&mut buf, invalid);
    put32(&mut buf, 0);
    // directory D, named, holding file B
    put32(&mut buf, 0);
    put32(&mut buf, invalid);
    put32(&mut buf, invalid);
    put32(&mut buf, 0x22); // first file: B
    put32(&mut buf, invalid);
    put32(&mut buf, 2); // name length
    buf.extend_from_slice(&[b'D', 0]);
    assert_eq!(buf.len(), 0x5A);
    // file A: three data bytes at data offset zero
    put32(&mut buf, invalid);
    put32(&mut buf, invalid);
    put64(&mut buf, 0);
    put64(&mut buf, 3);
    put32(&mut buf, invalid);
    put32(&mut buf, 2);
    buf.extend_from_slice(&[b'A', 0]);
    // file B: two data bytes at data offset three
    put32(&mut buf, invalid);
    put32(&mut buf, invalid);
    put64(&mut buf, 3);
    put64(&mut buf, 2);
    put32(&mut buf, invalid);
    put32(&mut buf, 2);
    buf.extend_from_slice(&[b'B', 0]);
    assert_eq!(buf.len(), 0x9E);
    // the data region
    buf.extend_from_slice(&[10, 20, 30, 7, 7]);
    buf
}

#[test]
fn walks_directories() {
    let romfs = nested_romfs();
    assert_eq!(
        get_romfs_file(&romfs, &["A".to_string()]),
        Some(&[10u8, 20, 30][..])
    );
    assert_eq!(
        get_romfs_file(&romfs, &["D".to_string(), "B".to_string()]),
        Some(&[7u8, 7][..])
    );
    assert_eq!(
        get_romfs_file(&romfs, &["D".to_string(), "A".to_string()]),
        None
    );
    assert_eq!(get_romfs_file(&romfs, &["D".to_string()]), None);
}
