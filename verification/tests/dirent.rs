use fs_syscall::dirent::{DirEntry, DIR_ENTRY_SIZE};

#[test]
fn entry_number_comes_from_offset() {
    let entry = DirEntry { offset: 512, name: [7; 256] };
    assert!(entry.check());
    assert_eq!(entry.entry_id(), 2);
    let entry = DirEntry { offset: 513, name: [7; 256] };
    assert!(!entry.check());
    assert_eq!(entry.entry_id(), 2);
}

#[test]
fn set_name_moves_to_the_next_entry() {
    let mut entry = DirEntry { offset: 512, name: [7; 256] };
    entry.set_name("ab");
    assert!(entry.check());
    assert_eq!(entry.entry_id(), 3);
    assert_eq!(entry.offset, 768);
    assert_eq!(&entry.name[..4], &[b'a', b'b', 0, 7]);
    assert!(entry.name[3..].iter().all(|b| *b == 7));
}

#[test]
fn set_name_takes_the_longest_name() {
    let mut entry = DirEntry { offset: 0, name: [7; 256] };
    let name = "x".repeat(255);
    entry.set_name(&name);
    assert_eq!(&entry.name[..255], name.as_bytes());
    assert_eq!(entry.name[255], 0);
}

#[test]
fn set_name_stores_utf8() {
    let mut entry = DirEntry { offset: 0, name: [0; 256] };
    entry.set_name("é");
    assert_eq!(&entry.name[..3], &[0xc3, 0xa9, 0]);
}

#[test]
fn record_starts_with_the_offset() {
    let mut name = [0u8; 256];
    name[0] = 9;
    name[255] = 8;
    let bytes = DirEntry { offset: 0x01020300, name }.to_bytes();
    assert_eq!(bytes.len(), DIR_ENTRY_SIZE);
    assert_eq!(&bytes[..5], &[0x00, 0x03, 0x02, 0x01, 9]);
    assert_eq!(bytes[259], 8);
    let back = DirEntry::from_bytes(&bytes);
    assert_eq!(back.offset, 0x01020300);
    assert_eq!(back.name, name);
}
