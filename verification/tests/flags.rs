use fs_syscall::{OpenFlags, OpenOptions};

#[test]
fn access_mode_decides_what_is_allowed() {
    let cases = [(0, true, false), (1, false, true), (2, true, true), (3, false, false)];
    for (bits, read, write) in cases {
        let flags = OpenFlags::from_bits_truncate(bits);
        assert_eq!(flags.readable(), read);
        assert_eq!(flags.writable(), write);
        assert_eq!(flags.to_options(), OpenOptions { read, write, append: false });
    }
}

#[test]
fn append_reaches_the_options() {
    let flags = OpenFlags::from_bits_truncate(OpenFlags::WRONLY | OpenFlags::APPEND);
    assert_eq!(flags.to_options(), OpenOptions { read: false, write: true, append: true });
}

#[test]
fn unknown_bits_are_dropped() {
    assert_eq!(OpenFlags::from_bits_truncate(usize::MAX).bits, 0x6c3);
    assert_eq!(OpenFlags::from_bits_truncate(0x100 | 0x40).bits, 0x40);
    assert_eq!(OpenFlags::ALL, 1 | 2 | 64 | 128 | 512 | 1024);
}

#[test]
fn truncation_keeps_every_flag() {
    let raw = 0xffff_f000usize | OpenFlags::CREATE | OpenFlags::TRUNCATE | OpenFlags::RDWR;
    let flags = OpenFlags::from_bits_truncate(raw);
    assert!(flags.contains(OpenFlags::CREATE));
    assert!(flags.contains(OpenFlags::TRUNCATE));
    assert!(!flags.contains(OpenFlags::EXCLUSIVE));
    assert!(!flags.contains(OpenFlags::APPEND));
    assert!(!flags.contains(OpenFlags::CREATE | OpenFlags::EXCLUSIVE));
    assert!(flags.contains(OpenFlags::RDONLY));
}
