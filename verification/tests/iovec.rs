use fs_syscall::{IoVec, IoVecs, MemorySet, SysError};

fn descriptor(base: u64, len: u64) -> Vec<u8> {
    let mut bytes = base.to_le_bytes().to_vec();
    bytes.extend_from_slice(&len.to_le_bytes());
    bytes
}

fn memory(descriptors: &[(u64, u64)]) -> MemorySet {
    let mut memory = MemorySet::new();
    let mut table = Vec::new();
    for (base, len) in descriptors {
        table.extend(descriptor(*base, *len));
    }
    assert!(memory.push(1000, table, false));
    assert!(memory.push(100, vec![1, 2, 3, 4, 5, 6, 7, 8], true));
    assert!(memory.push(200, vec![b'r', b'o'], false));
    memory
}

#[test]
fn descriptors_are_decoded() {
    let mut bytes = vec![0xee];
    bytes.extend(descriptor(0x0102, 0x0304));
    assert_eq!(IoVec::from_bytes(&bytes, 1), IoVec { base: 0x0102, len: 0x0304 });
}

#[test]
fn requests_are_checked() {
    let vm = memory(&[(100, 3), (200, 2)]);
    let iovs = IoVecs::check_and_new(1000, 2, &vm, false).unwrap();
    assert_eq!(iovs.0, vec![IoVec { base: 100, len: 3 }, IoVec { base: 200, len: 2 }]);
    assert_eq!(IoVecs::check_and_new(1000, 2, &vm, true).err(), Some(SysError::Inval));
    assert_eq!(IoVecs::check_and_new(1000, 1, &vm, true).unwrap().0.len(), 1);
    assert_eq!(IoVecs::check_and_new(1000, 3, &vm, false).err(), Some(SysError::Inval));
    assert_eq!(IoVecs::check_and_new(999, 1, &vm, false).err(), Some(SysError::Inval));
    assert_eq!(IoVecs::check_and_new(1000, usize::MAX, &vm, false).err(), Some(SysError::Inval));
    assert_eq!(IoVecs::check_and_new(1000, 0, &vm, false).unwrap().0.len(), 0);
    assert_eq!(IoVecs::check_and_new(5, 0, &vm, false).err(), Some(SysError::Inval));
}

#[test]
fn buffers_outside_memory_are_refused() {
    let vm = memory(&[(100, 9)]);
    assert_eq!(IoVecs::check_and_new(1000, 1, &vm, false).err(), Some(SysError::Inval));
}

#[test]
fn new_buf_has_the_total_length() {
    let vm = memory(&[(100, 3), (104, 4)]);
    let iovs = IoVecs::check_and_new(1000, 2, &vm, true).unwrap();
    assert_eq!(iovs.total_len(), Some(7));
    assert_eq!(iovs.new_buf(true), vec![0; 7]);
    let empty = iovs.new_buf(false);
    assert!(empty.is_empty());
    assert!(empty.capacity() >= 7);
}

#[test]
fn totals_beyond_a_buffer_are_found() {
    let huge = IoVec { base: 0, len: isize::MAX as u64 };
    assert_eq!(IoVecs(vec![huge]).total_len(), Some(isize::MAX as usize));
    assert_eq!(IoVecs(vec![huge, IoVec { base: 0, len: 1 }]).total_len(), None);
    let vm = memory(&[(100, 3)]);
    assert!(IoVecs::fits(1000, 1, &vm, true));
    assert!(IoVecs::fits(0, 1, &vm, true));
}

#[test]
fn buffers_are_gathered_in_order() {
    let vm = memory(&[(200, 2), (100, 3), (102, 1)]);
    let iovs = IoVecs::check_and_new(1000, 3, &vm, false).unwrap();
    assert_eq!(iovs.read_all_to_vec(&vm), vec![b'r', b'o', 1, 2, 3, 3]);
}

#[test]
fn buffers_are_filled_in_order() {
    let mut vm = memory(&[(104, 2), (100, 0), (100, 3)]);
    let iovs = IoVecs::check_and_new(1000, 3, &vm, true).unwrap();
    iovs.write_all_from_slice(&mut vm, &[50, 51, 52, 53, 54, 55]);
    assert_eq!(vm.read(100, 8), vec![52, 53, 54, 4, 50, 51, 7, 8]);
    assert_eq!(iovs.read_all_to_vec(&vm), vec![50, 51, 52, 53, 54]);
}

#[test]
fn later_buffers_win_where_they_overlap() {
    let mut vm = memory(&[(100, 3), (101, 3)]);
    let iovs = IoVecs::check_and_new(1000, 2, &vm, true).unwrap();
    iovs.write_all_from_slice(&mut vm, &[11, 12, 13, 21, 22, 23]);
    assert_eq!(vm.read(100, 5), vec![11, 21, 22, 23, 5]);
}

#[test]
fn buffers_filled_with_what_they_hold_stay_as_they_are() {
    let mut vm = memory(&[(100, 3), (101, 4), (107, 1)]);
    let iovs = IoVecs::check_and_new(1000, 3, &vm, true).unwrap();
    let held = iovs.read_all_to_vec(&vm);
    assert_eq!(held, vec![1, 2, 3, 2, 3, 4, 5, 8]);
    iovs.write_all_from_slice(&mut vm, &held);
    assert_eq!(vm.read(100, 8), vec![1, 2, 3, 4, 5, 6, 7, 8]);
}
