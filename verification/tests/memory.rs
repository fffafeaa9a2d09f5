use fs_syscall::MemorySet;

fn two_areas() -> MemorySet {
    let mut memory = MemorySet::new();
    assert!(memory.push(100, vec![1, 2, 3, 4], true));
    assert!(memory.push(104, vec![b'h', b'i', 0, 0xff], false));
    memory
}

#[test]
fn ranges_lie_in_one_area() {
    let memory = two_areas();
    assert!(memory.check_array(100, 4));
    assert!(memory.check_array(103, 1));
    assert!(!memory.check_array(103, 2));
    assert!(!memory.check_array(99, 1));
    assert!(!memory.check_array(108, 1));
    assert!(memory.check_array(108, 0));
    assert!(!memory.check_array(109, 0));
    assert!(!memory.check_array(0, 0));
    assert!(!memory.check_array(100, usize::MAX));
}

#[test]
fn only_writable_areas_may_be_written() {
    let memory = two_areas();
    assert!(memory.check_mut_array(100, 4));
    assert!(memory.check_array(104, 4));
    assert!(!memory.check_mut_array(104, 1));
    assert!(memory.check_mut_array(104, 0));
    assert!(!memory.check_mut_array(105, 0));
}

#[test]
fn what_is_written_is_read_back() {
    let mut memory = two_areas();
    memory.write(101, &[9, 8]);
    assert_eq!(memory.read(101, 2), vec![9, 8]);
    assert_eq!(memory.read(100, 4), vec![1, 9, 8, 4]);
    assert_eq!(memory.read(104, 2), vec![b'h', b'i']);
    assert_eq!(memory.read(104, 0), Vec::<u8>::new());
}

#[test]
fn areas_do_not_overlap() {
    let mut memory = two_areas();
    assert!(!memory.push(107, vec![0], true));
    assert!(!memory.push(96, vec![0; 5], true));
    assert!(!memory.push(0, vec![0; 200], true));
    assert!(!memory.push(usize::MAX, vec![0], true));
    assert!(memory.push(96, vec![5; 4], false));
    assert!(memory.push(usize::MAX - 1, vec![6], false));
    assert_eq!(memory.read(96, 4), vec![5; 4]);
    assert_eq!(memory.read(100, 4), vec![1, 2, 3, 4]);
}

#[test]
fn strings_end_at_a_zero_byte() {
    let memory = two_areas();
    assert_eq!(memory.check_and_clone_cstr(104), Some("hi".to_string()));
    assert_eq!(memory.check_and_clone_cstr(105), Some("i".to_string()));
    assert_eq!(memory.check_and_clone_cstr(106), Some(String::new()));
}

#[test]
fn strings_need_a_zero_byte_in_their_area() {
    let memory = two_areas();
    assert_eq!(memory.check_and_clone_cstr(100), None);
    assert_eq!(memory.check_and_clone_cstr(107), None);
    assert_eq!(memory.check_and_clone_cstr(108), None);
    assert_eq!(memory.check_and_clone_cstr(0), None);
}

#[test]
fn strings_are_utf8() {
    let mut memory = MemorySet::new();
    assert!(memory.push(10, vec![0xc3, 0xa9, 0], false));
    assert!(memory.push(20, vec![0xc3, 0x28, 0], false));
    assert_eq!(memory.check_and_clone_cstr(10), Some("é".to_string()));
    assert_eq!(memory.check_and_clone_cstr(11), None);
    assert_eq!(memory.check_and_clone_cstr(20), None);
}
