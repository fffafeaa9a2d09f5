use fs_syscall::path::split;

fn parts(path: &str) -> (String, String) {
    split(path)
}

#[test]
fn paths_split_at_the_last_slash() {
    assert_eq!(parts("a/b"), ("a".to_string(), "b".to_string()));
    assert_eq!(parts("/usr/bin/env"), ("/usr/bin".to_string(), "env".to_string()));
    assert_eq!(parts("/f"), (String::new(), "f".to_string()));
    assert_eq!(parts("d/"), ("d".to_string(), String::new()));
    assert_eq!(parts("//"), ("/".to_string(), String::new()));
    assert_eq!(parts("é/ü"), ("é".to_string(), "ü".to_string()));
}

#[test]
fn paths_without_a_slash_are_in_the_root() {
    assert_eq!(parts("f"), (".".to_string(), "f".to_string()));
    assert_eq!(parts(""), (".".to_string(), String::new()));
}

#[test]
fn parts_make_up_the_path_again() {
    for path in ["a/b/c", "/", "x//y"] {
        let (dir, name) = parts(path);
        assert_eq!(format!("{}/{}", dir, name), path);
        assert!(!name.contains('/'));
    }
}
