//! Splitting a path into a directory and the name of an entry.

use vstd::prelude::*;

verus! {

/// `at` is the last slash of `path`.
pub open spec fn is_last_slash(path: Seq<char>, at: int) -> bool {
    &&& 0 <= at < path.len()
    &&& path[at] == '/'
    &&& !path.skip(at + 1).contains('/')
}

/// The directory part of `path`.
pub open spec fn dir_path(path: Seq<char>) -> Seq<char> {
    if path.contains('/') {
        path.take(choose|at: int| is_last_slash(path, at))
    } else {
        seq!['.']
    }
}

/// The name of the entry that `path` leads to.
pub open spec fn file_name(path: Seq<char>) -> Seq<char> {
    if path.contains('/') {
        path.skip((choose|at: int| is_last_slash(path, at)) + 1)
    } else {
        path
    }
}

/// A path has one last slash.
proof fn lemma_last_slash_unique(path: Seq<char>, a: int, b: int)
    requires
        is_last_slash(path, a),
        is_last_slash(path, b),
    ensures
        a == b,
{
    if a < b {
        assert(path.skip(a + 1)[b - a - 1] == '/');
    } else if b < a {
        assert(path.skip(b + 1)[a - b - 1] == '/');
    }
}

/// A path with a slash has a last one.
proof fn lemma_last_slash_exists(path: Seq<char>)
    requires
        path.contains('/'),
    ensures
        exists|at: int| is_last_slash(path, at),
    decreases path.len(),
{
    let rest = path.drop_last();
    if path.last() == '/' {
        assert(is_last_slash(path, path.len() - 1));
    } else {
        let i = choose|i: int| 0 <= i < path.len() && path[i] == '/';
        assert(rest[i] == '/');
        lemma_last_slash_exists(rest);
        let at = choose|at: int| is_last_slash(rest, at);
        let tail = path.skip(at + 1);
        let rest_tail = rest.skip(at + 1);
        assert forall|k: int| 0 <= k < tail.len() implies tail[k] != '/' by {
            if k < rest_tail.len() {
                assert(rest_tail[k] == tail[k]);
                assert(rest_tail.contains(rest_tail[k]));
            }
        }
        assert(is_last_slash(path, at));
    }
}

/// The parts of a path with a slash make up the path again with a slash between them, and the
/// name has no slash.
pub proof fn law_parts_make_path(path: Seq<char>)
    requires
        path.contains('/'),
    ensures
        dir_path(path) + seq!['/'] + file_name(path) == path,
        !file_name(path).contains('/'),
{
    lemma_last_slash_exists(path);
    let at = choose|at: int| is_last_slash(path, at);
    assert(dir_path(path) + seq!['/'] + file_name(path) =~= path);
}

/// Splits `path` at its last slash into the directory and the name of an entry in it. Without
/// a slash the directory is `.`.
pub fn split(path: &str) -> (parts: (String, String))
    ensures
        parts.0@ == dir_path(path@),
        parts.1@ == file_name(path@),
{
    let mut at: Option<usize> = None;
    let mut count: usize = 0;
    let len: usize = path.unicode_len();
    for c in it: path.chars()
        invariant
            it.seq() == path@,
            count == it.index(),
            len == path@.len(),
            match at {
                Some(i) => i < count && path@[i as int] == '/' && forall|k: int|
                    i < k < count ==> path@[k] != '/',
                None => forall|k: int| 0 <= k < count ==> path@[k] != '/',
            },
    {
        if c == '/' {
            at = Some(count);
        }
        count = count + 1;
    }
    match at {
        Some(i) => {
            proof {
                assert(is_last_slash(path@, i as int));
                lemma_last_slash_unique(
                    path@,
                    i as int,
                    choose|at: int| is_last_slash(path@, at),
                );
            }
            let dir = path.substring_char(0, i).to_owned();
            let name = path.substring_char(i + 1, len).to_owned();
            (dir, name)
        },
        None => {
            proof {
                reveal_strlit(".");
                assert("."@ =~= seq!['.']);
            }
            (".".to_owned(), path.to_owned())
        },
    }
}

/// What `split` gives makes up the path again with a slash between, and the name has no slash;
/// a path without a slash is an entry of the directory `.`.
pub proof fn law_split(path: &str, parts: (String, String))
    requires
        call_ensures(split, (path,), parts),
    ensures
        path@.contains('/') ==> parts.0@ + seq!['/'] + parts.1@ == path@,
        !path@.contains('/') ==> parts.0@ == seq!['.'] && parts.1@ == path@,
        !parts.1@.contains('/'),
{
    if path@.contains('/') {
        law_parts_make_path(path@);
    }
}

} // verus!
