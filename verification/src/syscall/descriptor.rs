//! `close` and `dup2`.

use vstd::prelude::*;
use vstd::std_specs::btree::*;

use crate::error::{SysError, SysResult};
use crate::process::{get_file, Process};

verus! {

/// Closes `fd`.
pub fn sys_close<N>(proc: &mut Process<N>, fd: usize) -> (ret: SysResult)
    ensures
        ret == if old(proc).files@.contains_key(fd) {
            Ok::<isize, SysError>(0)
        } else {
            Err(SysError::Inval)
        },
        final(proc).files@ == old(proc).files@.remove(fd),
        final(proc).memory_set == old(proc).memory_set,
{
    broadcast use group_btree_axioms;

    match proc.files.remove(&fd) {
        Some(_) => Ok(0),
        None => Err(SysError::Inval),
    }
}

/// Makes `fd2`, which must not be open, another handle of the file `fd1`.
pub fn sys_dup2<N: Clone>(proc: &mut Process<N>, fd1: usize, fd2: usize) -> (ret: SysResult)
    ensures
        ret == if old(proc).files@.contains_key(fd1) && !old(proc).files@.contains_key(fd2) {
            Ok::<isize, SysError>(0)
        } else {
            Err(SysError::Inval)
        },
        ret is Err ==> final(proc).files@ == old(proc).files@,
        ret is Ok ==> {
            let copy = final(proc).files@[fd2];
            &&& final(proc).files@ == old(proc).files@.insert(fd2, copy)
            &&& cloned(old(proc).files@[fd1].inode, copy.inode)
            &&& copy.options == old(proc).files@[fd1].options
            &&& copy.offset == old(proc).files@[fd1].offset
        },
        final(proc).memory_set == old(proc).memory_set,
{
    broadcast use group_btree_axioms;

    let ghost before = proc.files@;
    if proc.has_file(fd2) {
        return Err(SysError::Inval);
    }
    let file = match get_file(proc, fd1) {
        Ok(handle) => handle.clone(),
        Err(e) => return Err(e),
    };
    assert(proc.files@ =~= before);
    proc.files.insert(fd2, file);
    Ok(0)
}

/// `close` succeeds exactly on an open file, which is open no more; every other file and the memory
/// are as they were.
pub proof fn law_close<N>(proc: &mut Process<N>, fd: usize, ret: SysResult, other: usize)
    requires
        call_ensures(sys_close::<N>, (proc, fd), ret),
    ensures
        old(proc).files@.contains_key(fd) ==> ret == Ok::<isize, SysError>(0),
        !old(proc).files@.contains_key(fd) ==> ret == Err::<isize, SysError>(SysError::Inval),
        !final(proc).files@.contains_key(fd),
        other != fd ==> (final(proc).files@.contains_key(other) <==> old(
            proc,
        ).files@.contains_key(other)),
        other != fd && old(proc).files@.contains_key(other) ==> final(proc).files@[other] == old(
            proc,
        ).files@[other],
        final(proc).memory_set == old(proc).memory_set,
{
}

/// `dup2` succeeds exactly where the first descriptor is open and the second is not; the second is
/// then a copy of the first. Every other file and the memory are as they were.
pub proof fn law_dup2<N: Clone>(
    proc: &mut Process<N>,
    fd1: usize,
    fd2: usize,
    ret: SysResult,
    other: usize,
)
    requires
        call_ensures(sys_dup2::<N>, (proc, fd1, fd2), ret),
    ensures
        old(proc).files@.contains_key(fd1) && !old(proc).files@.contains_key(fd2) ==> {
            &&& ret == Ok::<isize, SysError>(0)
            &&& final(proc).files@.contains_key(fd2)
            &&& cloned(old(proc).files@[fd1].inode, final(proc).files@[fd2].inode)
            &&& final(proc).files@[fd2].options == old(proc).files@[fd1].options
            &&& final(proc).files@[fd2].offset == old(proc).files@[fd1].offset
        },
        !(old(proc).files@.contains_key(fd1) && !old(proc).files@.contains_key(fd2)) ==> ret == Err::<
            isize,
            SysError,
        >(SysError::Inval),
        other != fd2 || ret is Err ==> (final(proc).files@.contains_key(other) <==> old(
            proc,
        ).files@.contains_key(other)),
        (other != fd2 || ret is Err) && old(proc).files@.contains_key(other)
            ==> final(proc).files@[other] == old(proc).files@[other],
        final(proc).memory_set == old(proc).memory_set,
{
}

} // verus!
