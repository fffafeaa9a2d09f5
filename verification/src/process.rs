//! A process as the file system calls see it: its memory and its open files.

use std::collections::BTreeMap;

use vstd::prelude::*;
use vstd::std_specs::btree::*;

use crate::error::SysError;
use crate::memory::MemorySet;
use crate::vfs::FileHandle;

verus! {

/// The first file descriptor that `open` hands out; those below belong to the standard
/// streams.
pub const FIRST_FD: usize = 3;

/// The memory and the open files of a process.
pub struct Process<N> {
    pub memory_set: MemorySet,
    pub files: BTreeMap<usize, FileHandle<N>>,
}

/// `fd` is the lowest descriptor for a new file.
pub open spec fn lowest_free<N>(files: Map<usize, FileHandle<N>>, fd: usize) -> bool {
    &&& FIRST_FD <= fd
    &&& !files.contains_key(fd)
    &&& forall|other: usize| FIRST_FD <= other < fd ==> files.contains_key(other)
}

/// Some descriptor is left for a new file.
pub open spec fn has_free<N>(files: Map<usize, FileHandle<N>>) -> bool {
    exists|fd: usize| FIRST_FD <= fd && !files.contains_key(fd)
}

impl<N> Process<N> {
    /// The memory is one that a process can have.
    pub open spec fn wf(self) -> bool {
        self.memory_set.wf()
    }

    /// A process without open files.
    pub fn new(memory_set: MemorySet) -> (proc: Self)
        requires
            memory_set.wf(),
        ensures
            proc.wf(),
            proc.memory_set == memory_set,
            proc.files@ == Map::<usize, FileHandle<N>>::empty(),
    {
        Process { memory_set, files: BTreeMap::new() }
    }

    /// Whether `fd` is an open file.
    pub fn has_file(&self, fd: usize) -> (open: bool)
        ensures
            open == self.files@.contains_key(fd),
    {
        broadcast use group_btree_axioms;

        self.files.contains_key(&fd)
    }

    /// The lowest descriptor for a new file, if one is left.
    pub fn free_fd(&self) -> (free: Option<usize>)
        ensures
            match free {
                Some(fd) => lowest_free(self.files@, fd),
                None => !has_free(self.files@),
            },
    {
        let mut fd: usize = FIRST_FD;
        while self.has_file(fd)
            invariant
                FIRST_FD <= fd,
                forall|other: usize| FIRST_FD <= other < fd ==> self.files@.contains_key(other),
            decreases usize::MAX - fd,
        {
            if fd == usize::MAX {
                return None;
            }
            fd = fd + 1;
        }
        Some(fd)
    }
}

/// The open file `fd`, for use and change.
pub fn get_file<N>(proc: &mut Process<N>, fd: usize) -> (file: Result<&mut FileHandle<N>, SysError>)
    ensures
        final(proc).memory_set == old(proc).memory_set,
        match file {
            Ok(handle) => {
                &&& old(proc).files@.contains_key(fd)
                &&& *handle == old(proc).files@[fd]
                &&& final(proc).files@ == old(proc).files@.insert(fd, *final(handle))
            },
            Err(e) => {
                &&& !old(proc).files@.contains_key(fd)
                &&& e == SysError::Inval
                &&& final(proc).files@ == old(proc).files@
            },
        },
{
    match entry_mut(&mut proc.files, fd) {
        Some(handle) => Ok(handle),
        None => Err(SysError::Inval),
    }
}

/// The value at `key`, by `BTreeMap::get_mut`. Trusted: the call finds the value exactly where
/// the map has the key, and what is written through the reference is the value there
/// afterwards, with every other entry as it was.
#[verifier::external_body]
fn entry_mut<V>(map: &mut BTreeMap<usize, V>, key: usize) -> (value: Option<&mut V>)
    ensures
        match value {
            Some(v) => {
                &&& old(map)@.contains_key(key)
                &&& *v == old(map)@[key]
                &&& final(map)@ == old(map)@.insert(key, *final(v))
            },
            None => {
                &&& !old(map)@.contains_key(key)
                &&& final(map)@ == old(map)@
            },
        },
{
    map.get_mut(&key)
}

/// Only one descriptor is the lowest free one, and it is none of the standard streams.
pub proof fn law_lowest_free_unique<N>(files: Map<usize, FileHandle<N>>, a: usize, b: usize)
    requires
        lowest_free(files, a),
        lowest_free(files, b),
    ensures
        a == b,
        FIRST_FD <= a,
{
}

/// Where a descriptor is free, there is a lowest one.
pub proof fn law_lowest_free_exists<N>(files: Map<usize, FileHandle<N>>)
    requires
        has_free(files),
    ensures
        exists|fd: usize| lowest_free(files, fd),
{
    let fd = choose|fd: usize| FIRST_FD <= fd && !files.contains_key(fd);
    lemma_lowest_free_below(files, fd);
}

proof fn lemma_lowest_free_below<N>(files: Map<usize, FileHandle<N>>, fd: usize)
    requires
        FIRST_FD <= fd,
        !files.contains_key(fd),
    ensures
        exists|low: usize| lowest_free(files, low),
    decreases fd,
{
    if exists|other: usize| FIRST_FD <= other < fd && !files.contains_key(other) {
        let other = choose|other: usize| FIRST_FD <= other < fd && !files.contains_key(other);
        lemma_lowest_free_below(files, other);
    } else {
        assert(lowest_free(files, fd));
    }
}

/// A descriptor below the lowest free one, once closed, is the next to be handed out.
pub proof fn law_closed_is_next<N>(files: Map<usize, FileHandle<N>>, free: usize, closed: usize)
    requires
        lowest_free(files, free),
        FIRST_FD <= closed < free,
    ensures
        lowest_free(files.remove(closed), closed),
{
}

/// Closing a descriptor that was free before it was given a file restores the table.
pub proof fn law_close_undoes<N>(files: Map<usize, FileHandle<N>>, fd: usize, file: FileHandle<N>)
    requires
        !files.contains_key(fd),
    ensures
        files.insert(fd, file).contains_key(fd),
        files.insert(fd, file).remove(fd) == files,
{
    assert(files.insert(fd, file).remove(fd) =~= files);
}

/// Giving a free descriptor a file leaves every file that was open as it was.
pub proof fn law_others_stay<N>(
    files: Map<usize, FileHandle<N>>,
    fd: usize,
    file: FileHandle<N>,
    other: usize,
)
    requires
        !files.contains_key(fd),
        files.contains_key(other),
    ensures
        files.insert(fd, file).contains_key(other),
        files.insert(fd, file)[other] == files[other],
{
}

/// The descriptor for a new file is none of the standard streams and not in use, and no free one is
/// lower; where there is none, all are in use.
pub proof fn law_free_fd<N>(proc: &Process<N>, free: Option<usize>, other: usize)
    requires
        call_ensures(Process::<N>::free_fd, (proc,), free),
    ensures
        free matches Some(fd) ==> {
            &&& fd >= 3
            &&& !proc.files@.contains_key(fd)
            &&& other >= 3 && !proc.files@.contains_key(other) ==> fd <= other
        },
        free is None && other >= 3 ==> proc.files@.contains_key(other),
{
}

/// `get_file` gives the handle of an open file, and no other file changes through it; `has_file`
/// says where it does.
pub proof fn law_get_file<N>(
    proc: &mut Process<N>,
    fd: usize,
    file: Result<&mut FileHandle<N>, SysError>,
    open: bool,
    other: usize,
)
    requires
        call_ensures(get_file::<N>, (proc, fd), file),
        call_ensures(Process::<N>::has_file, (&*old(proc), fd), open),
    ensures
        open <==> old(proc).files@.contains_key(fd),
        file is Ok <==> open,
        file matches Ok(handle) ==> *handle == old(proc).files@[fd],
        file matches Err(e) ==> e == SysError::Inval,
        other != fd || file is Err ==> (final(proc).files@.contains_key(other) <==> old(
            proc,
        ).files@.contains_key(other)),
        (other != fd || file is Err) && old(proc).files@.contains_key(other)
            ==> final(proc).files@[other] == old(proc).files@[other],
        final(proc).memory_set == old(proc).memory_set,
{
}

} // verus!
