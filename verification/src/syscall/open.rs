//! `open`.

use vstd::prelude::*;
use vstd::std_specs::btree::*;

use crate::error;
use crate::error::{FsError, SysError, SysResult};
use crate::flags;
use crate::flags::OpenFlags;
use crate::path;
use crate::process;
use crate::process::Process;
use crate::vfs::{FileHandle, FileType};

verus! {

/// An `open` that waits for the file system to hand out an inode.
pub enum OpenCall<N> {
    /// Look up the directory `dir_path` from the root, for the entry `file_name` in it.
    LookupDir { dir_path: String, file_name: String, flags: OpenFlags, mode: u32 },
    /// Find the entry `file_name` in the directory `dir`.
    Find { dir: N, file_name: String, flags: OpenFlags, mode: u32 },
    /// Create the entry `file_name` in the directory `dir`.
    Create { dir: N, file_name: String, type_: FileType, mode: u32, flags: OpenFlags },
    /// Look up `path` from the root.
    Lookup { path: String, flags: OpenFlags },
    /// Set the length of the file `inode` to 0, and hand it back.
    Truncate { inode: N, flags: OpenFlags },
    /// Take the standard input.
    Stdin { flags: OpenFlags },
    /// Take the standard output.
    Stdout { flags: OpenFlags },
}

/// What an `open` waits for, with its texts as sequences of characters.
pub enum OpenRequest<N> {
    LookupDir { dir_path: Seq<char>, file_name: Seq<char>, flags: OpenFlags, mode: u32 },
    Find { dir: N, file_name: Seq<char>, flags: OpenFlags, mode: u32 },
    Create { dir: N, file_name: Seq<char>, type_: FileType, mode: u32, flags: OpenFlags },
    Lookup { path: Seq<char>, flags: OpenFlags },
    Truncate { inode: N, flags: OpenFlags },
    Stdin { flags: OpenFlags },
    Stdout { flags: OpenFlags },
}

/// How far an `open` has got.
pub enum OpenProgress<N> {
    /// The file system is asked again.
    Ask(OpenCall<N>),
    /// The file is there, and this is its handle.
    Ready(FileHandle<N>),
}

/// How far an `open` has got, with its texts as sequences of characters.
pub enum OpenStep<N> {
    Ask(OpenRequest<N>),
    Ready(FileHandle<N>),
}

impl<N> View for OpenCall<N> {
    type V = OpenRequest<N>;

    open spec fn view(&self) -> OpenRequest<N> {
        match *self {
            OpenCall::LookupDir { dir_path, file_name, flags, mode } => OpenRequest::LookupDir {
                dir_path: dir_path@,
                file_name: file_name@,
                flags,
                mode,
            },
            OpenCall::Find { dir, file_name, flags, mode } => OpenRequest::Find {
                dir,
                file_name: file_name@,
                flags,
                mode,
            },
            OpenCall::Create { dir, file_name, type_, mode, flags } => OpenRequest::Create {
                dir,
                file_name: file_name@,
                type_,
                mode,
                flags,
            },
            OpenCall::Lookup { path, flags } => OpenRequest::Lookup { path: path@, flags },
            OpenCall::Truncate { inode, flags } => OpenRequest::Truncate { inode, flags },
            OpenCall::Stdin { flags } => OpenRequest::Stdin { flags },
            OpenCall::Stdout { flags } => OpenRequest::Stdout { flags },
        }
    }
}

impl<N> View for OpenProgress<N> {
    type V = OpenStep<N>;

    open spec fn view(&self) -> OpenStep<N> {
        match *self {
            OpenProgress::Ask(call) => OpenStep::Ask(call@),
            OpenProgress::Ready(handle) => OpenStep::Ready(handle),
        }
    }
}

/// What opening `path` asks of the file system first. To create a file takes its directory;
/// otherwise two names stand for the standard streams, and all others are looked up.
pub open spec fn first_request<N>(path: Seq<char>, flags: OpenFlags, mode: u32) -> OpenRequest<N> {
    if flags.has(OpenFlags::CREATE) {
        OpenRequest::LookupDir {
            dir_path: path::dir_path(path),
            file_name: path::file_name(path),
            flags,
            mode,
        }
    } else if path == "stdin:"@ {
        OpenRequest::Stdin { flags }
    } else if path == "stdout:"@ {
        OpenRequest::Stdout { flags }
    } else {
        OpenRequest::Lookup { path, flags }
    }
}

/// How an `open` goes on with a file that is there: it is emptied first where the flags ask for
/// that, and opened as it is otherwise.
pub open spec fn found_step<N>(inode: N, flags: OpenFlags) -> OpenStep<N> {
    if flags.has(OpenFlags::TRUNCATE) {
        OpenStep::Ask(OpenRequest::Truncate { inode, flags })
    } else {
        OpenStep::Ready(FileHandle::opened(inode, flags.options()))
    }
}

/// How an `open` that waits for `request` goes on with the reply: a directory is searched for
/// the entry, an entry that is missing there is created as a regular file, one that is there
/// is refused to a call that wants a new one. A file that was there is emptied where the flags
/// ask for it; a new file is empty anyway, and a standard stream has no length to set. What came
/// of it is opened.
pub open spec fn next_step<N>(request: OpenRequest<N>, reply: Result<N, FsError>) -> Result<
    OpenStep<N>,
    SysError,
> {
    match (request, reply) {
        (OpenRequest::LookupDir { file_name, flags, mode, .. }, Ok(dir)) => Ok(
            OpenStep::Ask(OpenRequest::Find { dir, file_name, flags, mode }),
        ),
        (OpenRequest::Find { flags, .. }, Ok(inode)) => if flags.has(OpenFlags::EXCLUSIVE) {
            Err(SysError::Exists)
        } else {
            Ok(found_step(inode, flags))
        },
        (OpenRequest::Find { dir, file_name, flags, mode }, Err(FsError::EntryNotFound)) => Ok(
            OpenStep::Ask(
                OpenRequest::Create { dir, file_name, type_: FileType::File, mode, flags },
            ),
        ),
        (OpenRequest::Create { flags, .. }, Ok(inode)) => Ok(
            OpenStep::Ready(FileHandle::opened(inode, flags.options())),
        ),
        (OpenRequest::Lookup { flags, .. }, Ok(inode)) => Ok(found_step(inode, flags)),
        (OpenRequest::Truncate { inode, flags }, Ok(_)) => Ok(
            OpenStep::Ready(FileHandle::opened(inode, flags.options())),
        ),
        (OpenRequest::Stdin { flags }, Ok(inode)) => Ok(
            OpenStep::Ready(FileHandle::opened(inode, flags.options())),
        ),
        (OpenRequest::Stdout { flags }, Ok(inode)) => Ok(
            OpenStep::Ready(FileHandle::opened(inode, flags.options())),
        ),
        (_, Err(e)) => Err(error::sys_error(e)),
    }
}

impl<N> OpenCall<N> {
    /// Goes on with what the file system replied.
    pub fn resume(self, reply: Result<N, FsError>) -> (progress: Result<OpenProgress<N>, SysError>)
        ensures
            match progress {
                Ok(progress) => next_step(self@, reply) == Ok::<OpenStep<N>, SysError>(progress@),
                Err(e) => next_step(self@, reply) == Err::<OpenStep<N>, SysError>(e),
            },
    {
        let found = match reply {
            Ok(inode) => inode,
            Err(FsError::EntryNotFound) => {
                return match self {
                    OpenCall::Find { dir, file_name, flags, mode } => Ok(
                        OpenProgress::Ask(
                            OpenCall::Create {
                                dir,
                                file_name,
                                type_: FileType::File,
                                mode,
                                flags,
                            },
                        ),
                    ),
                    _ => Err(SysError::from(FsError::EntryNotFound)),
                };
            },
            Err(e) => return Err(SysError::from(e)),
        };
        let (inode, flags) = match self {
            OpenCall::LookupDir { dir_path: _, file_name, flags, mode } => {
                return Ok(
                    OpenProgress::Ask(OpenCall::Find { dir: found, file_name, flags, mode }),
                );
            },
            OpenCall::Find { flags, .. } => {
                if flags.contains(OpenFlags::EXCLUSIVE) {
                    return Err(SysError::Exists);
                }
                if flags.contains(OpenFlags::TRUNCATE) {
                    return Ok(OpenProgress::Ask(OpenCall::Truncate { inode: found, flags }));
                }
                (found, flags)
            },
            OpenCall::Lookup { flags, .. } => {
                if flags.contains(OpenFlags::TRUNCATE) {
                    return Ok(OpenProgress::Ask(OpenCall::Truncate { inode: found, flags }));
                }
                (found, flags)
            },
            OpenCall::Truncate { inode, flags } => (inode, flags),
            OpenCall::Create { flags, .. } => (found, flags),
            OpenCall::Stdin { flags } => (found, flags),
            OpenCall::Stdout { flags } => (found, flags),
        };
        Ok(OpenProgress::Ready(FileHandle::new(inode, flags.to_options())))
    }
}

/// Gives the file just opened the lowest free descriptor.
pub fn install_file<N>(proc: &mut Process<N>, file: FileHandle<N>) -> (ret: SysResult)
    requires
        process::has_free(old(proc).files@),
    ensures
        exists|fd: usize|
            {
                &&& #[trigger] process::lowest_free(old(proc).files@, fd)
                &&& ret == Ok::<isize, SysError>(fd as isize)
                &&& final(proc).files@ == old(proc).files@.insert(fd, file)
            },
        final(proc).memory_set == old(proc).memory_set,
{
    broadcast use group_btree_axioms;

    let fd: usize = proc.free_fd().unwrap();
    proc.files.insert(fd, file);
    Ok(fd as isize)
}

/// Starts to open the file at the path that stands at the address `path`.
pub fn sys_open<N>(proc: &Process<N>, path: usize, flags: usize, mode: usize) -> (call: Result<
    OpenCall<N>,
    SysError,
>)
    requires
        proc.wf(),
    ensures
        match (call, proc.memory_set.cstr_at(path as int)) {
            (Ok(call), Some(text)) => call@ == first_request::<N>(
                text,
                OpenFlags::truncated(flags),
                mode as u32,
            ),
            (Err(e), None) => e == SysError::Inval,
            _ => false,
        },
{
    let path = match proc.memory_set.check_and_clone_cstr(path) {
        Some(path) => path,
        None => return Err(SysError::Inval),
    };
    let flags = OpenFlags::from_bits_truncate(flags);
    if flags.contains(OpenFlags::CREATE) {
        let (dir_path, file_name) = path::split(path.as_str());
        return Ok(OpenCall::LookupDir { dir_path, file_name, flags, mode: mode as u32 });
    }
    let stdin = "stdin:".to_owned();
    let stdout = "stdout:".to_owned();
    if path == stdin {
        Ok(OpenCall::Stdin { flags })
    } else if path == stdout {
        Ok(OpenCall::Stdout { flags })
    } else {
        Ok(OpenCall::Lookup { path, flags })
    }
}

/// A call that wants a new file is refused where the entry is there: it looks up the
/// directory, searches it, and ends with `Exists`.
pub proof fn law_exclusive_refuses_existing<N>(
    path: Seq<char>,
    flags: OpenFlags,
    mode: u32,
    dir: N,
    inode: N,
)
    requires
        flags.has(OpenFlags::CREATE),
        flags.has(OpenFlags::EXCLUSIVE),
    ensures
        ({
            let find = OpenRequest::Find { dir, file_name: path::file_name(path), flags, mode };
            &&& next_step(first_request::<N>(path, flags, mode), Ok(dir)) == Ok::<
                OpenStep<N>,
                SysError,
            >(OpenStep::Ask(find))
            &&& next_step(find, Ok(inode)) == Err::<OpenStep<N>, SysError>(SysError::Exists)
        }),
{
}

/// A call that may create a file and finds the entry missing creates a regular file of that
/// name and mode in the directory it searched, and opens what it created.
pub proof fn law_create_makes_missing<N>(
    path: Seq<char>,
    flags: OpenFlags,
    mode: u32,
    dir: N,
    inode: N,
)
    requires
        flags.has(OpenFlags::CREATE),
    ensures
        ({
            let file_name = path::file_name(path);
            let find = OpenRequest::Find { dir, file_name, flags, mode };
            let create = OpenRequest::Create {
                dir,
                file_name,
                type_: FileType::File,
                mode,
                flags,
            };
            &&& next_step(first_request::<N>(path, flags, mode), Ok(dir)) == Ok::<
                OpenStep<N>,
                SysError,
            >(OpenStep::Ask(find))
            &&& next_step(find, Err(FsError::EntryNotFound)) == Ok::<OpenStep<N>, SysError>(
                OpenStep::Ask(create),
            )
            &&& next_step(create, Ok(inode)) == Ok::<OpenStep<N>, SysError>(
                OpenStep::Ready(FileHandle::opened(inode, flags.options())),
            )
        }),
{
}

/// A call that may create a file, but need not, goes on with the entry that is there.
pub proof fn law_create_opens_existing<N>(
    path: Seq<char>,
    flags: OpenFlags,
    mode: u32,
    dir: N,
    inode: N,
)
    requires
        flags.has(OpenFlags::CREATE),
        !flags.has(OpenFlags::EXCLUSIVE),
    ensures
        ({
            let find = OpenRequest::Find { dir, file_name: path::file_name(path), flags, mode };
            &&& next_step(first_request::<N>(path, flags, mode), Ok(dir)) == Ok::<
                OpenStep<N>,
                SysError,
            >(OpenStep::Ask(find))
            &&& next_step(find, Ok(inode)) == Ok::<OpenStep<N>, SysError>(found_step(inode, flags))
        }),
{
}

/// Nothing is created unless the call asks for it: a call without `CREATE` goes on with the
/// file that the path leads to, or with the standard stream it names, or ends.
pub proof fn law_nothing_created_unasked<N>(
    path: Seq<char>,
    flags: OpenFlags,
    mode: u32,
    reply: Result<N, FsError>,
)
    requires
        !flags.has(OpenFlags::CREATE),
    ensures
        next_step(first_request::<N>(path, flags, mode), reply) == match reply {
            Ok(inode) => if path == "stdin:"@ || path == "stdout:"@ {
                Ok(OpenStep::Ready(FileHandle::opened(inode, flags.options())))
            } else {
                Ok(found_step(inode, flags))
            },
            Err(e) => Err(error::sys_error(e)),
        },
{
}

/// A file that is there and is opened with `TRUNCATE`, in whatever access mode, is emptied before
/// it is opened: the call asks for it next, opens that very file once it is done, and fails if
/// it cannot be done.
pub proof fn law_truncate_empties_existing<N>(
    request: OpenRequest<N>,
    inode: N,
    reply: Result<N, FsError>,
)
    requires
        request is Lookup || (request is Find && !flags_of(request).has(OpenFlags::EXCLUSIVE)),
        flags_of(request).has(OpenFlags::TRUNCATE),
    ensures
        ({
            let flags = flags_of(request);
            let truncate = OpenRequest::Truncate { inode, flags };
            &&& next_step(request, Ok(inode)) == Ok::<OpenStep<N>, SysError>(
                OpenStep::Ask(truncate),
            )
            &&& next_step(truncate, reply) == match reply {
                Ok(_) => Ok(OpenStep::Ready(FileHandle::opened(inode, flags.options()))),
                Err(e) => Err(error::sys_error(e)),
            }
        }),
{
}

/// A call with `TRUNCATE` has a file ready only once it was emptied, or where it was just created
/// or is a standard stream, which has no length.
pub proof fn law_ready_after_truncate<N>(request: OpenRequest<N>, reply: Result<N, FsError>)
    requires
        flags_of(request).has(OpenFlags::TRUNCATE),
        next_step(request, reply) matches Ok(OpenStep::Ready(_)),
    ensures
        request is Truncate || request is Create || request is Stdin || request is Stdout,
{
}

/// Nothing is emptied unless the flags ask for it, and only the file that was found.
pub proof fn law_nothing_emptied_unasked<N>(request: OpenRequest<N>, reply: Result<N, FsError>)
    ensures
        next_step(request, reply) matches Ok(OpenStep::Ask(OpenRequest::Truncate { inode, flags }))
            ==> {
            &&& flags.has(OpenFlags::TRUNCATE)
            &&& reply == Ok::<N, FsError>(inode)
            &&& request is Lookup || request is Find
        },
{
}

/// How many more times an `open` can ask, after it has asked for `request`.
pub open spec fn asks_left<N>(request: OpenRequest<N>) -> nat {
    match request {
        OpenRequest::LookupDir { .. } => 2,
        OpenRequest::Find { .. } => 1,
        OpenRequest::Lookup { .. } => 1,
        _ => 0,
    }
}

/// An `open` asks three times at most.
pub proof fn law_open_ends<N>(request: OpenRequest<N>, reply: Result<N, FsError>)
    ensures
        asks_left(request) <= 2,
        next_step(request, reply) matches Ok(OpenStep::Ask(next)) ==> asks_left(next) < asks_left(
            request,
        ),
{
}

/// An `open` never changes the flags it was called with, so the file it ends with may be used
/// as they say.
pub proof fn law_options_follow_flags<N>(request: OpenRequest<N>, reply: Result<N, FsError>)
    ensures
        match next_step(request, reply) {
            Ok(OpenStep::Ask(next)) => flags_of(next) == flags_of(request),
            Ok(OpenStep::Ready(file)) => {
                &&& reply is Ok
                &&& file.inode == match request {
                    OpenRequest::Truncate { inode, .. } => inode,
                    _ => reply->Ok_0,
                }
                &&& file.options == flags_of(request).options()
                &&& file.offset == 0
            },
            Err(_) => true,
        },
{
}

/// The flags that an `open` was called with.
pub open spec fn flags_of<N>(request: OpenRequest<N>) -> OpenFlags {
    match request {
        OpenRequest::LookupDir { flags, .. } => flags,
        OpenRequest::Find { flags, .. } => flags,
        OpenRequest::Create { flags, .. } => flags,
        OpenRequest::Lookup { flags, .. } => flags,
        OpenRequest::Truncate { flags, .. } => flags,
        OpenRequest::Stdin { flags } => flags,
        OpenRequest::Stdout { flags } => flags,
    }
}

/// The flags that `open` keeps of raw bits: the access mode and four flags.
pub open spec fn kept_bits(bits: usize) -> int {
    bits % 4 + 64 * (bits / 64 % 4) + 512 * (bits / 512 % 4)
}

/// What `open` asks for first, told by the text at `path` and the raw flags. With the flag for
/// creating, it is the directory: the directory, a slash and the name make up the text, and the name
/// has no slash; without a slash in the text the directory is `.`. Otherwise it is a standard
/// stream, by its name, or the text itself.
pub proof fn law_open_asks<N>(
    proc: &Process<N>,
    path: usize,
    flags: usize,
    mode: usize,
    call: Result<OpenCall<N>, SysError>,
    text: Seq<char>,
)
    requires
        call_ensures(sys_open::<N>, (proc, path, flags, mode), call),
        proc.memory_set.cstr_at(path as int) == Some(text),
    ensures
        call is Ok,
        flags / 64 % 2 == 1 ==> match call->Ok_0 {
            OpenCall::LookupDir { dir_path, file_name, flags: kept, mode: m } => {
                &&& text.contains('/') ==> dir_path@ + seq!['/'] + file_name@ == text
                &&& !text.contains('/') ==> dir_path@ == seq!['.'] && file_name@ == text
                &&& !file_name@.contains('/')
                &&& kept.bits == kept_bits(flags)
                &&& m == mode as int % 0x1_0000_0000
            },
            _ => false,
        },
        flags / 64 % 2 == 0 && text == "stdin:"@ ==> match call->Ok_0 {
            OpenCall::Stdin { flags: kept } => kept.bits == kept_bits(flags),
            _ => false,
        },
        flags / 64 % 2 == 0 && text == "stdout:"@ ==> match call->Ok_0 {
            OpenCall::Stdout { flags: kept } => kept.bits == kept_bits(flags),
            _ => false,
        },
        flags / 64 % 2 == 0 && text != "stdin:"@ && text != "stdout:"@ ==> match call->Ok_0 {
            OpenCall::Lookup { path: asked, flags: kept } => asked@ == text && kept.bits
                == kept_bits(flags),
            _ => false,
        },
{
    flags::law_raw_bits(flags);
    assert((mode as u32) as u64 == (mode as u64) % 0x1_0000_0000) by (bit_vector);
    if text.contains('/') {
        path::law_parts_make_path(text);
    }
    reveal_strlit("stdin:");
    reveal_strlit("stdout:");
    assert("stdin:"@.len() != "stdout:"@.len());
}

/// Where no text stands at `path`, `open` is refused.
pub proof fn law_open_needs_path<N>(
    proc: &Process<N>,
    path: usize,
    flags: usize,
    mode: usize,
    call: Result<OpenCall<N>, SysError>,
)
    requires
        call_ensures(sys_open::<N>, (proc, path, flags, mode), call),
        proc.memory_set.cstr_at(path as int) is None,
    ensures
        call == Err::<OpenCall<N>, SysError>(SysError::Inval),
{
}

/// The file `file` is the inode `inode`, opened at its start for what the bits of `flags` allow.
pub open spec fn opened_as<N>(file: FileHandle<N>, inode: N, flags: OpenFlags) -> bool {
    &&& file.inode == inode
    &&& file.offset == 0
    &&& file.options.read <==> flags.bits % 4 == 0 || flags.bits % 4 == 2
    &&& file.options.write <==> flags.bits % 4 == 1 || flags.bits % 4 == 2
    &&& file.options.append <==> flags.bits / 1024 % 2 == 1
}

/// What `resume` makes of an error: a missing entry is created in the directory that was searched,
/// as a regular file of the name and mode asked for; every other error ends the call.
pub proof fn law_open_on_error<N>(
    call: OpenCall<N>,
    e: FsError,
    progress: Result<OpenProgress<N>, SysError>,
)
    requires
        call_ensures(OpenCall::<N>::resume, (call, Err(e)), progress),
    ensures
        match call {
            OpenCall::Find { dir, file_name, flags, mode } if e == FsError::EntryNotFound =>
            match progress {
                Ok(
                    OpenProgress::Ask(
                        OpenCall::Create { dir: d, file_name: n, type_, mode: m, flags: f },
                    ),
                ) => {
                    &&& d == dir
                    &&& n@ == file_name@
                    &&& type_ == FileType::File
                    &&& m == mode
                    &&& f == flags
                },
                _ => false,
            },
            _ => progress == Err::<OpenProgress<N>, SysError>(error::sys_error(e)),
        },
{
}

/// What `resume` makes of an inode. A directory is searched for the entry. An entry that was found
/// is refused to an exclusive call, emptied for a truncating one, and opened otherwise; so is what a
/// path leads to, but that it is not refused. A file that was emptied is opened itself; a new file
/// and a standard stream are opened as they are.
pub proof fn law_open_on_inode<N>(
    call: OpenCall<N>,
    found: N,
    progress: Result<OpenProgress<N>, SysError>,
)
    requires
        call_ensures(OpenCall::<N>::resume, (call, Ok(found)), progress),
    ensures
        match call {
            OpenCall::LookupDir { dir_path: _, file_name, flags, mode } => match progress {
                Ok(OpenProgress::Ask(OpenCall::Find { dir, file_name: n, flags: f, mode: m })) => {
                    &&& dir == found
                    &&& n@ == file_name@
                    &&& f == flags
                    &&& m == mode
                },
                _ => false,
            },
            OpenCall::Find { dir: _, file_name: _, flags, mode: _ } => if flags.bits / 128 % 2 == 1 {
                progress == Err::<OpenProgress<N>, SysError>(SysError::Exists)
            } else {
                goes_on_with(progress, found, flags)
            },
            OpenCall::Lookup { path: _, flags } => goes_on_with(progress, found, flags),
            OpenCall::Truncate { inode, flags } => progress matches Ok(OpenProgress::Ready(file))
                && opened_as(file, inode, flags),
            OpenCall::Create { dir: _, file_name: _, type_: _, mode: _, flags } => progress matches Ok(
                OpenProgress::Ready(file),
            ) && opened_as(file, found, flags),
            OpenCall::Stdin { flags } => progress matches Ok(OpenProgress::Ready(file)) && opened_as(
                file,
                found,
                flags,
            ),
            OpenCall::Stdout { flags } => progress matches Ok(OpenProgress::Ready(file))
                && opened_as(file, found, flags),
        },
{
    flags::law_single_flags(flags_of(call@));
}

/// The `open` goes on with the file `inode` that is there: it asks for it to be emptied where the
/// bits of `flags` say so, and has it ready otherwise.
pub open spec fn goes_on_with<N>(
    progress: Result<OpenProgress<N>, SysError>,
    inode: N,
    flags: OpenFlags,
) -> bool {
    if flags.bits / 512 % 2 == 1 {
        progress matches Ok(OpenProgress::Ask(OpenCall::Truncate { inode: i, flags: f })) && i
            == inode && f == flags
    } else {
        progress matches Ok(OpenProgress::Ready(file)) && opened_as(file, inode, flags)
    }
}

/// The file just opened gets a descriptor that is none of the standard streams, was free, and has no
/// free one below; the number is what the call returns. Every other file and the memory are as
/// they were.
pub proof fn law_install<N>(
    proc: &mut Process<N>,
    file: FileHandle<N>,
    ret: SysResult,
    other: usize,
)
    requires
        call_ensures(install_file::<N>, (proc, file), ret),
    ensures
        ret is Ok,
        ({
            let fd = ret->Ok_0 as usize;
            &&& fd >= 3
            &&& fd <= isize::MAX ==> ret->Ok_0 == fd as int
            &&& !old(proc).files@.contains_key(fd)
            &&& other >= 3 && !old(proc).files@.contains_key(other) ==> fd <= other
            &&& final(proc).files@.contains_key(fd)
            &&& final(proc).files@[fd] == file
            &&& other != fd ==> (final(proc).files@.contains_key(other) <==> old(
                proc,
            ).files@.contains_key(other))
            &&& old(proc).files@.contains_key(other) ==> final(proc).files@[other] == old(
                proc,
            ).files@[other]
        }),
        final(proc).memory_set == old(proc).memory_set,
{
    let fd = choose|fd: usize|
        {
            &&& #[trigger] process::lowest_free(old(proc).files@, fd)
            &&& ret == Ok::<isize, SysError>(fd as isize)
            &&& final(proc).files@ == old(proc).files@.insert(fd, file)
        };
    assert((fd as isize) as usize == fd) by (bit_vector);
}

} // verus!
