//! `lseek`.

use vstd::prelude::*;

use crate::error;
use crate::error::{FsError, SysError, SysResult};
use crate::process::Process;
use crate::vfs::SeekFrom;

verus! {

/// Seek from the start of the file.
pub const SEEK_SET: u8 = 1;

/// Seek from the current position.
pub const SEEK_CUR: u8 = 2;

/// Seek from the end of the file.
pub const SEEK_END: u8 = 4;

/// The position that `offset` and `whence` name. An offset from the start is taken as an
/// unsigned number.
pub open spec fn seek_target(offset: i64, whence: u8) -> Option<SeekFrom> {
    if whence == SEEK_SET {
        Some(SeekFrom::Start(offset as u64))
    } else if whence == SEEK_END {
        Some(SeekFrom::End(offset))
    } else if whence == SEEK_CUR {
        Some(SeekFrom::Current(offset))
    } else {
        None
    }
}

/// An `lseek` that waits for the file `fd` to be set to `pos`.
pub struct SeekCall {
    /// the file to reposition
    pub fd: usize,
    /// the position to set
    pub pos: SeekFrom,
}

impl SeekCall {
    /// Goes on after the file was set to a position, counted from its start.
    pub fn complete(self, result: Result<u64, FsError>) -> (ret: SysResult)
        ensures
            ret == match result {
                Ok(offset) => Ok(offset as isize),
                Err(e) => Err(error::sys_error(e)),
            },
    {
        match result {
            Ok(offset) => Ok(offset as isize),
            Err(e) => Err(SysError::from(e)),
        }
    }
}

/// Starts to set the position of `fd`.
pub fn sys_lseek<N>(proc: &Process<N>, fd: usize, offset: i64, whence: u8) -> (call: Result<
    SeekCall,
    SysError,
>)
    ensures
        match call {
            Ok(call) => {
                &&& seek_target(offset, whence) == Some(call.pos)
                &&& proc.files@.contains_key(fd)
                &&& call.fd == fd
            },
            Err(e) => {
                &&& !(seek_target(offset, whence) is Some && proc.files@.contains_key(fd))
                &&& e == SysError::Inval
            },
        },
{
    let pos = match whence {
        SEEK_SET => SeekFrom::Start(offset as u64),
        SEEK_END => SeekFrom::End(offset),
        SEEK_CUR => SeekFrom::Current(offset),
        _ => return Err(SysError::Inval),
    };
    if !proc.has_file(fd) {
        return Err(SysError::Inval);
    }
    Ok(SeekCall { fd, pos })
}

/// The position that `pos` names in a file of `len` bytes that stands at `current`, counted from
/// the start of the file.
pub open spec fn position(pos: SeekFrom, len: int, current: int) -> int {
    match pos {
        SeekFrom::Start(n) => n as int,
        SeekFrom::End(n) => len + n,
        SeekFrom::Current(n) => current + n,
    }
}

/// Whatever the length of the file and the position in it: `lseek` asks for the length plus the
/// offset, for the position plus the offset, or for the offset itself, which counts modulo 2^64
/// where it is negative. No other `whence` and no closed file is accepted.
pub proof fn law_lseek_position<N>(
    proc: &Process<N>,
    fd: usize,
    offset: i64,
    whence: u8,
    call: Result<SeekCall, SysError>,
    len: int,
    current: int,
)
    requires
        call_ensures(sys_lseek::<N>, (proc, fd, offset, whence), call),
    ensures
        call is Ok <==> (whence == 1 || whence == 2 || whence == 4) && proc.files@.contains_key(fd),
        call matches Ok(call) ==> {
            &&& call.fd == fd
            &&& whence == 4 ==> position(call.pos, len, current) == len + offset
            &&& whence == 2 ==> position(call.pos, len, current) == current + offset
            &&& whence == 1 && offset >= 0 ==> position(call.pos, len, current) == offset
            &&& whence == 1 && offset < 0 ==> position(call.pos, len, current) == offset
                + 0x1_0000_0000_0000_0000
        },
{
    assert(offset < 0 ==> (offset as u64) as int == offset + 0x1_0000_0000_0000_0000) by (bit_vector);
}

/// `lseek` returns the position that the file came to, counted from its start, where it can be
/// told as a signed number.
pub proof fn law_lseek_returns(call: SeekCall, result: Result<u64, FsError>, ret: SysResult)
    requires
        call_ensures(SeekCall::complete, (call, result), ret),
    ensures
        result matches Ok(offset) ==> {
            &&& ret is Ok
            &&& offset <= isize::MAX ==> ret->Ok_0 == offset as int
        },
        result matches Err(e) ==> ret == Err::<isize, SysError>(error::sys_error(e)),
{
}

} // verus!
