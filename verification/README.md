# fs_syscall

The file system calls of a small kernel, verified with Verus: `read`, `write`, `readv`,
`writev`, `open`, `close`, `stat`, `fstat`, `lseek`, `getdirentry` and `dup2`.

The library works on a `Process`: its memory, a set of areas that hold bytes, and its table of
open files. It checks every address and descriptor that the user passes in, decides what is
asked of the file system, and writes the outcome into user memory. The file system itself stays
outside: a call such as `sys_open` returns a value that says what to do next, and `resume` or
`complete` on that value takes the outcome further.

- `memory`, `process`, `vfs`: the memory, the table of open files, and what the file system
  tells about a file
- `endian`, `dirent`, `stat`, `iovec`: the records that cross into and out of user memory, byte
  by byte
- `flags`, `path`, `error`: the flags of `open`, splitting of paths, error codes
- `syscall`: the calls

Proof functions named `law_..` state what holds across several functions: that what was written
is read back, that scattered buffers give back what they were filled with, that closing undoes
opening, that an exclusive `open` is refused where the file exists, that an `open` which
truncates has the file emptied before it is ready.

`app/` drives the library against a file system: it locks the process, performs what a call
asks for, and hands the outcome back. `app/rcore.rs` does so for `rcore_fs`.
