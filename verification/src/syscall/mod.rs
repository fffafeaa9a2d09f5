//! The system calls. A call that needs the file system stops where it does: it hands out what
//! is to be done, as a value, and goes on when that value is given the outcome.

pub mod descriptor;
pub mod directory;
pub mod open;
pub mod seek;
pub mod status;
pub mod transfer;
pub mod vectored;
