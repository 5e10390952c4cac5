//! NUL-terminated byte strings in three representations: a borrowed view
//! ([`CStr`]), an owned buffer ([`CString`]) and a pointer view that puts off
//! measuring the string until its content is read ([`CStrPtr`]).
//!
//! Every value of the first two types holds exactly one NUL byte, at its
//! end: the checked constructors establish that by a scan, the unchecked ones
//! demand it of their caller, and no conversion between the three scans again
//! but the one that leaves a pointer, which has to measure the string.
//!
//! An address is stood for by the memory that can be read from it on: a slice
//! for a borrowed string, a buffer for an owned one. The string at an address
//! is the part of that memory up to and including its first NUL.
pub mod cstr;
pub mod cstring;
pub mod order;
pub mod ptr;
pub mod scan;
pub mod text;

pub use cstr::{classify, CStr, FromBytesWithNulError};
pub use cstring::CString;
pub use ptr::CStrPtr;
