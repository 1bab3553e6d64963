//! A small set of file-utility commands (`pwd`, `echo`, `cat`, `ls`, `rm`,
//! `cp`, `chmod`, ...): the argument handling, the path arithmetic and the
//! permission-bit arithmetic, with the file system left to the caller.

pub mod text;
pub mod mode;
pub mod path;
pub mod commands;
