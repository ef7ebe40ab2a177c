//! A delimiter-bounded substring scanner.
//!
//! The `scanner` module finds the first occurrence of a fixed delimiter
//! byte (an ASCII space) in a byte sequence and hands back the offset of
//! that occurrence, or a zero-copy view of the bytes that precede it.
//! The `ownership` module holds a few small helpers for moving, borrowing
//! and measuring owned strings.

pub mod ownership;
pub mod scanner;
