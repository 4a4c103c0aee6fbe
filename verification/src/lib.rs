//! Verified core of a remote process memory value scanner.
//!
//! Given the text of a process's memory mapping table and a 32-bit target
//! value, the library parses each mapping line into a segment descriptor,
//! keeps only the anonymous growth regions (heap and stack), and streams
//! through each accepted segment in bounded chunks, reporting the absolute
//! address of every aligned little-endian occurrence of the target value.
//! The single privileged primitive (a vectored cross-process memory read)
//! stands behind a trusted wrapper; everything around it is verified.
//!
//! Two small self-contained verified components live alongside the
//! scanner: a turtle-graphics drawing cursor with its byte decoder, and
//! text-mode color attribute packing.

pub mod hex;
pub mod matcher;
pub mod parser;
pub mod scan;
pub mod turtle;
pub mod vga;
pub mod window;
