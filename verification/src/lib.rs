//! Checksums of files with several digest algorithms: the algorithm table,
//! hexadecimal digests, the checksum-file line format and the decisions of
//! the check, fast-check and hash modes.

pub mod alg;
pub mod check;
pub mod cli;
pub mod hashing;
pub mod hex;
pub mod output;
pub mod text;
