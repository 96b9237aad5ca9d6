//! Decoding of binary diagnostic-log traces (two header generations) into
//! text lines with normalised 16-digit microsecond timestamps.

pub mod bytes;
pub mod payload;
pub mod storage;
pub mod text;
pub mod timestamp;
pub mod record;
pub mod extended;
pub mod legacy;
pub mod scan;
