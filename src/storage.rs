use vstd::prelude::*;
use crate::bytes::{DecodeError, le_value, read_le};

verus! {

/// The pattern that opens a storage header: `DLT` and the byte 1.
pub open spec fn storage_magic() -> Seq<u8> {
    seq![0x44u8, 0x4cu8, 0x54u8, 0x01u8]
}

/// Size of a storage header in bytes.
pub const STORAGE_HEADER_LEN: usize = 16;

/// Timestamp of the storage header read at `pos`, and where reading
/// goes on; a zero timestamp where no header applies.
pub open spec fn storage_header_spec(input: Seq<u8>, pos: int, present: bool) -> Result<
    (u64, int),
    DecodeError,
> {
    if !present {
        Ok((0, pos))
    } else if pos + 4 > input.len() {
        Ok((0, input.len() as int))
    } else if input.subrange(pos, pos + 4) != storage_magic() {
        Ok((0, pos + 4))
    } else if pos + 16 > input.len() {
        Err(DecodeError::Truncated)
    } else {
        Ok(
            (
                (le_value(input.subrange(pos + 4, pos + 8)) * 1_000_000 + le_value(
                    input.subrange(pos + 8, pos + 12),
                )) as u64,
                pos + 16,
            ),
        )
    }
}

/// Whether the input opens with the storage-header pattern; this decides
/// for the whole input whether frames carry a storage header.
pub open spec fn opens_with_magic(input: Seq<u8>) -> bool {
    input.len() >= 4 && input.subrange(0, 4) == storage_magic()
}

fn magic_at(input: &[u8], pos: usize) -> (r: bool)
    requires
        pos + 4 <= input@.len(),
    ensures
        r == (input@.subrange(pos as int, pos + 4) == storage_magic()),
{
    let r = input[pos] == 0x44 && input[pos + 1] == 0x4c && input[pos + 2] == 0x54 && input[pos
        + 3] == 0x01;
    assert(r == (input@.subrange(pos as int, pos + 4) =~= storage_magic()));
    r
}

/// Decides from the first four bytes whether the input carries storage headers.
pub fn detect_storage_header(input: &[u8]) -> (r: bool)
    ensures
        r == opens_with_magic(input@),
{
    input.len() >= 4 && magic_at(input, 0)
}

/// Reads the storage header at `pos` when `has_storage_header` is set.
/// Returns its timestamp in microseconds (seconds times a million plus the
/// sub-second field) and the position after it. Where fewer than four bytes
/// are left the rest is taken and the timestamp is 0; where the four bytes
/// are not the pattern they are passed over and the timestamp is 0.
pub fn read_storage_header(input: &[u8], pos: usize, has_storage_header: bool) -> (r: Result<
    (u64, usize),
    DecodeError,
>)
    requires
        pos <= input@.len(),
    ensures
        match r {
            Ok((ts, next)) => storage_header_spec(input@, pos as int, has_storage_header) == Ok::<
                (u64, int),
                DecodeError,
            >((ts, next as int)),
            Err(e) => storage_header_spec(input@, pos as int, has_storage_header) == Err::<
                (u64, int),
                DecodeError,
            >(e),
        },
        r is Ok ==> r->Ok_0.1 <= input@.len(),
        r is Ok ==> r->Ok_0.0 <= 4_294_971_589_967_295u64,
{
    if !has_storage_header {
        return Ok((0, pos));
    }
    if input.len() - pos < 4 {
        return Ok((0, input.len()));
    }
    if !magic_at(input, pos) {
        return Ok((0, pos + 4));
    }
    if input.len() - pos < STORAGE_HEADER_LEN {
        return Err(DecodeError::Truncated);
    }
    let sec = read_le(input, pos + 4, 4);
    let sub = read_le(input, pos + 8, 4);
    assert(sec * 1_000_000 + sub <= 4_294_971_589_967_295) by (nonlinear_arith)
        requires
            sec < 0x1_0000_0000nat,
            sub < 0x1_0000_0000nat,
    ;
    Ok((sec * 1_000_000 + sub, pos + STORAGE_HEADER_LEN))
}

} // verus!
