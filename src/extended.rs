use vstd::prelude::*;
use crate::bytes::{DecodeError, be_u16, le_value, read_le};
use crate::payload::{clean_payload, sanitized};
use crate::record::{LogRecord, RecordView, literal, placeholder, placeholder_id};
use crate::timestamp::{Timestamp, clamp, clamp_spec};

verus! {

/// Bits 0 and 1: which of the message-info and time blocks follow.
pub const CNTI_MASK: u32 = 0x03;

/// Bit 2: an ECU identifier follows.
pub const ECU_PRESENT: u32 = 0x04;

/// Bit 3: application and context identifiers follow.
pub const IDS_PRESENT: u32 = 0x08;

/// Bit 4: a session identifier follows.
pub const SESSION_PRESENT: u32 = 0x10;

/// Bytes of the fixed part: four of header type, the counter, the length.
pub const FIXED_HEADER_LEN: usize = 7;

/// The 32-bit header-type field of an extended frame.
#[derive(Clone, Copy, Debug, PartialEq, Eq, Structural)]
pub struct HeaderFlags {
    pub bits: u32,
}

/// The header-type field built from its four bytes, the first the least significant.
pub open spec fn header_word(b0: u8, b1: u8, b2: u8, b3: u8) -> u32 {
    (b0 as u32) | ((b1 as u32) << 8) | ((b2 as u32) << 16) | ((b3 as u32) << 24)
}

/// Name of the result of `String::from_utf8_lossy` on a byte sequence.
pub uninterp spec fn utf8_lossy(b: Seq<u8>) -> Seq<char>;

/// Relies on `String::from_utf8_lossy`: the text depends on the bytes alone.
#[verifier::external_body]
fn lossy_text(b: &[u8]) -> (r: String)
    ensures
        r@ == utf8_lossy(b@),
{
    String::from_utf8_lossy(b).into_owned()
}

impl HeaderFlags {
    pub open spec fn spec_cnti(self) -> u32 {
        self.bits & CNTI_MASK
    }

    pub open spec fn spec_has_info_block(self) -> bool {
        self.spec_cnti() == 0 || self.spec_cnti() == 2
    }

    pub open spec fn spec_has_time_block(self) -> bool {
        self.spec_cnti() == 0 || self.spec_cnti() == 1
    }

    pub open spec fn spec_has_ecu(self) -> bool {
        self.bits & ECU_PRESENT != 0
    }

    pub open spec fn spec_has_ids(self) -> bool {
        self.bits & IDS_PRESENT != 0
    }

    pub open spec fn spec_has_session(self) -> bool {
        self.bits & SESSION_PRESENT != 0
    }

    pub fn from_bytes(b0: u8, b1: u8, b2: u8, b3: u8) -> (r: HeaderFlags)
        ensures
            r.bits == header_word(b0, b1, b2, b3),
    {
        HeaderFlags {
            bits: (b0 as u32) | ((b1 as u32) << 8) | ((b2 as u32) << 16) | ((b3 as u32) << 24),
        }
    }

    pub fn cnti(&self) -> (r: u32)
        ensures
            r == self.spec_cnti(),
    {
        self.bits & CNTI_MASK
    }

    /// The two-byte message-info block is present (CNTI 0 or 2).
    pub fn has_info_block(&self) -> (r: bool)
        ensures
            r == self.spec_has_info_block(),
    {
        let c = self.cnti();
        c == 0 || c == 2
    }

    /// The nine-byte relative-time block is present (CNTI 0 or 1).
    pub fn has_time_block(&self) -> (r: bool)
        ensures
            r == self.spec_has_time_block(),
    {
        let c = self.cnti();
        c == 0 || c == 1
    }

    pub fn has_ecu(&self) -> (r: bool)
        ensures
            r == self.spec_has_ecu(),
    {
        self.bits & ECU_PRESENT != 0
    }

    pub fn has_ids(&self) -> (r: bool)
        ensures
            r == self.spec_has_ids(),
    {
        self.bits & IDS_PRESENT != 0
    }

    pub fn has_session(&self) -> (r: bool)
        ensures
            r == self.spec_has_session(),
    {
        self.bits & SESSION_PRESENT != 0
    }
}

/// Offsets of an extended frame's optional fields: after the info block,
/// after the time block, after the ECU block, after the application id,
/// after the context id, after the session block.
pub struct Offsets {
    pub p1: int,
    pub p2: int,
    pub p3: int,
    pub pc: int,
    pub p4: int,
    pub p5: int,
}

pub open spec fn offsets(input: Seq<u8>, pos: int, f: HeaderFlags) -> Offsets {
    let p1 = if f.spec_has_info_block() { pos + 8 } else { pos + 6 };
    let p2 = if f.spec_has_time_block() { p1 + 9 } else { p1 };
    let p3 = if f.spec_has_ecu() { p2 + 1 + input[p2] } else { p2 };
    let pc = p3 + 1 + input[p3];
    let p4 = if f.spec_has_ids() { pc + 1 + input[pc] } else { p3 };
    let p5 = if f.spec_has_session() { p4 + 4 } else { p4 };
    Offsets { p1, p2, p3, pc, p4, p5 }
}

/// The record of the extended frame whose marker was just read, `pos` being
/// the position after the marker, and the position after the frame.
/// Offsets only grow from one field to the next, so a field past the end
/// shows in the last offset before the payload.
pub open spec fn extended_spec(input: Seq<u8>, pos: int, marker: u8, storage_ts: u64) -> Result<
    (RecordView, int),
    DecodeError,
> {
    if pos + 6 > input.len() {
        Err(DecodeError::Truncated)
    } else {
        let f = HeaderFlags { bits: header_word(marker, input[pos], input[pos + 1], input[pos + 2]) };
        let total = be_u16(input[pos + 4], input[pos + 5]);
        let o = offsets(input, pos, f);
        let p1 = o.p1;
        let p3 = o.p3;
        let pc = o.pc;
        let p4 = o.p4;
        let p5 = o.p5;
        let consumed = p5 - pos + 1;
        if p5 > input.len() {
            Err(DecodeError::Truncated)
        } else if total < consumed {
            Err(DecodeError::MalformedLength)
        } else if p5 + (total - consumed) > input.len() {
            Err(DecodeError::Truncated)
        } else {
            let rem = total - consumed;
            let rel = if f.spec_has_time_block() {
                clamp_spec(le_value(input.subrange(p1, p1 + 8))) as u64
            } else {
                0u64
            };
            Ok(
                (
                    RecordView {
                        timestamp: if storage_ts > 0 {
                            Timestamp::FromStorageHeader(storage_ts)
                        } else {
                            Timestamp::RelativeCandidate(rel)
                        },
                        app_id: if f.spec_has_ids() {
                            utf8_lossy(input.subrange(p3 + 1, pc))
                        } else {
                            placeholder_id()
                        },
                        ctx_id: if f.spec_has_ids() {
                            utf8_lossy(input.subrange(pc + 1, p4))
                        } else {
                            placeholder_id()
                        },
                        level: "INFO"@,
                        payload: if rem == 0 {
                            "<No Payload>"@
                        } else {
                            sanitized(input.subrange(p5, p5 + rem))
                        },
                    },
                    p5 + rem,
                ),
            )
        }
    }
}

fn read_id(input: &[u8], p: usize) -> (r: Result<(String, usize), DecodeError>)
    requires
        p <= input@.len(),
    ensures
        match r {
            Ok((s, next)) => p < input@.len() && next == p + 1 + input@[p as int] && next
                <= input@.len() && s@ == utf8_lossy(input@.subrange(p + 1, next as int)),
            Err(e) => e == DecodeError::Truncated && (p >= input@.len() || p + 1
                + input@[p as int] > input@.len()),
        },
{
    if input.len() - p < 1 {
        return Err(DecodeError::Truncated);
    }
    let l = input[p] as usize;
    if input.len() - (p + 1) < l {
        return Err(DecodeError::Truncated);
    }
    let s = lossy_text(&input[p + 1..p + 1 + l]);
    Ok((s, p + 1 + l))
}

fn skip_blocks(input: &[u8], pos: usize, flags: HeaderFlags) -> (r: Result<usize, DecodeError>)
    requires
        pos + 6 <= input@.len(),
    ensures
        match r {
            Ok(p) => p == offsets(input@, pos as int, flags).p3 && p <= input@.len()
                && offsets(input@, pos as int, flags).p2 <= p,
            Err(e) => e == DecodeError::Truncated && offsets(input@, pos as int, flags).p3
                > input@.len(),
        },
{
    let len = input.len();
    let mut p: usize = pos + 6;
    if flags.has_info_block() {
        if len - p < 2 {
            return Err(DecodeError::Truncated);
        }
        p = p + 2;
    }
    if flags.has_time_block() {
        if len - p < 9 {
            return Err(DecodeError::Truncated);
        }
        p = p + 9;
    }
    if flags.has_ecu() {
        if len - p < 1 {
            return Err(DecodeError::Truncated);
        }
        let l = input[p] as usize;
        if len - (p + 1) < l {
            return Err(DecodeError::Truncated);
        }
        p = p + 1 + l;
    }
    Ok(p)
}

/// Decodes an extended-generation frame whose first header byte `htyp` was
/// read just before `pos`. The timestamp is the storage header's when that
/// is above zero, else the clamped relative time (0 without a time block).
/// Level is always `INFO`; the payload is the sanitised remainder, or
/// `<No Payload>` when nothing remains.
#[verifier::rlimit(40)]
pub fn parse_v2_message(input: &[u8], pos: usize, htyp: u8, storage_ts: u64) -> (r: Result<
    (LogRecord, usize),
    DecodeError,
>)
    requires
        pos <= input@.len(),
    ensures
        match r {
            Ok((rec, next)) => extended_spec(input@, pos as int, htyp, storage_ts) == Ok::<
                (RecordView, int),
                DecodeError,
            >((rec@, next as int)),
            Err(e) => extended_spec(input@, pos as int, htyp, storage_ts) == Err::<
                (RecordView, int),
                DecodeError,
            >(e),
        },
        r is Ok ==> pos < r->Ok_0.1 <= input@.len(),
{
    let len = input.len();
    if len - pos < 6 {
        return Err(DecodeError::Truncated);
    }
    let flags = HeaderFlags::from_bytes(htyp, input[pos], input[pos + 1], input[pos + 2]);
    let total: usize = input[pos + 4] as usize * 256 + input[pos + 5] as usize;
    let p3 = skip_blocks(input, pos, flags)?;
    let mut p: usize = p3;
    let p1: usize = if flags.has_info_block() { pos + 8 } else { pos + 6 };
    let rel: u64 = if flags.has_time_block() {
        clamp(read_le(input, p1, 8))
    } else {
        0
    };
    let ghost o = offsets(input@, pos as int, flags);
    assert(o.p5 >= o.p3);
    let app_id;
    let ctx_id;
    if flags.has_ids() {
        let (a, pa) = read_id(input, p)?;
        let (c, pc) = read_id(input, pa)?;
        app_id = a;
        ctx_id = c;
        p = pc;
    } else {
        app_id = placeholder();
        ctx_id = placeholder();
    }
    if flags.has_session() {
        if len - p < 4 {
            return Err(DecodeError::Truncated);
        }
        p = p + 4;
    }
    let consumed = p - pos + 1;
    if total < consumed {
        return Err(DecodeError::MalformedLength);
    }
    let rem = total - consumed;
    if len - p < rem {
        return Err(DecodeError::Truncated);
    }
    let payload = if rem == 0 {
        literal("<No Payload>")
    } else {
        clean_payload(&input[p..p + rem])
    };
    let timestamp = if storage_ts > 0 {
        Timestamp::FromStorageHeader(storage_ts)
    } else {
        Timestamp::RelativeCandidate(rel)
    };
    let rec = LogRecord { timestamp, app_id, ctx_id, level: literal("INFO"), payload };
    Ok((rec, p + rem))
}

} // verus!
