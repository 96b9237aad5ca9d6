use vstd::prelude::*;
use vstd::string::StrSliceExecFns;
use crate::bytes::{DecodeError, be_u16};
use crate::record::{LogRecord, RecordView, literal, placeholder, placeholder_id};
use crate::text::{push_char, push_text};
use crate::timestamp::{Timestamp, clamp, clamp_spec};

verus! {

/// Extended header of a legacy frame, as the structural decoder gives it.
pub struct LegacyHeader {
    pub app_id: String,
    pub ctx_id: String,
    /// Debug text of the message-type classification, such as `Log(Info)`.
    pub message_type: String,
}

/// Payload of a legacy frame, as the structural decoder gives it.
pub enum LegacyPayload {
    /// The text of each argument: strings as they are, other values in
    /// their generic textual form.
    Verbose(Vec<String>),
    /// The generic textual form of a non-verbose payload.
    NonVerbose(String),
}

/// A legacy frame decoded by the structural decoder.
pub struct LegacyMessage {
    /// The frame's own relative time, in units of 0.1 ms.
    pub timestamp: Option<u32>,
    pub header: Option<LegacyHeader>,
    pub payload: LegacyPayload,
}

/// What the structural decoder made of a legacy frame.
pub enum LegacyDecode {
    Decoded(LegacyMessage),
    /// The frame was read but holds no usable message; scanning ends.
    Invalid,
    /// The decoder refused the frame.
    Rejected,
}

pub open spec fn log_prefix() -> Seq<char> {
    seq!['L', 'o', 'g', '(']
}

/// `s` from index `i` on, with each `Log(` removed, matched left to right.
pub open spec fn strip_log_from(s: Seq<char>, i: int) -> Seq<char>
    decreases s.len() - i,
{
    if i >= s.len() || i < 0 {
        Seq::empty()
    } else if i + 4 <= s.len() && s.subrange(i, i + 4) == log_prefix() {
        strip_log_from(s, i + 4)
    } else {
        seq![s[i]] + strip_log_from(s, i + 1)
    }
}

pub open spec fn upper_ascii(c: char) -> char {
    if 'a' <= c && c <= 'z' {
        ((c as u8) - 32) as u8 as char
    } else {
        c
    }
}

/// `s` without `)` and with ASCII letters in upper case.
pub open spec fn upper_no_paren(s: Seq<char>) -> Seq<char>
    decreases s.len(),
{
    if s.len() == 0 {
        Seq::empty()
    } else if s.last() == ')' {
        upper_no_paren(s.drop_last())
    } else {
        upper_no_paren(s.drop_last()).push(upper_ascii(s.last()))
    }
}

/// The level label of a message-type text: `Log(` and `)` removed, upper case.
pub open spec fn level_of(t: Seq<char>) -> Seq<char> {
    upper_no_paren(strip_log_from(t, 0))
}

/// Texts joined by single spaces.
pub open spec fn join_words(parts: Seq<Seq<char>>) -> Seq<char>
    decreases parts.len(),
{
    if parts.len() == 0 {
        Seq::empty()
    } else if parts.len() == 1 {
        parts[0]
    } else {
        join_words(parts.drop_last()) + seq![' '] + parts.last()
    }
}

pub open spec fn texts(v: Seq<String>) -> Seq<Seq<char>> {
    v.map_values(|s: String| s@)
}

pub open spec fn payload_text(p: LegacyPayload) -> Seq<char> {
    match p {
        LegacyPayload::Verbose(args) => join_words(texts(args@)),
        LegacyPayload::NonVerbose(t) => t@,
    }
}

/// The record of a decoded legacy message: the storage-header time when
/// above zero, else the message's own time scaled to microseconds and
/// clamped (0 when it has none).
pub open spec fn legacy_record_spec(m: LegacyMessage, storage_ts: u64) -> RecordView {
    RecordView {
        timestamp: if storage_ts > 0 {
            Timestamp::FromStorageHeader(storage_ts)
        } else {
            Timestamp::RelativeCandidate(
                clamp_spec(
                    match m.timestamp {
                        Some(t) => t as nat * 100,
                        None => 0,
                    },
                ) as u64,
            )
        },
        app_id: match m.header {
            Some(h) => h.app_id@,
            None => placeholder_id(),
        },
        ctx_id: match m.header {
            Some(h) => h.ctx_id@,
            None => placeholder_id(),
        },
        level: match m.header {
            Some(h) => level_of(h.message_type@),
            None => "UNKNOWN"@,
        },
        payload: payload_text(m.payload),
    }
}

pub open spec fn legacy_outcome_spec(d: LegacyDecode, storage_ts: u64) -> Result<
    Option<RecordView>,
    DecodeError,
> {
    match d {
        LegacyDecode::Decoded(m) => Ok(Some(legacy_record_spec(m, storage_ts))),
        LegacyDecode::Invalid => Ok(None),
        LegacyDecode::Rejected => Err(DecodeError::LegacyRejected),
    }
}

fn strip_log(t: &String) -> (r: Vec<char>)
    ensures
        r@ == strip_log_from(t@, 0),
{
    let s = t.as_str();
    let n = s.unicode_len();
    let mut out: Vec<char> = Vec::new();
    let mut i: usize = 0;
    while i < n
        invariant
            n == t@.len(),
            s@ == t@,
            i <= n,
            strip_log_from(t@, 0) == out@ + strip_log_from(t@, i as int),
        decreases n - i,
    {
        if n - i >= 4 && s.get_char(i) == 'L' && s.get_char(i + 1) == 'o' && s.get_char(i + 2)
            == 'g' && s.get_char(i + 3) == '(' {
            assert(t@.subrange(i as int, i + 4) =~= log_prefix());
            i = i + 4;
        } else {
            let c = s.get_char(i);
            proof {
                if i + 4 <= n {
                    if t@.subrange(i as int, i + 4) == log_prefix() {
                        assert(t@.subrange(i as int, i + 4)[0] == 'L');
                        assert(t@.subrange(i as int, i + 4)[1] == 'o');
                        assert(t@.subrange(i as int, i + 4)[2] == 'g');
                        assert(t@.subrange(i as int, i + 4)[3] == '(');
                    }
                }
            }
            assert(strip_log_from(t@, i as int) == seq![c] + strip_log_from(t@, i + 1));
            assert(out@.push(c) + strip_log_from(t@, i + 1) =~= out@ + (seq![c] + strip_log_from(
                t@,
                i + 1,
            )));
            out.push(c);
            i = i + 1;
        }
    }
    assert(out@ + strip_log_from(t@, n as int) =~= out@);
    out
}

/// The level label of a message-type text such as `Log(Info)`: every `Log(`
/// and `)` removed, ASCII letters in upper case (`INFO`).
pub fn level_label(message_type: &String) -> (r: String)
    ensures
        r@ == level_of(message_type@),
{
    let v = strip_log(message_type);
    let mut out = String::new();
    let mut i: usize = 0;
    while i < v.len()
        invariant
            i <= v@.len(),
            out@ == upper_no_paren(v@.subrange(0, i as int)),
        decreases v@.len() - i,
    {
        let c = v[i];
        assert(v@.subrange(0, i + 1).drop_last() =~= v@.subrange(0, i as int));
        if c != ')' {
            let u = if c >= 'a' && c <= 'z' {
                ((c as u8) - 32) as char
            } else {
                c
            };
            push_char(&mut out, u);
        }
        i = i + 1;
    }
    assert(v@.subrange(0, v@.len() as int) =~= v@);
    out
}

/// The argument texts joined by single spaces.
pub fn join_args(args: &Vec<String>) -> (r: String)
    ensures
        r@ == join_words(texts(args@)),
{
    let mut out = String::new();
    let mut i: usize = 0;
    while i < args.len()
        invariant
            i <= args@.len(),
            out@ == join_words(texts(args@).subrange(0, i as int)),
        decreases args@.len() - i,
    {
        assert(texts(args@).subrange(0, i + 1).drop_last() =~= texts(args@).subrange(0, i as int));
        if i > 0 {
            push_char(&mut out, ' ');
        } else {
            assert(out@ =~= Seq::<char>::empty());
        }
        push_text(&mut out, &args[i]);
        i = i + 1;
    }
    assert(texts(args@).subrange(0, args@.len() as int) =~= texts(args@));
    out
}

fn copy_text(s: &String) -> (r: String)
    ensures
        r@ == s@,
{
    s.clone()
}

/// The record of a decoded legacy message (see `legacy_record_spec`).
pub fn legacy_record(m: &LegacyMessage, storage_ts: u64) -> (r: LogRecord)
    ensures
        r@ == legacy_record_spec(*m, storage_ts),
{
    let timestamp = if storage_ts > 0 {
        Timestamp::FromStorageHeader(storage_ts)
    } else {
        let rel: u64 = match m.timestamp {
            Some(t) => t as u64 * 100,
            None => 0,
        };
        Timestamp::RelativeCandidate(clamp(rel))
    };
    let (app_id, ctx_id, level) = match &m.header {
        Some(h) => (copy_text(&h.app_id), copy_text(&h.ctx_id), level_label(&h.message_type)),
        None => (placeholder(), placeholder(), literal("UNKNOWN")),
    };
    let payload = match &m.payload {
        LegacyPayload::Verbose(args) => join_args(args),
        LegacyPayload::NonVerbose(t) => copy_text(t),
    };
    LogRecord { timestamp, app_id, ctx_id, level, payload }
}

/// What a legacy frame becomes once the structural decoder has read it:
/// a record, nothing (end of scanning), or an error when it was refused.
pub fn legacy_outcome(d: &LegacyDecode, storage_ts: u64) -> (r: Result<
    Option<LogRecord>,
    DecodeError,
>)
    ensures
        match r {
            Ok(Some(rec)) => legacy_outcome_spec(*d, storage_ts) == Ok::<
                Option<RecordView>,
                DecodeError,
            >(Some(rec@)),
            Ok(None) => legacy_outcome_spec(*d, storage_ts) == Ok::<
                Option<RecordView>,
                DecodeError,
            >(None),
            Err(e) => legacy_outcome_spec(*d, storage_ts) == Err::<Option<RecordView>, DecodeError>(
                e,
            ),
        },
{
    match d {
        LegacyDecode::Decoded(m) => Ok(Some(legacy_record(m, storage_ts))),
        LegacyDecode::Invalid => Ok(None),
        LegacyDecode::Rejected => Err(DecodeError::LegacyRejected),
    }
}

/// The bytes of the legacy frame whose marker was read just before `pos`,
/// marker included, and the position after it; none where the length field
/// is below 4.
pub open spec fn legacy_frame_spec(input: Seq<u8>, pos: int, marker: u8) -> Result<
    Option<(Seq<u8>, int)>,
    DecodeError,
> {
    if pos + 3 > input.len() {
        Err(DecodeError::Truncated)
    } else {
        let total = be_u16(input[pos + 1], input[pos + 2]);
        if total < 4 {
            Ok(None)
        } else if pos + total - 1 > input.len() {
            Err(DecodeError::Truncated)
        } else {
            Ok(Some((seq![marker] + input.subrange(pos, pos + total - 1), pos + total - 1)))
        }
    }
}

/// Cuts out the legacy frame whose first header byte `htyp` was read just
/// before `pos`: `htyp`, the counter, the big-endian length and the rest of
/// the frame, `length` bytes in all.
pub fn parse_v1_message(input: &[u8], pos: usize, htyp: u8) -> (r: Result<
    Option<(Vec<u8>, usize)>,
    DecodeError,
>)
    requires
        pos <= input@.len(),
    ensures
        match r {
            Ok(Some((bytes, next))) => legacy_frame_spec(input@, pos as int, htyp) == Ok::<
                Option<(Seq<u8>, int)>,
                DecodeError,
            >(Some((bytes@, next as int))),
            Ok(None) => legacy_frame_spec(input@, pos as int, htyp) == Ok::<
                Option<(Seq<u8>, int)>,
                DecodeError,
            >(None),
            Err(e) => legacy_frame_spec(input@, pos as int, htyp) == Err::<
                Option<(Seq<u8>, int)>,
                DecodeError,
            >(e),
        },
        r matches Ok(Some((_, next))) ==> pos < next <= input@.len(),
{
    if input.len() - pos < 3 {
        return Err(DecodeError::Truncated);
    }
    let total: usize = input[pos + 1] as usize * 256 + input[pos + 2] as usize;
    if total < 4 {
        return Ok(None);
    }
    if input.len() - pos < total - 1 {
        return Err(DecodeError::Truncated);
    }
    let end = pos + (total - 1);
    let mut bytes: Vec<u8> = Vec::new();
    bytes.push(htyp);
    let mut k: usize = pos;
    while k < end
        invariant
            pos <= k <= end <= input@.len(),
            bytes@ == seq![htyp] + input@.subrange(pos as int, k as int),
        decreases end - k,
    {
        assert(input@.subrange(pos as int, k + 1) =~= input@.subrange(pos as int, k as int).push(
            input@[k as int],
        ));
        bytes.push(input[k]);
        k = k + 1;
    }
    assert(bytes@ =~= seq![htyp] + input@.subrange(pos as int, end as int));
    Ok(Some((bytes, end)))
}

} // verus!
