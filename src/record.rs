use vstd::prelude::*;
use vstd::string::StringExecFns;
use crate::text::{push_char, push_text};
use crate::timestamp::{Timestamp, anchor, anchored, digits16, format_timestamp};

verus! {

/// One decoded frame, before it is written out.
pub struct LogRecord {
    pub timestamp: Timestamp,
    pub app_id: String,
    pub ctx_id: String,
    pub level: String,
    pub payload: String,
}

/// What a record holds, with its texts as character sequences.
pub struct RecordView {
    pub timestamp: Timestamp,
    pub app_id: Seq<char>,
    pub ctx_id: Seq<char>,
    pub level: Seq<char>,
    pub payload: Seq<char>,
}

impl View for LogRecord {
    type V = RecordView;

    open spec fn view(&self) -> RecordView {
        RecordView {
            timestamp: self.timestamp,
            app_id: self.app_id@,
            ctx_id: self.ctx_id@,
            level: self.level@,
            payload: self.payload@,
        }
    }
}

/// The identifier written where a frame names no application or context.
pub open spec fn placeholder_id() -> Seq<char> {
    seq!['-', '-', '-', '-']
}

/// The output line of a record whose rendered timestamp is `ts`:
/// `[ts][app ctx][level] payload`.
pub open spec fn line_text(ts: nat, r: RecordView) -> Seq<char> {
    seq!['['] + digits16(ts) + seq![']', '['] + r.app_id + seq![' '] + r.ctx_id + seq![']', '[']
        + r.level + seq![']', ' '] + r.payload
}

/// The output line of `r` once its timestamp is anchored to `base`.
pub open spec fn rendered(r: RecordView, base: u64) -> Seq<char> {
    line_text(anchored(r.timestamp.spec_value() as nat, base as nat), r)
}

pub(crate) fn placeholder() -> (r: String)
    ensures
        r@ == placeholder_id(),
{
    proof {
        reveal_strlit("----");
    }
    String::from_str("----")
}

pub(crate) fn literal(s: &str) -> (r: String)
    ensures
        r@ == s@,
{
    String::from_str(s)
}

impl LogRecord {
    /// Renders the record as one line, anchoring a relative timestamp to
    /// `base_timestamp` and clamping the value to 16 digits first.
    pub fn render(&self, base_timestamp: u64) -> (r: String)
        ensures
            r@ == rendered(self@, base_timestamp),
    {
        let ts = anchor(self.timestamp.value(), base_timestamp);
        let mut out = String::new();
        push_char(&mut out, '[');
        let digits = format_timestamp(ts);
        push_text(&mut out, &digits);
        push_char(&mut out, ']');
        push_char(&mut out, '[');
        push_text(&mut out, &self.app_id);
        push_char(&mut out, ' ');
        push_text(&mut out, &self.ctx_id);
        push_char(&mut out, ']');
        push_char(&mut out, '[');
        push_text(&mut out, &self.level);
        push_char(&mut out, ']');
        push_char(&mut out, ' ');
        push_text(&mut out, &self.payload);
        assert(out@ =~= rendered(self@, base_timestamp));
        out
    }
}

} // verus!
