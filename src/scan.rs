use vstd::prelude::*;
use crate::bytes::DecodeError;
use crate::extended::{extended_spec, parse_v2_message};
use crate::legacy::{LegacyDecode, legacy_frame_spec, legacy_outcome, legacy_outcome_spec, parse_v1_message};
use crate::record::{LogRecord, RecordView, rendered};
use crate::storage::{detect_storage_header, opens_with_magic, read_storage_header, storage_header_spec};

verus! {

/// First byte of a legacy-generation frame.
pub const LEGACY_MARKER: u8 = 0x35;

/// First byte of an extended-generation frame.
pub const EXTENDED_MARKER: u8 = 0x4c;

/// What the frame at a position gives.
pub enum Frame {
    /// No frame starts here: the input is exhausted.
    End,
    /// An extended frame, decoded, and the position after it.
    Record(LogRecord, usize),
    /// A legacy frame's bytes for the structural decoder, the storage-header
    /// time in front of it, and the position after it.
    Legacy(Vec<u8>, u64, usize),
    Failed(DecodeError),
}

pub enum FrameView {
    End,
    Record(RecordView, int),
    Legacy(Seq<u8>, u64, int),
    Failed(DecodeError),
}

impl View for Frame {
    type V = FrameView;

    open spec fn view(&self) -> FrameView {
        match self {
            Frame::End => FrameView::End,
            Frame::Record(r, n) => FrameView::Record(r@, *n as int),
            Frame::Legacy(b, t, n) => FrameView::Legacy(b@, *t, *n as int),
            Frame::Failed(e) => FrameView::Failed(*e),
        }
    }
}

/// The frame at `pos`: optional storage header, version marker, then the
/// header and body of the generation that the marker selects.
pub open spec fn frame_spec(input: Seq<u8>, pos: int, has_storage_header: bool) -> FrameView {
    match storage_header_spec(input, pos, has_storage_header) {
        Err(e) => FrameView::Failed(e),
        Ok((sts, p)) => if p >= input.len() {
            FrameView::End
        } else {
            let m = input[p];
            if m == LEGACY_MARKER {
                match legacy_frame_spec(input, p + 1, m) {
                    Err(e) => FrameView::Failed(e),
                    Ok(None) => FrameView::End,
                    Ok(Some((bytes, next))) => FrameView::Legacy(bytes, sts, next),
                }
            } else if m == EXTENDED_MARKER {
                match extended_spec(input, p + 1, m, sts) {
                    Err(e) => FrameView::Failed(e),
                    Ok((rec, next)) => FrameView::Record(rec, next),
                }
            } else {
                FrameView::Failed(DecodeError::UnknownVersion(m))
            }
        },
    }
}

/// Reads the frame at `pos`. Extended frames are decoded here; legacy
/// frames are cut out for the structural decoder.
pub fn read_v1v2_message(input: &[u8], pos: usize, has_storage_header: bool) -> (r: Frame)
    requires
        pos <= input@.len(),
    ensures
        r@ == frame_spec(input@, pos as int, has_storage_header),
        r matches Frame::Record(_, next) ==> pos < next <= input@.len(),
        r matches Frame::Legacy(_, _, next) ==> pos < next <= input@.len(),
{
    let (sts, p) = match read_storage_header(input, pos, has_storage_header) {
        Ok(v) => v,
        Err(e) => {
            return Frame::Failed(e);
        },
    };
    if p >= input.len() {
        return Frame::End;
    }
    let m = input[p];
    if m == LEGACY_MARKER {
        match parse_v1_message(input, p + 1, m) {
            Err(e) => Frame::Failed(e),
            Ok(None) => Frame::End,
            Ok(Some((bytes, next))) => Frame::Legacy(bytes, sts, next),
        }
    } else if m == EXTENDED_MARKER {
        match parse_v2_message(input, p + 1, m, sts) {
            Err(e) => Frame::Failed(e),
            Ok((rec, next)) => Frame::Record(rec, next),
        }
    } else {
        Frame::Failed(DecodeError::UnknownVersion(m))
    }
}

/// What the scanner asks of its caller next.
pub enum Step {
    /// A decoded line, without its newline, to be written out.
    Line(String),
    /// A legacy frame to be read by the structural decoder; its result goes
    /// to `Scanner::resume`.
    Decode(Vec<u8>),
    /// The input is exhausted.
    Done,
    /// Decoding stopped on an error.
    Failed(DecodeError),
}

/// Walks the frames of one input in order, counting the decoded ones.
pub struct Scanner {
    /// Whether frames carry a storage header, decided once for the input.
    pub has_storage_header: bool,
    /// File-level reference time for relative timestamps; 0 when unknown.
    pub base_timestamp: u64,
    /// Where the next frame starts.
    pub pos: usize,
    /// Frames decoded so far.
    pub count: usize,
    /// Storage-header time and end of the legacy frame handed out for decoding.
    pub pending: Option<(u64, usize)>,
}

impl Scanner {
    /// The scanner's state is consistent with `input`.
    pub open spec fn wf(&self, input: Seq<u8>) -> bool {
        &&& self.pos <= input.len()
        &&& self.pending matches Some((_, next)) ==> self.pos < next <= input.len()
        &&& self.count <= self.pos
    }

    /// Starts at the beginning of `input`; storage headers are expected on
    /// every frame when the input opens with their pattern.
    pub fn new(input: &[u8], base_timestamp: u64) -> (r: Scanner)
        ensures
            r.wf(input@),
            r.has_storage_header == opens_with_magic(input@),
            r.base_timestamp == base_timestamp,
            r.pos == 0,
            r.count == 0,
            r.pending is None,
    {
        Scanner {
            has_storage_header: detect_storage_header(input),
            base_timestamp,
            pos: 0,
            count: 0,
            pending: None,
        }
    }

    /// Reads the next frame. An extended frame comes back as its line; a
    /// legacy frame is handed out for decoding and the scanner waits for
    /// `resume`.
    pub fn next(&mut self, input: &[u8]) -> (r: Step)
        requires
            old(self).wf(input@),
            old(self).pending is None,
        ensures
            final(self).wf(input@),
            final(self).has_storage_header == old(self).has_storage_header,
            final(self).base_timestamp == old(self).base_timestamp,
            match frame_spec(input@, old(self).pos as int, old(self).has_storage_header) {
                FrameView::End => r is Done && final(self).pos == old(self).pos && final(self).count
                    == old(self).count && final(self).pending is None,
                FrameView::Failed(e) => r == Step::Failed(e) && final(self).pos == old(self).pos
                    && final(self).count == old(self).count && final(self).pending is None,
                FrameView::Record(rec, next) => r matches Step::Line(line) && line@ == rendered(
                    rec,
                    old(self).base_timestamp,
                ) && final(self).pos == next && final(self).count == old(self).count + 1
                    && final(self).pending is None,
                FrameView::Legacy(bytes, sts, next) => r matches Step::Decode(b) && b@ == bytes
                    && final(self).pos == old(self).pos && final(self).count == old(self).count
                    && final(self).pending == Some((sts, next as usize)),
            },
    {
        match read_v1v2_message(input, self.pos, self.has_storage_header) {
            Frame::End => Step::Done,
            Frame::Failed(e) => Step::Failed(e),
            Frame::Record(rec, next) => {
                let line = rec.render(self.base_timestamp);
                self.pos = next;
                self.count = self.count + 1;
                Step::Line(line)
            },
            Frame::Legacy(bytes, sts, next) => {
                self.pending = Some((sts, next));
                Step::Decode(bytes)
            },
        }
    }

    /// Takes what the structural decoder made of the legacy frame handed out
    /// by `next`: a decoded message gives its line and scanning moves past
    /// the frame; an unusable one ends scanning; a refused one is an error.
    pub fn resume(&mut self, input: &[u8], decoded: &LegacyDecode) -> (r: Step)
        requires
            old(self).wf(input@),
            old(self).pending is Some,
        ensures
            final(self).wf(input@),
            final(self).pending is None,
            final(self).has_storage_header == old(self).has_storage_header,
            final(self).base_timestamp == old(self).base_timestamp,
            match legacy_outcome_spec(*decoded, old(self).pending->Some_0.0) {
                Ok(Some(rec)) => r matches Step::Line(line) && line@ == rendered(
                    rec,
                    old(self).base_timestamp,
                ) && final(self).pos == old(self).pending->Some_0.1
                    && final(self).count == old(self).count + 1,
                Ok(None) => r is Done && final(self).pos == old(self).pos && final(self).count
                    == old(self).count,
                Err(e) => r == Step::Failed(e) && final(self).pos == old(self).pos
                    && final(self).count == old(self).count,
            },
    {
        let (sts, next) = match self.pending {
            Some(p) => p,
            None => (0, self.pos),
        };
        self.pending = None;
        match legacy_outcome(decoded, sts) {
            Ok(Some(rec)) => {
                let line = rec.render(self.base_timestamp);
                self.pos = next;
                self.count = self.count + 1;
                Step::Line(line)
            },
            Ok(None) => Step::Done,
            Err(e) => Step::Failed(e),
        }
    }
}

} // verus!
