use vstd::prelude::*;
use crate::text::{push_char, push_text};

verus! {

/// A byte that is kept in a text run: printable ASCII.
pub open spec fn printable(b: u8) -> bool {
    32 <= b <= 126
}

/// Appends a finished run to the output when it holds at least two
/// characters, separated by one space from what is already there.
pub open spec fn flush_run(out: Seq<char>, run: Seq<char>) -> Seq<char> {
    if run.len() >= 2 {
        if out.len() == 0 {
            run
        } else {
            out + seq![' '] + run
        }
    } else {
        out
    }
}

/// Output so far and the pending run after scanning all of `s`.
pub open spec fn run_state(s: Seq<u8>) -> (Seq<char>, Seq<char>)
    decreases s.len(),
{
    if s.len() == 0 {
        (Seq::empty(), Seq::empty())
    } else {
        let (out, run) = run_state(s.drop_last());
        let b = s.last();
        if printable(b) {
            (out, run.push(b as char))
        } else {
            (flush_run(out, run), Seq::empty())
        }
    }
}

/// The printable runs of `s` that hold at least two bytes, joined by spaces.
pub open spec fn sanitized(s: Seq<u8>) -> Seq<char> {
    flush_run(run_state(s).0, run_state(s).1)
}

fn flush_into(out: &mut String, run: &String, run_len: usize)
    requires
        run_len == run@.len(),
    ensures
        final(out)@ == flush_run(old(out)@, run@),
{
    if run_len >= 2 {
        if !out.as_str().is_empty() {
            push_char(out, ' ');
        }
        push_text(out, run);
    }
}

/// Keeps the runs of printable ASCII bytes (32 to 126) of `buf` that are at
/// least two bytes long, separated by single spaces.
pub fn clean_payload(buf: &[u8]) -> (r: String)
    ensures
        r@ == sanitized(buf@),
{
    let mut payload = String::new();
    let mut segment = String::new();
    let mut seg_len: usize = 0;
    let mut i: usize = 0;
    while i < buf.len()
        invariant
            i <= buf@.len(),
            seg_len == segment@.len(),
            seg_len <= i,
            (payload@, segment@) == run_state(buf@.subrange(0, i as int)),
        decreases buf@.len() - i,
    {
        let b = buf[i];
        assert(buf@.subrange(0, i + 1).drop_last() =~= buf@.subrange(0, i as int));
        if b >= 32 && b <= 126 {
            push_char(&mut segment, b as char);
            seg_len = seg_len + 1;
        } else {
            flush_into(&mut payload, &segment, seg_len);
            segment = String::new();
            seg_len = 0;
        }
        i = i + 1;
    }
    assert(buf@.subrange(0, buf@.len() as int) =~= buf@);
    flush_into(&mut payload, &segment, seg_len);
    payload
}

} // verus!
