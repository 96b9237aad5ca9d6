use vstd::prelude::*;
use crate::text::push_char;

verus! {

/// Largest microsecond value that fits in 16 decimal digits.
pub const MAX_TIMESTAMP: u64 = 9_999_999_999_999_999;

/// Values below this are taken as relative to an unknown origin.
pub const RELATIVE_LIMIT: u64 = 1_000_000_000_000;

/// Divides by ten until the value fits in 16 decimal digits.
pub open spec fn clamp_spec(x: nat) -> nat
    decreases x,
{
    if x > MAX_TIMESTAMP {
        clamp_spec(x / 10)
    } else {
        x
    }
}

/// The value that is rendered for a timestamp `v` of a frame, given the
/// file-level reference time `base` (0 when none is known).
pub open spec fn anchored(v: nat, base: nat) -> nat {
    if v < RELATIVE_LIMIT && base > 0 {
        clamp_spec(base + v)
    } else {
        clamp_spec(v)
    }
}

pub open spec fn pow10(k: nat) -> nat
    decreases k,
{
    if k == 0 {
        1
    } else {
        10 * pow10((k - 1) as nat)
    }
}

pub open spec fn digit_char(d: nat) -> char {
    ((d % 10) + 48) as char
}

/// The 16-digit, zero-padded decimal text of `x`.
pub open spec fn digits16(x: nat) -> Seq<char> {
    Seq::new(16, |i: int| digit_char(x / pow10((15 - i) as nat)))
}

/// Where a frame's timestamp came from.
#[derive(Clone, Copy, Debug, PartialEq, Eq, Structural)]
pub enum Timestamp {
    /// Absolute capture time taken from the storage header.
    FromStorageHeader(u64),
    /// Value decoded from the frame itself, possibly relative.
    RelativeCandidate(u64),
}

impl Timestamp {
    pub open spec fn spec_value(self) -> u64 {
        match self {
            Timestamp::FromStorageHeader(v) => v,
            Timestamp::RelativeCandidate(v) => v,
        }
    }

    pub fn value(&self) -> (r: u64)
        ensures
            r == self.spec_value(),
    {
        match self {
            Timestamp::FromStorageHeader(v) => *v,
            Timestamp::RelativeCandidate(v) => *v,
        }
    }
}

proof fn lemma_pow10_positive(k: nat)
    ensures
        pow10(k) >= 1,
    decreases k,
{
    if k > 0 {
        lemma_pow10_positive((k - 1) as nat);
    }
}

proof fn lemma_clamp_bounded(x: nat)
    ensures
        clamp_spec(x) <= MAX_TIMESTAMP,
        x <= MAX_TIMESTAMP ==> clamp_spec(x) == x,
        clamp_spec(x) <= x,
    decreases x,
{
    if x > MAX_TIMESTAMP {
        lemma_clamp_bounded(x / 10);
    }
}

/// Clamping is idempotent: a clamped value is left unchanged by a second clamp.
pub proof fn lemma_clamp_idempotent(x: u64)
    ensures
        clamp_spec(clamp_spec(x as nat)) == clamp_spec(x as nat),
{
    lemma_clamp_bounded(x as nat);
    lemma_clamp_bounded(clamp_spec(x as nat));
}

/// A rendered timestamp is always the clamp of what was decoded or anchored,
/// so it never exceeds sixteen digits.
pub proof fn lemma_anchored_fits(v: u64, base: u64)
    ensures
        anchored(v as nat, base as nat) <= MAX_TIMESTAMP,
{
    lemma_clamp_bounded(v as nat);
    lemma_clamp_bounded((base + v) as nat);
}

/// A value at or above the relative limit is never anchored: whatever the
/// base, what is rendered is the clamped value itself.
pub proof fn lemma_absolute_not_anchored(v: u64, base: u64)
    requires
        v >= RELATIVE_LIMIT,
    ensures
        anchored(v as nat, base as nat) == clamp_spec(v as nat),
{
}

/// A value below the relative limit, with a base known, is rendered as the
/// clamped sum of base and value.
pub proof fn lemma_relative_anchored(v: u64, base: u64)
    requires
        v < RELATIVE_LIMIT,
        base > 0,
    ensures
        anchored(v as nat, base as nat) == clamp_spec((base + v) as nat),
{
}

fn clamp_wide(x: u128) -> (r: u64)
    ensures
        r == clamp_spec(x as nat),
{
    let mut v: u128 = x;
    while v > MAX_TIMESTAMP as u128
        invariant
            clamp_spec(v as nat) == clamp_spec(x as nat),
        decreases v,
    {
        v = v / 10;
    }
    v as u64
}

/// Divides `x` by ten until it fits in 16 decimal digits.
pub fn clamp(x: u64) -> (r: u64)
    ensures
        r == clamp_spec(x as nat),
        r <= MAX_TIMESTAMP,
{
    proof {
        lemma_clamp_bounded(x as nat);
    }
    clamp_wide(x as u128)
}

/// Anchors a possibly relative value to `base` and clamps the result.
pub fn anchor(value: u64, base: u64) -> (r: u64)
    ensures
        r == anchored(value as nat, base as nat),
        r <= MAX_TIMESTAMP,
{
    proof {
        lemma_anchored_fits(value, base);
    }
    if value < RELATIVE_LIMIT && base > 0 {
        clamp_wide(base as u128 + value as u128)
    } else {
        clamp(value)
    }
}

/// Renders `x` as exactly 16 decimal digits, zero-padded on the left.
pub fn format_timestamp(x: u64) -> (r: String)
    ensures
        r@ == digits16(x as nat),
{
    let mut out = String::new();
    let mut p: u64 = 1_000_000_000_000_000;
    let mut i: usize = 0;
    assert(p == pow10(15)) by {
        reveal_with_fuel(pow10, 16);
    }
    while i < 16
        invariant
            i <= 16,
            i < 16 ==> p as nat == pow10((15 - i) as nat),
            p >= 1,
            out@.len() == i,
            forall|j: int| 0 <= j < i ==> out@[j] == digits16(x as nat)[j],
        decreases 16 - i,
    {
        let d: u64 = (x / p) % 10;
        let c: char = ((d as u8) + 48u8) as char;
        assert(c == digit_char((x / p) as nat));
        push_char(&mut out, c);
        if i < 15 {
            assert(pow10((15 - i) as nat) == 10 * pow10((15 - (i + 1)) as nat));
            proof {
                lemma_pow10_positive((15 - (i + 1)) as nat);
            }
            p = p / 10;
        }
        i = i + 1;
    }
    assert(out@ =~= digits16(x as nat));
    out
}

} // verus!
