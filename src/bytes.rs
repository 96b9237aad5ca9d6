use vstd::prelude::*;

verus! {

/// Why decoding stopped before the end of the input.
#[derive(Clone, Copy, Debug, PartialEq, Eq, Structural)]
pub enum DecodeError {
    /// The byte where a frame starts is neither of the two version markers.
    UnknownVersion(u8),
    /// A field of a frame runs past the end of the input.
    Truncated,
    /// An extended frame's length is smaller than its own header fields.
    MalformedLength,
    /// The structural decoder did not accept a legacy frame.
    LegacyRejected,
}

/// Little-endian value of a byte sequence.
pub open spec fn le_value(s: Seq<u8>) -> nat
    decreases s.len(),
{
    if s.len() == 0 {
        0
    } else {
        s[0] as nat + 256 * le_value(s.drop_first())
    }
}

pub open spec fn pow256(n: nat) -> nat
    decreases n,
{
    if n == 0 {
        1
    } else {
        256 * pow256((n - 1) as nat)
    }
}

/// Big-endian 16-bit value of two bytes.
pub open spec fn be_u16(hi: u8, lo: u8) -> nat {
    hi as nat * 256 + lo as nat
}

proof fn lemma_pow256_steps(n: nat)
    requires
        n <= 8,
    ensures
        pow256(n) <= pow256(8),
        pow256(8) == 0x1_0000_0000_0000_0000nat,
        pow256(4) == 0x1_0000_0000nat,
    decreases 8 - n,
{
    reveal_with_fuel(pow256, 9);
    if n < 8 {
        lemma_pow256_steps(n + 1);
    }
}

/// Reads `n` bytes at `at` as a little-endian unsigned value.
pub fn read_le(input: &[u8], at: usize, n: usize) -> (r: u64)
    requires
        n <= 8,
        at + n <= input@.len(),
    ensures
        r as nat == le_value(input@.subrange(at as int, at + n)),
        r < pow256(n as nat),
        n == 4 ==> r < 0x1_0000_0000u64,
{
    let mut v: u64 = 0;
    let mut k: usize = n;
    let len = input.len();
    proof {
        lemma_pow256_steps(n as nat);
    }
    assert(input@.subrange(at + n, at + n) =~= Seq::<u8>::empty());
    while k > 0
        invariant
            k <= n <= 8,
            at + n <= input@.len(),
            len == input@.len(),
            v as nat == le_value(input@.subrange(at + k, at + n)),
            (v as nat) < pow256((n - k) as nat),
            pow256(n as nat) <= pow256(8),
            pow256(8) == 0x1_0000_0000_0000_0000nat,
        decreases k,
    {
        let b = input[at + (k - 1)];
        let ghost old_v = v as nat;
        let ghost p = pow256((n - k) as nat);
        assert(input@.subrange(at + k - 1, at + n).drop_first() =~= input@.subrange(
            at + k,
            at + n,
        ));
        proof {
            lemma_pow256_steps((n - k + 1) as nat);
            assert(pow256((n - k + 1) as nat) == 256 * p);
            assert(old_v * 256 + (b as nat) < 256 * p) by (nonlinear_arith)
                requires
                    old_v < p,
                    b < 256,
            ;
            reveal_with_fuel(pow256, 2);
        }
        v = v * 256 + b as u64;
        k = k - 1;
    }
    proof {
        lemma_pow256_steps(4);
    }
    v
}

} // verus!
