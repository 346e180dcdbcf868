use vstd::prelude::*;

verus! {

/// Copies `input` to the front of `out` and returns the number of bytes
/// copied. The rest of `out` keeps its content.
pub fn copy_memory(input: &[u8], out: &mut [u8]) -> (count: usize)
    requires
        input@.len() <= old(out)@.len(),
    ensures
        count == input@.len(),
        final(out)@ == input@ + old(out)@.skip(input@.len() as int),
{
    let n = input.len();
    let mut i: usize = 0;
    while i < n
        invariant
            n == input@.len(),
            i <= n,
            out@.len() == old(out)@.len(),
            n <= out@.len(),
            forall|k: int| 0 <= k < i ==> out@[k] == input@[k],
            forall|k: int| i <= k < out@.len() ==> out@[k] == old(out)@[k],
        decreases n - i,
    {
        out[i] = input[i];
        i += 1;
    }
    proof {
        assert(out@ =~= input@ + old(out)@.skip(n as int));
    }
    n
}

/// Appends `count` zero bytes to `out`.
pub fn push_zeros(out: &mut Vec<u8>, count: usize)
    ensures
        final(out)@ == old(out)@ + zeros(count as nat),
{
    let mut i: usize = 0;
    while i < count
        invariant
            i <= count,
            out@ == old(out)@ + zeros(i as nat),
        decreases count - i,
    {
        out.push(0u8);
        proof {
            assert(out@ =~= old(out)@ + zeros((i + 1) as nat));
        }
        i += 1;
    }
}

/// A sequence of `count` zero bytes.
pub open spec fn zeros(count: nat) -> Seq<u8> {
    Seq::new(count, |i: int| 0u8)
}

/// Copies a slice into a fresh vector.
pub fn to_vec(input: &[u8]) -> (out: Vec<u8>)
    ensures
        out@ == input@,
{
    let mut out: Vec<u8> = Vec::new();
    out.extend_from_slice(input);
    out
}

/// A slice of 32 bytes as an array.
pub fn to_array32(input: &[u8]) -> (out: [u8; 32])
    requires
        input@.len() == 32,
    ensures
        out@ == input@,
{
    let mut out = [0u8; 32];
    let mut i: usize = 0;
    while i < 32
        invariant
            i <= 32,
            input@.len() == 32,
            out@.len() == 32,
            forall|k: int| 0 <= k < i ==> out@[k] == input@[k],
        decreases 32 - i,
    {
        out[i] = input[i];
        i += 1;
    }
    proof {
        assert(out@ =~= input@);
    }
    out
}

} // verus!
