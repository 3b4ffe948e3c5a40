//! Comparing identifiers with byte strings.
use vstd::prelude::*;
use crate::syn_generic::tokens::{Ident, bytes_to_vec};

verus! {

/// The bytes an identifier displays as, when they fit in `N`.
pub struct IdentToBuf<const N: usize> {
    bytes: Vec<u8>,
}

impl<const N: usize> IdentToBuf<N> {
    pub closed spec fn spec_bytes(&self) -> Seq<u8> {
        self.bytes@
    }

    /// At most `N` bytes are held.
    pub closed spec fn wf(&self) -> bool {
        self.bytes@.len() <= N
    }

    /// The bytes of `ident`, which fit in `N`.
    pub fn from_ident(ident: &Ident) -> (r: Self)
        requires
            ident.name@.len() <= N,
        ensures
            r.wf(),
            r.spec_bytes() == ident.name@,
    {
        IdentToBuf { bytes: bytes_to_vec(ident.name.as_slice()) }
    }

    /// The bytes.
    pub fn as_slice(&self) -> (r: &[u8])
        ensures
            r@ == self.spec_bytes(),
    {
        self.bytes.as_slice()
    }
}

/// The largest of the numbers, or zero.
pub open spec fn seq_max(s: Seq<usize>) -> nat
    decreases s.len(),
{
    if s.len() == 0 {
        0
    } else {
        let m = seq_max(s.drop_last());
        if s.last() > m {
            s.last() as nat
        } else {
            m
        }
    }
}

/// The largest of the numbers, which are at least one.
pub fn max<const N: usize>(nums: [usize; N]) -> (r: usize)
    requires
        N > 0,
    ensures
        r == seq_max(nums@),
{
    let mut i: usize = 0;
    let mut m: usize = 0;
    while i < N
        invariant
            i <= N,
            nums@.len() == N,
            m == seq_max(nums@.subrange(0, i as int)),
        decreases N - i,
    {
        assert(nums@.subrange(0, i as int + 1).drop_last() =~= nums@.subrange(0, i as int));
        if nums[i] > m {
            m = nums[i];
        }
        i = i + 1;
    }
    assert(nums@.subrange(0, N as int) =~= nums@);
    m
}

} // verus!
