use vstd::prelude::*;

verus! {

/// A uniquely identified asset: an opaque 16-byte genome, fixed at birth and
/// never mutated afterwards.
#[derive(Clone, Copy, Debug)]
pub struct Kitty(pub [u8; 16]);

/// One offspring byte: each bit comes from parent byte `a` where the selector
/// bit is 1, and from parent byte `b` where it is 0.
pub open spec fn combine_byte(a: u8, b: u8, s: u8) -> u8 {
    (a & s) | (b & !s)
}

/// The offspring genome: a per-bit multiplexer of the two parent genomes under
/// the selector mask.
pub open spec fn combine_genome(a: Seq<u8>, b: Seq<u8>, s: Seq<u8>) -> Seq<u8> {
    Seq::new(16, |i: int| combine_byte(a[i], b[i], s[i]))
}

/// Combines two parent genomes under a selector mask.
///
/// Pure and total: every byte of the result is exactly the per-bit multiplex
/// of the corresponding parent bytes.
pub fn combine(a: &[u8; 16], b: &[u8; 16], s: &[u8; 16]) -> (r: [u8; 16])
    ensures
        r@ == combine_genome(a@, b@, s@),
{
    let mut data = [0u8; 16];
    let mut i: usize = 0;
    while i < 16
        invariant
            i <= 16,
            forall|j: int| 0 <= j < i ==> data@[j] == combine_byte(a@[j], b@[j], s@[j]),
        decreases 16 - i,
    {
        data[i] = (a[i] & s[i]) | (b[i] & !s[i]);
        i = i + 1;
    }
    proof {
        assert(data@ =~= combine_genome(a@, b@, s@));
    }
    data
}

} // verus!
