use vstd::prelude::*;

verus! {

/// Whether bit `i` of `mask` is set.
pub open spec fn mask_bit(mask: u16, i: int) -> bool {
    0 <= i < 16 && mask & (1u16 << (i as u16)) != 0
}

/// The indices below `n` of the set bits of `mask`, in ascending order.
pub open spec fn set_bits(mask: u16, n: nat) -> Seq<u8>
    decreases n,
{
    if n == 0 {
        Seq::empty()
    } else if mask_bit(mask, n - 1) {
        set_bits(mask, (n - 1) as nat).push((n - 1) as u8)
    } else {
        set_bits(mask, (n - 1) as nat)
    }
}

proof fn lemma_set_bits_bounds(mask: u16, n: nat)
    requires
        n <= 16,
    ensures
        forall|k: int| 0 <= k < set_bits(mask, n).len() ==> {
            &&& set_bits(mask, n)[k] < n
            &&& mask_bit(mask, set_bits(mask, n)[k] as int)
        },
    decreases n,
{
    if n > 0 {
        lemma_set_bits_bounds(mask, (n - 1) as nat);
        let prev = set_bits(mask, (n - 1) as nat);
        if mask_bit(mask, n - 1) {
            assert forall|k: int| 0 <= k < set_bits(mask, n).len() implies {
                &&& set_bits(mask, n)[k] < n
                &&& mask_bit(mask, set_bits(mask, n)[k] as int)
            } by {
                if k < prev.len() {
                    assert(set_bits(mask, n)[k] == prev[k]);
                }
            }
        }
    }
}

/// Collects the indices of the set bits among the lowest `width` bits of `mask`.
fn collect_bits(mask: u16, width: u16) -> (r: Vec<u8>)
    requires
        width <= 16,
    ensures
        r@ == set_bits(mask, width as nat),
{
    let mut r: Vec<u8> = Vec::new();
    let mut t: u16 = 0;
    while t < width
        invariant
            t <= width <= 16,
            r@ == set_bits(mask, t as nat),
        decreases width - t,
    {
        if mask & (1u16 << t) != 0 {
            r.push(t as u8);
        }
        t = t + 1;
    }
    r
}

/// The indices (0 to 7) of the set bits of an 8-bit mask, in ascending order.
pub fn iter_bits_u8(mask: u8) -> (r: Vec<u8>)
    ensures
        r@ == set_bits(mask as u16, 8),
        forall|k: int| 0 <= k < r@.len() ==> r@[k] < 8 && mask_bit(mask as u16, r@[k] as int),
{
    proof {
        lemma_set_bits_bounds(mask as u16, 8);
    }
    collect_bits(mask as u16, 8)
}

/// The indices (0 to 15) of the set bits of a 16-bit mask, in ascending order.
pub fn iter_bits_u16(mask: u16) -> (r: Vec<u8>)
    ensures
        r@ == set_bits(mask, 16),
        forall|k: int| 0 <= k < r@.len() ==> r@[k] < 16 && mask_bit(mask, r@[k] as int),
{
    proof {
        lemma_set_bits_bounds(mask, 16);
    }
    collect_bits(mask, 16)
}

} // verus!
