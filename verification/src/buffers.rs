use crate::math::{
    ceil_div, div_ceil_u64, is_next_power_of_two, larger, least_power_of_two,
    least_power_of_two_bounds, max_u32, max_u64, next_power_of_two, POWER_OF_TWO_LIMIT,
};
use vstd::arithmetic::power2::pow2;
use vstd::prelude::*;

verus! {

/// The capacity a buffer is given when it must hold `needed` bytes, and at least `least`.
pub open spec fn grown_cap(needed: int, least: int) -> int {
    larger(least_power_of_two(needed), least)
}

/// The size of a device buffer that grows as frames need; none exists at first.
#[derive(Clone, Copy, Debug, PartialEq, Eq, Structural)]
pub struct Growable {
    pub cap: u64,
    pub exists: bool,
}

impl Growable {
    /// No buffer yet.
    pub open spec fn spec_absent() -> Growable {
        Growable { cap: 0, exists: false }
    }

    /// No buffer yet.
    pub fn absent() -> (g: Growable)
        ensures
            g == Growable::spec_absent(),
    {
        Growable { cap: 0, exists: false }
    }

    /// The buffer after it was asked to hold `needed` bytes.
    pub open spec fn after(self, needed: int, least: int) -> Growable {
        if self.fits(needed) {
            self
        } else {
            Growable { cap: grown_cap(needed, least) as u64, exists: true }
        }
    }

    /// The buffer exists and holds `needed` bytes.
    pub open spec fn fits(self, needed: int) -> bool {
        self.exists && self.cap >= needed
    }

    /// Makes room for `needed` bytes; true if the buffer has to be made anew, at its new
    /// capacity.
    pub fn ensure(&mut self, needed: u64, least: u64) -> (grew: bool)
        requires
            needed <= POWER_OF_TWO_LIMIT,
        ensures
            grew == !old(self).fits(needed as int),
            *final(self) == old(self).after(needed as int, least as int),
            final(self).fits(needed as int),
            grew ==> final(self).cap >= least,
    {
        if self.exists && self.cap >= needed {
            return false;
        }
        self.cap = max_u64(next_power_of_two(needed), least);
        self.exists = true;
        true
    }
}

/// A buffer never shrinks, and asking again for what it holds changes nothing.
pub proof fn buffers_only_grow(g: Growable, needed: u64, least: u64)
    requires
        needed <= POWER_OF_TWO_LIMIT,
    ensures
        g.after(needed as int, least as int).fits(needed as int),
        g.exists ==> g.after(needed as int, least as int).cap >= g.cap,
        g.after(needed as int, least as int).after(needed as int, least as int) == g.after(
            needed as int,
            least as int,
        ),
{
    least_power_of_two_bounds(needed as int);
}

/// A buffer that holds what is needed is kept. Otherwise there is one that does, and that holds
/// `least`; and it is no larger than that, or than the next power of two.
pub proof fn buffers_are_kept_while_they_hold(g: Growable, needed: u64, least: u64)
    requires
        needed <= POWER_OF_TWO_LIMIT,
    ensures
        ({
            let after = g.after(needed as int, least as int);
            &&& g.exists && needed <= g.cap ==> after == g
            &&& !(g.exists && needed <= g.cap) ==> {
                &&& after.exists
                &&& after.cap >= needed
                &&& after.cap >= least
                &&& after.cap == least || after.cap == 1 || after.cap < 2 * needed
            }
        }),
{
    least_power_of_two_bounds(needed as int);
    let p = least_power_of_two(needed as int);
    assert(is_next_power_of_two(p, needed as int));
    let k = choose|k: nat|
        p == #[trigger] pow2(k) && p >= needed && (k == 0 || pow2((k - 1) as nat) < needed);
    if k == 0 {
        vstd::arithmetic::power2::lemma2_to64();
    } else {
        vstd::arithmetic::power2::lemma_pow2_unfold(k);
    }
}

/// The bytes between two entries of a dynamically addressed uniform buffer: the entry's size,
/// rounded up to a multiple of the device's alignment.
pub open spec fn entry_stride(bind_size: int, min_align: int) -> int {
    let align = larger(min_align, 1);
    ceil_div(bind_size, align) * align
}

/// A size rounded up to a multiple of `align`.
proof fn rounded_up(size: int, align: int)
    requires
        size > 0,
        align > 0,
    ensures
        size <= ceil_div(size, align) * align < size + align,
        (ceil_div(size, align) * align) % align == 0,
        ceil_div(size, align) * align <= larger(align, 2 * size),
{
    let q = ceil_div(size, align);
    vstd::arithmetic::div_mod::lemma_fundamental_div_mod(size + align - 1, align);
    vstd::arithmetic::div_mod::lemma_mod_pos_bound(size + align - 1, align);
    assert(align * q == q * align) by (nonlinear_arith);
    vstd::arithmetic::div_mod::lemma_mod_multiples_basic(q, align);
    if size <= align {
        vstd::arithmetic::div_mod::lemma_fundamental_div_mod_converse(
            size + align - 1,
            align,
            1,
            size - 1,
        );
    }
}

/// The bytes between two entries of a dynamically addressed uniform buffer: the least multiple
/// of the device's alignment that holds an entry.
pub fn stride_for(bind_size: u64, min_align: u32) -> (stride: u64)
    requires
        0 < bind_size <= u32::MAX,
    ensures
        stride == entry_stride(bind_size as int, min_align as int),
        stride >= bind_size,
        min_align > 0 ==> stride % (min_align as u64) == 0,
        stride - bind_size < larger(min_align as int, 1),
        stride <= larger(min_align as int, 2 * bind_size),
{
    let align: u64 = max_u32(min_align, 1) as u64;
    proof {
        rounded_up(bind_size as int, align as int);
    }
    div_ceil_u64(bind_size, align) * align
}

/// Every entry begins at a multiple of the device's alignment, and ends before the next begins.
pub proof fn entries_are_aligned_and_apart(bind_size: int, min_align: int, slot: int)
    requires
        bind_size > 0,
        min_align > 0,
    ensures
        (slot * entry_stride(bind_size, min_align)) % min_align == 0,
        slot * entry_stride(bind_size, min_align) + bind_size <= (slot + 1) * entry_stride(
            bind_size,
            min_align,
        ),
{
    let (q, stride) = (ceil_div(bind_size, min_align), entry_stride(bind_size, min_align));
    rounded_up(bind_size, min_align);
    assert(slot * stride == (slot * q) * min_align) by (nonlinear_arith)
        requires
            stride == q * min_align,
    ;
    vstd::arithmetic::div_mod::lemma_mod_multiples_basic(slot * q, min_align);
    assert((slot + 1) * stride == slot * stride + stride) by (nonlinear_arith);
}

} // verus!
