use vstd::prelude::*;

verus! {

/// `align` is a power of two.
pub open spec fn is_power_of_two(align: usize) -> bool {
    align > 0 && align & ((align - 1) as usize) == 0
}

/// `offset` rounded up to a multiple of the power of two `align`.
pub open spec fn align_up(offset: usize, align: usize) -> usize {
    ((offset + align - 1) as usize) & !((align - 1) as usize)
}

/// Rounding up gives the first offset at or after `offset` whose low bits,
/// below `align`, are clear.
pub proof fn lemma_align_up(offset: usize, align: usize)
    requires
        is_power_of_two(align),
        offset + align - 1 <= usize::MAX,
    ensures
        align_up(offset, align) & ((align - 1) as usize) == 0,
        offset <= align_up(offset, align),
        align_up(offset, align) < offset + align,
{
    let x = (offset + align - 1) as usize;
    let m = (align - 1) as usize;
    assert((x & !m) & m == 0 && (x & !m) <= x && x - (x & !m) <= m) by (bit_vector)
        requires
            m == (align - 1) as usize,
            align > 0,
            align & m == 0,
    ;
}

/// Reservations made one after another do not overlap: the second starts
/// at or after the end of the first.
pub proof fn lemma_reservations_disjoint(offset: usize, size1: usize, align1: usize, align2: usize)
    requires
        is_power_of_two(align1),
        is_power_of_two(align2),
        offset + align1 <= usize::MAX,
        align_up(offset, align1) + size1 + align2 <= usize::MAX,
    ensures
        align_up(offset, align1) + size1 <= align_up((align_up(offset, align1) + size1) as usize, align2),
{
    lemma_align_up(offset, align1);
    lemma_align_up((align_up(offset, align1) + size1) as usize, align2);
}

/// Hands out space from a fixed buffer, one reservation after another.
pub trait Allocator {
    /// A reservation of `size` bytes aligned to `align` fits in what is left.
    spec fn fits(&self, size: usize, align: usize) -> bool;

    /// Reserves `size` bytes aligned to the power of two `align` and
    /// returns the offset of the reservation.
    fn allocate(&mut self, size: usize, align: usize) -> (offset: usize)
        requires
            is_power_of_two(align),
            old(self).fits(size, align),
    ;
}

/// A bump allocator over an `N`-byte buffer.
#[derive(Debug)]
pub struct Arena<const N: usize> {
    pub buffer: [u8; N],
    pub offset: usize,
}

impl<const N: usize> Arena<N> {
    /// An arena with nothing reserved.
    pub fn new() -> (a: Self)
        ensures
            a.offset == 0,
            forall|i: int| 0 <= i < N ==> a.buffer@[i] == 0,
    {
        Arena { buffer: [0u8; N], offset: 0 }
    }

    /// Whether a reservation of `size` bytes aligned to `align` fits.
    pub fn can_alloc(&self, size: usize, align: usize) -> (b: bool)
        requires
            is_power_of_two(align),
        ensures
            b == self.fits(size, align),
    {
        if self.offset > usize::MAX - align {
            return false;
        }
        let aligned_offset = (self.offset + align - 1) & !(align - 1);
        aligned_offset <= N && size <= N - aligned_offset
    }
}

impl<const N: usize> Allocator for Arena<N> {
    /// The reservation of `size` bytes aligned to `align` fits: rounding the
    /// offset up does not overflow, and the end stays within the buffer.
    open spec fn fits(&self, size: usize, align: usize) -> bool {
        &&& self.offset + align <= usize::MAX
        &&& align_up(self.offset, align) + size <= N
    }

    /// Reserves `size` bytes at the first offset aligned to `align` at or
    /// after the current one, and moves the current offset past them. The
    /// reservation must fit (the arena is out of memory otherwise).
    fn allocate(&mut self, size: usize, align: usize) -> (r: usize)
        ensures
            r == align_up(old(self).offset, align),
            r & ((align - 1) as usize) == 0,
            old(self).offset <= r < old(self).offset + align,
            final(self).offset == r + size,
            final(self).buffer == old(self).buffer,
    {
        proof {
            lemma_align_up(self.offset, align);
        }
        let aligned_offset = (self.offset + align - 1) & !(align - 1);
        self.offset = aligned_offset + size;
        aligned_offset
    }
}

} // verus!
