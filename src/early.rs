use vstd::arithmetic::div_mod::{
    lemma_fundamental_div_mod, lemma_mod_decreases, lemma_mod_multiples_basic, lemma_small_mod,
};
use vstd::arithmetic::power2::{
    lemma2_to64, lemma_pow2_pos, lemma_pow2_strictly_increases, lemma_pow2_unfold, pow2,
};
use vstd::prelude::*;

verus! {

/// Why an allocator call could not be served.
#[derive(Debug, Clone, Copy, PartialEq, Eq, Structural)]
pub enum AllocError {
    /// The gap between the byte cursor and the page cursor is too small.
    NoMemory,
    /// The operation lies outside what a bump allocator can do.
    Unsupported,
}

/// `x` rounded up to the next multiple of `a`.
pub open spec fn align_up(x: int, a: int) -> int {
    if x % a == 0 {
        x
    } else {
        x + (a - x % a)
    }
}

/// `x` rounded down to a multiple of `a`.
pub open spec fn align_down(x: int, a: int) -> int {
    x - x % a
}

/// Both roundings land on a multiple of `a`, and stay within `a` of `x`.
pub proof fn lemma_align(x: int, a: int)
    requires
        x >= 0,
        a > 0,
    ensures
        align_up(x, a) % a == 0,
        x <= align_up(x, a) < x + a,
        align_down(x, a) % a == 0,
        x - a < align_down(x, a) <= x,
        0 <= align_down(x, a),
{
    lemma_mod_decreases(x as nat, a as nat);
    lemma_fundamental_div_mod(x, a);
    let q = x / a;
    lemma_mod_multiples_basic(q, a);
    lemma_mod_multiples_basic(q + 1, a);
    assert(align_down(x, a) == q * a) by (nonlinear_arith)
        requires
            x == a * q + x % a,
            align_down(x, a) == x - x % a,
    ;
    if x % a != 0 {
        assert(align_up(x, a) == (q + 1) * a) by (nonlinear_arith)
            requires
                x == a * q + x % a,
                align_up(x, a) == x + (a - x % a),
        ;
    }
}

/// What an allocator holds, as mathematical integers.
pub ghost struct AllocState {
    /// Lowest address of the region.
    pub start: nat,
    /// Address just past the region.
    pub end: nat,
    /// Next free address of the byte area, which grows upward.
    pub b_pos: nat,
    /// Lowest address of the page area, which grows downward.
    pub p_pos: nat,
    /// Number of outstanding byte allocations.
    pub count: nat,
}

impl AllocState {
    /// The cursors are ordered within the region, the region fits in an
    /// address, and a byte area with nothing outstanding is empty.
    pub open spec fn wf(self) -> bool {
        &&& self.start <= self.b_pos
        &&& self.b_pos <= self.p_pos
        &&& self.p_pos <= self.end
        &&& self.end <= usize::MAX
        &&& self.count <= usize::MAX
        &&& (self.count == 0 ==> self.b_pos == self.start)
    }

    /// The state that `init(start, size)` sets up.
    pub open spec fn fresh(start: nat, size: nat) -> AllocState {
        AllocState { start, end: start + size, b_pos: start, p_pos: start + size, count: 0 }
    }

    /// Where a byte allocation of `size` bytes aligned to `align` would end.
    pub open spec fn alloc_end(self, size: int, align: int) -> int {
        align_up(self.b_pos as int, align) + size
    }

    /// A byte allocation fits below the page cursor.
    pub open spec fn alloc_fits(self, size: int, align: int) -> bool {
        self.alloc_end(size, align) <= self.p_pos
    }

    /// A byte allocation can be served: it fits below the page cursor, and
    /// its aligned start is not the null address.
    pub open spec fn alloc_ok(self, size: int, align: int) -> bool {
        &&& self.alloc_fits(size, align)
        &&& align_up(self.b_pos as int, align) != 0
    }

    /// The state after a byte allocation that fit.
    pub open spec fn after_alloc(self, size: int, align: int) -> AllocState {
        AllocState { b_pos: self.alloc_end(size, align) as nat, count: self.count + 1, ..self }
    }

    /// The state after a byte free: one fewer outstanding allocation, and
    /// the whole byte area back when none is left.
    pub open spec fn after_dealloc(self) -> AllocState {
        if self.count == 0 {
            self
        } else if self.count == 1 {
            AllocState { b_pos: self.start, count: 0, ..self }
        } else {
            AllocState { count: (self.count - 1) as nat, ..self }
        }
    }

    /// Where a page allocation of `num_pages` pages of `page_size` bytes,
    /// aligned to `2^align_pow2`, would start.
    pub open spec fn pages_addr(self, num_pages: int, page_size: int, align_pow2: nat) -> int {
        align_down(self.p_pos - num_pages * page_size, pow2(align_pow2) as int)
    }

    /// A page allocation fits: its span lies below the page cursor and its
    /// aligned start is not below the byte cursor.
    pub open spec fn pages_fit(self, num_pages: int, page_size: int, align_pow2: nat) -> bool {
        &&& num_pages * page_size <= self.p_pos
        &&& self.pages_addr(num_pages, page_size, align_pow2) >= self.b_pos
    }

    /// The state after a page allocation at `addr`.
    pub open spec fn after_pages(self, addr: int) -> AllocState {
        AllocState { p_pos: addr as nat, ..self }
    }
}

/// The lifecycle of an allocator over one region.
pub trait BaseAllocator {
    /// What the allocator holds.
    spec fn state(&self) -> AllocState;

    /// Takes the region `[start, start + size)`, dropping whatever was
    /// allocated before.
    fn init(&mut self, start: usize, size: usize)
        requires
            start + size <= usize::MAX,
        ensures
            final(self).state() == AllocState::fresh(start as nat, size as nat),
            final(self).state().wf(),
    ;

    /// Growing the region is not supported.
    fn add_memory(&mut self, start: usize, size: usize) -> (r: Result<(), AllocError>)
        ensures
            r == Err::<(), AllocError>(AllocError::Unsupported),
            final(self).state() == old(self).state(),
    ;
}

/// Allocation of byte blocks.
pub trait ByteAllocator: BaseAllocator {
    /// Allocates `size` bytes aligned to `align` at the byte cursor, rounded
    /// up. Fails with `NoMemory`, changing nothing, exactly when the aligned
    /// end would pass the page cursor or the aligned start would be the null
    /// address (which happens only while the byte cursor is at address 0).
    fn allocate(&mut self, size: usize, align: usize) -> (r: Result<usize, AllocError>)
        requires
            old(self).state().wf(),
            align > 0,
            old(self).state().count < usize::MAX,
        ensures
            final(self).state().wf(),
            match r {
                Ok(addr) => {
                    &&& old(self).state().alloc_ok(size as int, align as int)
                    &&& addr == align_up(old(self).state().b_pos as int, align as int)
                    &&& addr != 0
                    &&& addr % align == 0
                    &&& old(self).state().b_pos <= addr
                    &&& addr + size == final(self).state().b_pos
                    &&& final(self).state().b_pos <= final(self).state().p_pos
                    &&& final(self).state() == old(self).state().after_alloc(size as int, align as int)
                },
                Err(e) => {
                    &&& e == AllocError::NoMemory
                    &&& !old(self).state().alloc_ok(size as int, align as int)
                    &&& final(self).state() == old(self).state()
                },
            },
    ;

    /// Records that one byte allocation was freed. The address and layout
    /// are not consulted: the byte area comes back whole, and only when the
    /// last outstanding allocation is freed.
    fn dealloc(&mut self, pos: usize, size: usize, align: usize)
        requires
            old(self).state().wf(),
        ensures
            final(self).state() == old(self).state().after_dealloc(),
            final(self).state().wf(),
    ;

    /// Number of outstanding byte allocations.
    fn count(&self) -> (r: usize)
        ensures
            r == self.state().count,
    ;

    /// Size of the region.
    fn total_bytes(&self) -> (r: usize)
        requires
            self.state().wf(),
        ensures
            r == self.state().end - self.state().start,
    ;

    /// Bytes taken by the byte area and the page area together.
    fn used_bytes(&self) -> (r: usize)
        requires
            self.state().wf(),
        ensures
            r == (self.state().b_pos - self.state().start) + (self.state().end - self.state().p_pos),
    ;

    /// Bytes in the gap between the two cursors.
    fn available_bytes(&self) -> (r: usize)
        requires
            self.state().wf(),
        ensures
            r == self.state().p_pos - self.state().b_pos,
    ;
}

/// Allocation of whole pages.
pub trait PageAllocator: BaseAllocator {
    /// Size of a page, in bytes.
    spec fn spec_page_size() -> nat;

    /// Size of a page.
    fn page_size(&self) -> (r: usize)
        ensures
            r == Self::spec_page_size(),
    ;

    /// Allocates `num_pages` pages below the page cursor, at an address
    /// rounded down to a multiple of `2^align_pow2`. Fails with `NoMemory`,
    /// changing nothing, exactly when the pages do not fit below the page
    /// cursor or their aligned start would fall below the byte cursor.
    fn alloc_pages(&mut self, num_pages: usize, align_pow2: usize) -> (r: Result<usize, AllocError>)
        requires
            old(self).state().wf(),
        ensures
            final(self).state().wf(),
            match r {
                Ok(addr) => {
                    &&& old(self).state().pages_fit(num_pages as int, Self::spec_page_size() as int, align_pow2 as nat)
                    &&& addr == old(self).state().pages_addr(num_pages as int, Self::spec_page_size() as int, align_pow2 as nat)
                    &&& (addr as int) % (pow2(align_pow2 as nat) as int) == 0
                    &&& addr + num_pages * Self::spec_page_size() <= old(self).state().p_pos
                    &&& final(self).state() == old(self).state().after_pages(addr as int)
                },
                Err(e) => {
                    &&& e == AllocError::NoMemory
                    &&& !old(self).state().pages_fit(num_pages as int, Self::spec_page_size() as int, align_pow2 as nat)
                    &&& final(self).state() == old(self).state()
                },
            },
    ;

    /// Freeing pages is not supported: the page area is never reclaimed.
    fn dealloc_pages(&mut self, pos: usize, num_pages: usize) -> (r: Result<(), AllocError>)
        ensures
            r == Err::<(), AllocError>(AllocError::Unsupported),
            final(self).state() == old(self).state(),
    ;

    /// Whole pages in the region.
    fn total_pages(&self) -> (r: usize)
        requires
            self.state().wf(),
            Self::spec_page_size() > 0,
        ensures
            r == (self.state().end - self.state().start) / (Self::spec_page_size() as int),
    ;

    /// Whole pages in the page area.
    fn used_pages(&self) -> (r: usize)
        requires
            self.state().wf(),
            Self::spec_page_size() > 0,
        ensures
            r == (self.state().end - self.state().p_pos) / (Self::spec_page_size() as int),
    ;

    /// Whole pages in the gap between the two cursors.
    fn available_pages(&self) -> (r: usize)
        requires
            self.state().wf(),
            Self::spec_page_size() > 0,
        ensures
            r == (self.state().p_pos - self.state().b_pos) / (Self::spec_page_size() as int),
    ;
}

/// An allocator over one region, with pages of `SIZE` bytes.
pub struct EarlyAllocator<const SIZE: usize> {
    start: usize,
    end: usize,
    b_pos: usize,
    p_pos: usize,
    count: usize,
}

impl<const SIZE: usize> View for EarlyAllocator<SIZE> {
    type V = AllocState;

    closed spec fn view(&self) -> AllocState {
        AllocState {
            start: self.start as nat,
            end: self.end as nat,
            b_pos: self.b_pos as nat,
            p_pos: self.p_pos as nat,
            count: self.count as nat,
        }
    }
}

impl<const SIZE: usize> EarlyAllocator<SIZE> {
    /// An allocator over an empty region at address zero.
    pub fn new() -> (r: Self)
        ensures
            r@ == AllocState::fresh(0, 0),
            r@.wf(),
    {
        EarlyAllocator { start: 0, end: 0, b_pos: 0, p_pos: 0, count: 0 }
    }

    /// `2^align_pow2`, computed by doubling, or `None` where it passes
    /// `usize::MAX`.
    fn pow2_checked(align_pow2: usize) -> (r: Option<usize>)
        ensures
            match r {
                Some(v) => v == pow2(align_pow2 as nat),
                None => pow2(align_pow2 as nat) > usize::MAX,
            },
    {
        proof {
            lemma2_to64();
        }
        let mut align: usize = 1;
        let mut i: usize = 0;
        while i < align_pow2
            invariant
                i <= align_pow2,
                align == pow2(i as nat),
            decreases align_pow2 - i,
        {
            proof {
                lemma_pow2_unfold((i + 1) as nat);
                if i + 1 < align_pow2 {
                    lemma_pow2_strictly_increases((i + 1) as nat, align_pow2 as nat);
                }
            }
            if align > usize::MAX / 2 {
                return None;
            }
            align = align * 2;
            i = i + 1;
        }
        Some(align)
    }
}

impl<const SIZE: usize> BaseAllocator for EarlyAllocator<SIZE> {
    open spec fn state(&self) -> AllocState {
        self@
    }

    fn init(&mut self, start: usize, size: usize)
    {
        self.start = start;
        self.end = start + size;
        self.b_pos = start;
        self.p_pos = self.end;
        self.count = 0;
    }

    fn add_memory(&mut self, start: usize, size: usize) -> (r: Result<(), AllocError>)
    {
        Err(AllocError::Unsupported)
    }
}

impl<const SIZE: usize> ByteAllocator for EarlyAllocator<SIZE> {
    fn allocate(&mut self, size: usize, align: usize) -> (r: Result<usize, AllocError>)
    {
        proof {
            lemma_align(self.b_pos as int, align as int);
        }
        let rem = self.b_pos % align;
        let aligned_pos = if rem == 0 {
            self.b_pos
        } else {
            match self.b_pos.checked_add(align - rem) {
                Some(v) => v,
                None => return Err(AllocError::NoMemory),
            }
        };
        let new_b_pos = match aligned_pos.checked_add(size) {
            Some(v) => v,
            None => return Err(AllocError::NoMemory),
        };
        if new_b_pos > self.p_pos || aligned_pos == 0 {
            return Err(AllocError::NoMemory);
        }
        self.b_pos = new_b_pos;
        self.count = self.count + 1;
        Ok(aligned_pos)
    }

    fn dealloc(&mut self, pos: usize, size: usize, align: usize)
    {
        if self.count > 0 {
            self.count = self.count - 1;
            if self.count == 0 {
                self.b_pos = self.start;
            }
        }
    }

    fn count(&self) -> (r: usize)
    {
        self.count
    }

    fn total_bytes(&self) -> (r: usize)
    {
        self.end - self.start
    }

    fn used_bytes(&self) -> (r: usize)
    {
        (self.b_pos - self.start) + (self.end - self.p_pos)
    }

    fn available_bytes(&self) -> (r: usize)
    {
        self.p_pos - self.b_pos
    }
}

impl<const SIZE: usize> PageAllocator for EarlyAllocator<SIZE> {
    open spec fn spec_page_size() -> nat {
        SIZE as nat
    }

    fn page_size(&self) -> (r: usize)
    {
        SIZE
    }

    fn alloc_pages(&mut self, num_pages: usize, align_pow2: usize) -> (r: Result<usize, AllocError>)
    {
        let align = Self::pow2_checked(align_pow2);
        let size = match num_pages.checked_mul(SIZE) {
            Some(v) => v,
            None => return Err(AllocError::NoMemory),
        };
        if size > self.p_pos {
            return Err(AllocError::NoMemory);
        }
        let top = self.p_pos - size;
        proof {
            lemma_pow2_pos(align_pow2 as nat);
            lemma_align(top as int, pow2(align_pow2 as nat) as int);
        }
        let aligned_pos = match align {
            Some(a) => top - top % a,
            None => {
                proof {
                    lemma_small_mod(top as nat, pow2(align_pow2 as nat));
                }
                0
            },
        };
        if aligned_pos < self.b_pos {
            return Err(AllocError::NoMemory);
        }
        self.p_pos = aligned_pos;
        Ok(aligned_pos)
    }

    fn dealloc_pages(&mut self, pos: usize, num_pages: usize) -> (r: Result<(), AllocError>)
    {
        Err(AllocError::Unsupported)
    }

    fn total_pages(&self) -> (r: usize)
    {
        (self.end - self.start) / SIZE
    }

    fn used_pages(&self) -> (r: usize)
    {
        (self.end - self.p_pos) / SIZE
    }

    fn available_pages(&self) -> (r: usize)
    {
        (self.p_pos - self.b_pos) / SIZE
    }
}

} // verus!
