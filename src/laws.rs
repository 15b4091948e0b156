//! Properties of sequences of allocator calls, stated over [`AllocState`]
//! and the same spec functions that the operations' contracts use.
use crate::early::{align_up, lemma_align, AllocState};
use vstd::arithmetic::power2::{lemma_pow2_pos, pow2};
use vstd::prelude::*;

verus! {

/// One successful byte allocation, as `allocate` reports it: from `pre` to
/// `post`, `size` bytes aligned to `align` were handed out at `addr`.
pub open spec fn alloc_step(pre: AllocState, size: nat, align: nat, addr: int, post: AllocState) -> bool {
    &&& align > 0
    &&& pre.count < usize::MAX
    &&& pre.alloc_ok(size as int, align as int)
    &&& addr == align_up(pre.b_pos as int, align as int)
    &&& post == pre.after_alloc(size as int, align as int)
}

/// `states[i]` goes to `states[i + 1]` by the byte allocation of
/// `sizes[i]` bytes aligned to `aligns[i]`, handed out at `addrs[i]`.
pub open spec fn alloc_chain(
    states: Seq<AllocState>,
    sizes: Seq<nat>,
    aligns: Seq<nat>,
    addrs: Seq<int>,
) -> bool {
    &&& states.len() == sizes.len() + 1
    &&& aligns.len() == sizes.len()
    &&& addrs.len() == sizes.len()
    &&& forall|i: int|
        0 <= i < sizes.len() ==> #[trigger] alloc_step(
            states[i],
            sizes[i],
            aligns[i],
            addrs[i],
            states[i + 1],
        )
}

/// One successful page allocation, as `alloc_pages` reports it.
pub open spec fn pages_step(
    pre: AllocState,
    num_pages: nat,
    page_size: nat,
    align_pow2: nat,
    addr: int,
    post: AllocState,
) -> bool {
    &&& pre.pages_fit(num_pages as int, page_size as int, align_pow2)
    &&& addr == pre.pages_addr(num_pages as int, page_size as int, align_pow2)
    &&& post == pre.after_pages(addr)
}

/// `states[i]` goes to `states[i + 1]` by the allocation of `nums[i]` pages
/// of `page_size` bytes aligned to `2^pows[i]`, handed out at `addrs[i]`.
pub open spec fn pages_chain(
    states: Seq<AllocState>,
    nums: Seq<nat>,
    page_size: nat,
    pows: Seq<nat>,
    addrs: Seq<int>,
) -> bool {
    &&& states.len() == nums.len() + 1
    &&& pows.len() == nums.len()
    &&& addrs.len() == nums.len()
    &&& forall|i: int|
        0 <= i < nums.len() ==> #[trigger] pages_step(
            states[i],
            nums[i],
            page_size,
            pows[i],
            addrs[i],
            states[i + 1],
        )
}

/// `s` after `k` byte frees.
pub open spec fn dealloc_times(s: AllocState, k: nat) -> AllocState
    decreases k,
{
    if k == 0 {
        s
    } else {
        dealloc_times(s, (k - 1) as nat).after_dealloc()
    }
}

/// A freshly set up region is all available: its size is the total, nothing
/// is used, and everything is available.
pub proof fn lemma_fresh_accounting(start: nat, size: nat)
    requires
        start + size <= usize::MAX,
    ensures
        AllocState::fresh(start, size).wf(),
        AllocState::fresh(start, size).end - AllocState::fresh(start, size).start == size,
        (AllocState::fresh(start, size).b_pos - AllocState::fresh(start, size).start) + (
        AllocState::fresh(start, size).end - AllocState::fresh(start, size).p_pos) == 0,
        AllocState::fresh(start, size).p_pos - AllocState::fresh(start, size).b_pos == size,
{
}

/// Along a chain of byte allocations every state is well formed, the byte
/// cursor never moves down, one more allocation is outstanding at each step,
/// and the other fields stay.
proof fn lemma_alloc_chain_prefix(
    states: Seq<AllocState>,
    sizes: Seq<nat>,
    aligns: Seq<nat>,
    addrs: Seq<int>,
    j: int,
)
    requires
        alloc_chain(states, sizes, aligns, addrs),
        states[0].wf(),
        0 <= j <= sizes.len(),
    ensures
        states[j].wf(),
        states[j].count == states[0].count + j,
        states[j].start == states[0].start,
        states[j].end == states[0].end,
        states[j].p_pos == states[0].p_pos,
        forall|i: int| 0 <= i <= j ==> states[i].b_pos <= #[trigger] states[j].b_pos,
    decreases j,
{
    if j > 0 {
        lemma_alloc_chain_prefix(states, sizes, aligns, addrs, j - 1);
        let i = j - 1;
        assert(alloc_step(states[i], sizes[i], aligns[i], addrs[i], states[i + 1]));
        lemma_align(states[i].b_pos as int, aligns[i] as int);
    }
}

/// The blocks that a run of successful byte allocations hands out are each
/// aligned as asked and away from the null address, lie in order between the byte cursor at the start and
/// the page cursor, and do not overlap one another.
pub proof fn lemma_alloc_disjoint(
    states: Seq<AllocState>,
    sizes: Seq<nat>,
    aligns: Seq<nat>,
    addrs: Seq<int>,
)
    requires
        alloc_chain(states, sizes, aligns, addrs),
        states[0].wf(),
    ensures
        forall|i: int| 0 <= i < sizes.len() ==> #[trigger] addrs[i] % (aligns[i] as int) == 0,
        forall|i: int|
            0 <= i < sizes.len() ==> #[trigger] addrs[i] != 0 && states[0].b_pos <= addrs[i]
                && addrs[i] + sizes[i] <= states[0].p_pos,
        forall|i: int, j: int|
            0 <= i < j < sizes.len() ==> #[trigger] addrs[i] + sizes[i] <= #[trigger] addrs[j],
{
    let n = sizes.len() as int;
    lemma_alloc_chain_prefix(states, sizes, aligns, addrs, n);
    assert forall|i: int| 0 <= i < n implies {
        &&& addrs[i] % (aligns[i] as int) == 0
        &&& addrs[i] != 0
        &&& states[0].b_pos <= addrs[i]
        &&& addrs[i] + sizes[i] <= states[0].p_pos
        &&& addrs[i] + sizes[i] == states[i + 1].b_pos
        &&& addrs[i] >= states[i].b_pos
    } by {
        lemma_alloc_chain_prefix(states, sizes, aligns, addrs, i);
        lemma_alloc_chain_prefix(states, sizes, aligns, addrs, i + 1);
        assert(alloc_step(states[i], sizes[i], aligns[i], addrs[i], states[i + 1]));
        lemma_align(states[i].b_pos as int, aligns[i] as int);
    }
    assert forall|i: int, j: int| 0 <= i < j < n implies #[trigger] addrs[i] + sizes[i]
        <= #[trigger] addrs[j] by {
        lemma_alloc_chain_prefix(states, sizes, aligns, addrs, j);
        assert(states[i + 1].b_pos <= states[j].b_pos);
    }
}

/// While allocations remain outstanding, a byte free gives back no space;
/// once all of them are freed, the whole byte area is back.
proof fn lemma_dealloc_times(s: AllocState, k: nat)
    requires
        s.wf(),
        k <= s.count,
    ensures
        dealloc_times(s, k).wf(),
        dealloc_times(s, k).count == s.count - k,
        dealloc_times(s, k).start == s.start,
        dealloc_times(s, k).end == s.end,
        dealloc_times(s, k).p_pos == s.p_pos,
        k < s.count ==> dealloc_times(s, k).b_pos == s.b_pos,
        k == s.count ==> dealloc_times(s, k).b_pos == s.start,
    decreases k,
{
    if k > 0 {
        lemma_dealloc_times(s, (k - 1) as nat);
    }
}

/// Starting with no byte allocation outstanding, `n` successful byte
/// allocations followed by `n` frees, in whatever order, give back the
/// whole byte area with the last free and none of it before: the space
/// available is then all that the page area does not hold.
pub proof fn lemma_bulk_reclaim(
    states: Seq<AllocState>,
    sizes: Seq<nat>,
    aligns: Seq<nat>,
    addrs: Seq<int>,
)
    requires
        alloc_chain(states, sizes, aligns, addrs),
        states[0].wf(),
        states[0].count == 0,
    ensures
        forall|k: nat|
            k < sizes.len() ==> (#[trigger] dealloc_times(states[sizes.len() as int], k)).b_pos
                == states[sizes.len() as int].b_pos,
        dealloc_times(states[sizes.len() as int], sizes.len()).b_pos == states[0].start,
        dealloc_times(states[sizes.len() as int], sizes.len()).count == 0,
        dealloc_times(states[sizes.len() as int], sizes.len()).p_pos - dealloc_times(
            states[sizes.len() as int],
            sizes.len(),
        ).b_pos == (states[0].end - states[0].start) - (states[0].end - states[0].p_pos),
{
    let n = sizes.len() as int;
    lemma_alloc_chain_prefix(states, sizes, aligns, addrs, n);
    lemma_dealloc_times(states[n], n as nat);
    assert forall|k: nat| k < sizes.len() implies (#[trigger] dealloc_times(
        states[n],
        k,
    )).b_pos == states[n].b_pos by {
        lemma_dealloc_times(states[n], k);
    }
}

/// Along a chain of page allocations the byte side stays, and the page
/// cursor never moves up.
proof fn lemma_pages_chain_prefix(
    states: Seq<AllocState>,
    nums: Seq<nat>,
    page_size: nat,
    pows: Seq<nat>,
    addrs: Seq<int>,
    j: int,
)
    requires
        pages_chain(states, nums, page_size, pows, addrs),
        states[0].wf(),
        0 <= j <= nums.len(),
    ensures
        states[j].wf(),
        states[j].start == states[0].start,
        states[j].end == states[0].end,
        states[j].b_pos == states[0].b_pos,
        states[j].count == states[0].count,
        forall|i: int| 0 <= i <= j ==> #[trigger] states[j].p_pos <= states[i].p_pos,
    decreases j,
{
    if j > 0 {
        lemma_pages_chain_prefix(states, nums, page_size, pows, addrs, j - 1);
        let i = j - 1;
        assert(pages_step(states[i], nums[i], page_size, pows[i], addrs[i], states[i + 1]));
        lemma_pow2_pos(pows[i]);
        lemma_align(
            states[i].p_pos - nums[i] * page_size,
            pow2(pows[i]) as int,
        );
    }
}

/// The page blocks that a run of successful page allocations hands out are
/// each aligned as asked and lie below the page cursor they started from,
/// which each call lowers to the block's start; no two of them overlap, and
/// none reaches below the byte cursor.
pub proof fn lemma_pages_disjoint(
    states: Seq<AllocState>,
    nums: Seq<nat>,
    page_size: nat,
    pows: Seq<nat>,
    addrs: Seq<int>,
)
    requires
        pages_chain(states, nums, page_size, pows, addrs),
        states[0].wf(),
    ensures
        forall|i: int| 0 <= i < nums.len() ==> #[trigger] addrs[i] % (pow2(pows[i]) as int) == 0,
        forall|i: int|
            0 <= i < nums.len() ==> #[trigger] addrs[i] + nums[i] * page_size <= states[i].p_pos
                && states[i + 1].p_pos == addrs[i] && states[0].b_pos <= addrs[i],
        forall|i: int, j: int|
            0 <= i < j < nums.len() ==> #[trigger] addrs[j] + nums[j] * page_size
                <= #[trigger] addrs[i],
{
    let n = nums.len() as int;
    assert forall|i: int| 0 <= i < n implies {
        &&& #[trigger] addrs[i] % (pow2(pows[i]) as int) == 0
        &&& addrs[i] + nums[i] * page_size <= states[i].p_pos
        &&& states[i + 1].p_pos == addrs[i]
        &&& states[0].b_pos <= addrs[i]
    } by {
        lemma_pages_chain_prefix(states, nums, page_size, pows, addrs, i);
        assert(pages_step(states[i], nums[i], page_size, pows[i], addrs[i], states[i + 1]));
        lemma_pow2_pos(pows[i]);
        lemma_align(states[i].p_pos - nums[i] * page_size, pow2(pows[i]) as int);
    }
    assert forall|i: int, j: int| 0 <= i < j < n implies #[trigger] addrs[j] + nums[j] * page_size
        <= #[trigger] addrs[i] by {
        lemma_pages_chain_prefix(states, nums, page_size, pows, addrs, j);
        assert(states[j].p_pos <= states[i + 1].p_pos);
        assert(addrs[j] + nums[j] * page_size <= states[j].p_pos);
        assert(states[i + 1].p_pos == addrs[i]);
    }
}

} // verus!
