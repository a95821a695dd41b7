//! A first-fit, LIFO free-list heap allocator over a fixed address region,
//! with live usage statistics.
//!
//! The allocator manages plain addresses: free blocks are address ranges
//! kept in a list whose head is the most recently freed block, and a
//! successful allocation carves an aligned range out of the first block
//! that can hold it.  Every operation runs to completion, so a run of
//! concurrent callers is modelled by the interleaving of their calls.

use vstd::prelude::*;
use vstd::multiset::Multiset;

verus! {

broadcast use vstd::multiset::group_multiset_axioms;

/// Size in bytes of the header that every free block must be able to hold.
pub const NODE_SIZE: usize = 16;

/// Where the surrounding runtime reserves its heap region.
pub const HEAP_START: usize = 0x500000;

/// How many bytes the reserved heap region holds.
pub const HEAP_SIZE: usize = 102400;

/// One free block: `size` bytes starting at address `addr`, header included.
#[derive(Clone, Copy, PartialEq, Eq, Structural, Debug)]
pub struct FreeBlock {
    pub addr: usize,
    pub size: usize,
}

/// Rounds `addr` up to the next multiple of `align` (`align >= 1`).
pub open spec fn spec_align_up(addr: int, align: int) -> int
    recommends
        align >= 1,
{
    ((addr + align - 1) / align) * align
}

/// The size actually carved for a request: at least one header, so the
/// range can serve as a free block once it is released.
pub open spec fn eff_size(size: usize) -> int {
    if size >= NODE_SIZE {
        size as int
    } else {
        NODE_SIZE as int
    }
}

/// First address inside-or-after the block's header that satisfies `align`.
pub open spec fn block_fit_addr(b: FreeBlock, align: usize) -> int {
    spec_align_up(b.addr + NODE_SIZE, align as int)
}

/// Whether block `b` can supply `eff_size(size)` bytes at alignment `align`.
///
/// The first conjunct rules out address arithmetic that would wrap: such a
/// block is treated as not fitting, exactly as the search does.
pub open spec fn block_fits(b: FreeBlock, size: usize, align: usize) -> bool {
    &&& b.addr + NODE_SIZE + align - 1 <= usize::MAX
    &&& block_fit_addr(b, align) + eff_size(size) <= b.addr + b.size
}

/// Index of the first block of `free` that fits, if any.
pub open spec fn first_fit(free: Seq<FreeBlock>, size: usize, align: usize) -> Option<int>
    decreases free.len(),
{
    if free.len() == 0 {
        None
    } else if block_fits(free[0], size, align) {
        Some(0int)
    } else {
        match first_fit(free.drop_first(), size, align) {
            None => None,
            Some(i) => Some(i + 1),
        }
    }
}

/// Total bytes held by the free blocks of `free`.
pub open spec fn free_total(free: Seq<FreeBlock>) -> int
    decreases free.len(),
{
    if free.len() == 0 {
        0
    } else {
        free[0].size + free_total(free.drop_first())
    }
}

/// Total bytes held by the live allocations `live` (pairs of address and
/// carved size).
pub open spec fn live_total(live: Multiset<(usize, usize)>) -> int
    decreases live.len(),
{
    if live.len() == 0 {
        0
    } else {
        let x = live.choose();
        x.1 + live_total(live.remove(x))
    }
}

/// Two byte ranges do not share an address.
pub open spec fn ranges_disjoint(a1: int, s1: int, a2: int, s2: int) -> bool {
    a1 + s1 <= a2 || a2 + s2 <= a1
}

/// Saturating addition within `u64` range, the behaviour of every
/// cumulative statistics counter.
pub open spec fn sat_add64(a: int, b: int) -> int {
    if a + b > u64::MAX {
        u64::MAX as int
    } else {
        a + b
    }
}

/// The block left over below the carved range: the chosen block's start up
/// to the aligned address.  It is always at least one header big.
pub open spec fn alloc_prefix(b: FreeBlock, align: usize) -> FreeBlock {
    FreeBlock { addr: b.addr, size: (block_fit_addr(b, align) - b.addr) as usize }
}

/// Bytes left over above the carved range, up to the chosen block's end.
pub open spec fn alloc_tail_size(b: FreeBlock, size: usize, align: usize) -> int {
    b.addr + b.size - (block_fit_addr(b, align) + eff_size(size))
}

/// The block left over above the carved range.
pub open spec fn alloc_tail(b: FreeBlock, size: usize, align: usize) -> FreeBlock {
    FreeBlock {
        addr: (block_fit_addr(b, align) + eff_size(size)) as usize,
        size: alloc_tail_size(b, size, align) as usize,
    }
}

/// The mathematical state of an allocator: its region, its free list in
/// head-first order, the multiset of live allocations, and its counters.
#[verifier::ext_equal]
pub ghost struct AllocModel {
    pub initialized: bool,
    pub heap_start: int,
    pub heap_size: int,
    pub free: Seq<FreeBlock>,
    pub live: Multiset<(usize, usize)>,
    pub total_allocated: int,
    pub total_freed: int,
    pub allocation_count: int,
    pub deallocation_count: int,
    pub current_allocated: int,
    pub max_allocated: int,
}

/// The range `[addr, addr + size)` lies inside the model's region and can
/// hold a free-block header.
pub open spec fn range_in_region(m: AllocModel, addr: int, size: int) -> bool {
    &&& m.heap_start <= addr
    &&& addr + size <= m.heap_start + m.heap_size
    &&& size >= NODE_SIZE
}

/// Well-formedness of an allocator state.
///
/// Free blocks and live allocations all lie inside the region, are
/// pairwise disjoint, and together never exceed the region's capacity;
/// `current_allocated` is exactly the bytes held live, and the high-water
/// mark bounds it.
pub open spec fn model_wf(m: AllocModel) -> bool {
    &&& 0 <= m.heap_start
    &&& 0 <= m.heap_size
    &&& m.heap_start + m.heap_size <= usize::MAX
    &&& (!m.initialized ==> m.free.len() == 0 && m.live == Multiset::<(usize, usize)>::empty())
    &&& forall|i: int|
        0 <= i < m.free.len() ==> range_in_region(
            m,
            (#[trigger] m.free[i]).addr as int,
            m.free[i].size as int,
        )
    &&& forall|i: int, j: int|
        0 <= i < j < m.free.len() ==> ranges_disjoint(
            (#[trigger] m.free[i]).addr as int,
            m.free[i].size as int,
            (#[trigger] m.free[j]).addr as int,
            m.free[j].size as int,
        )
    &&& forall|r: (usize, usize)|
        #[trigger] m.live.count(r) > 0 ==> range_in_region(m, r.0 as int, r.1 as int)
            && m.live.count(r) == 1
    &&& forall|r: (usize, usize), i: int|
        #[trigger] m.live.count(r) > 0 && 0 <= i < m.free.len() ==> ranges_disjoint(
            r.0 as int,
            r.1 as int,
            (#[trigger] m.free[i]).addr as int,
            m.free[i].size as int,
        )
    &&& forall|r1: (usize, usize), r2: (usize, usize)|
        #[trigger] m.live.count(r1) > 0 && #[trigger] m.live.count(r2) > 0 && r1 != r2
            ==> ranges_disjoint(r1.0 as int, r1.1 as int, r2.0 as int, r2.1 as int)
    &&& free_total(m.free) + live_total(m.live) <= m.heap_size
    &&& m.current_allocated == live_total(m.live)
    &&& 0 <= m.current_allocated
    &&& m.current_allocated <= m.max_allocated
    &&& m.max_allocated <= u64::MAX
    &&& 0 <= m.total_allocated <= u64::MAX
    &&& 0 <= m.total_freed <= u64::MAX
    &&& 0 <= m.allocation_count <= u64::MAX
    &&& 0 <= m.deallocation_count <= u64::MAX
    &&& m.total_freed <= m.total_allocated
    &&& (m.total_allocated < u64::MAX ==> m.current_allocated == m.total_allocated
        - m.total_freed)
}

/// The allocation transition: what `allocate(size, align)` does to a
/// state, and what it returns.
///
/// With no fitting block the state is left untouched and the failure
/// sentinel comes back.  Otherwise the first fitting block is removed;
/// the leftover below the carved range goes back at the head, then the
/// leftover above it, provided that is at least one header big (a smaller
/// tail is permanently lost); the carved range becomes live and the
/// counters advance, the high-water mark only if the new outstanding
/// total exceeds it.
pub open spec fn spec_allocate(m: AllocModel, size: usize, align: usize) -> (AllocModel, Option<
    usize,
>) {
    match first_fit(m.free, size, align) {
        None => (m, None),
        Some(i) => {
            let b = m.free[i];
            let a = block_fit_addr(b, align);
            let s = eff_size(size);
            let rest = seq![alloc_prefix(b, align)] + m.free.remove(i);
            let free1 = if alloc_tail_size(b, size, align) >= NODE_SIZE {
                seq![alloc_tail(b, size, align)] + rest
            } else {
                rest
            };
            let newcur = m.current_allocated + s;
            (
                AllocModel {
                    initialized: m.initialized,
                    heap_start: m.heap_start,
                    heap_size: m.heap_size,
                    free: free1,
                    live: m.live.insert((a as usize, s as usize)),
                    total_allocated: sat_add64(m.total_allocated, s),
                    total_freed: m.total_freed,
                    allocation_count: sat_add64(m.allocation_count, 1),
                    deallocation_count: m.deallocation_count,
                    current_allocated: newcur,
                    max_allocated: if newcur > m.max_allocated {
                        newcur
                    } else {
                        m.max_allocated
                    },
                },
                Some(a as usize),
            )
        },
    }
}

/// The deallocation transition: the released range becomes the new head
/// of the free list and the counters step back down.
pub open spec fn spec_deallocate(m: AllocModel, ptr: usize, size: usize, align: usize) -> AllocModel {
    let s = eff_size(size);
    AllocModel {
        initialized: m.initialized,
        heap_start: m.heap_start,
        heap_size: m.heap_size,
        free: seq![FreeBlock { addr: ptr, size: s as usize }] + m.free,
        live: m.live.remove((ptr, s as usize)),
        total_allocated: m.total_allocated,
        total_freed: sat_add64(m.total_freed, s),
        allocation_count: m.allocation_count,
        deallocation_count: sat_add64(m.deallocation_count, 1),
        current_allocated: m.current_allocated - s,
        max_allocated: m.max_allocated,
    }
}

/// Bounds of the rounded address: it is aligned, and lies within one
/// alignment above the requested address.
pub proof fn lemma_align_up_bounds(addr: int, align: int)
    requires
        align >= 1,
        0 <= addr,
    ensures
        addr <= spec_align_up(addr, align) < addr + align,
        spec_align_up(addr, align) % align == 0,
{
    let s = addr + align - 1;
    vstd::arithmetic::div_mod::lemma_fundamental_div_mod(s, align);
    vstd::arithmetic::div_mod::lemma_mod_bound(s, align);
    assert(align * (s / align) == (s / align) * align) by (nonlinear_arith);
    vstd::arithmetic::div_mod::lemma_mod_multiples_basic(s / align, align);
}

/// What a found fit means: the block at the returned index fits.
pub proof fn lemma_first_fit_fits(free: Seq<FreeBlock>, size: usize, align: usize)
    ensures
        first_fit(free, size, align) matches Some(i) ==> 0 <= i < free.len() && block_fits(
            free[i],
            size,
            align,
        ),
    decreases free.len(),
{
    if free.len() > 0 && !block_fits(free[0], size, align) {
        lemma_first_fit_fits(free.drop_first(), size, align);
    }
}

/// A block that fits, with none before it, is exactly what `first_fit`
/// finds.
pub proof fn lemma_first_fit_found(free: Seq<FreeBlock>, size: usize, align: usize, i: int)
    requires
        0 <= i < free.len(),
        block_fits(free[i], size, align),
        forall|j: int| 0 <= j < i ==> !block_fits(#[trigger] free[j], size, align),
    ensures
        first_fit(free, size, align) == Some(i),
    decreases i,
{
    if i > 0 {
        assert(forall|j: int|
            0 <= j < i - 1 ==> free.drop_first()[j] == #[trigger] free[j + 1]);
        lemma_first_fit_found(free.drop_first(), size, align, i - 1);
    }
}

/// When no block fits, `first_fit` finds none.
pub proof fn lemma_first_fit_none(free: Seq<FreeBlock>, size: usize, align: usize)
    requires
        forall|j: int| 0 <= j < free.len() ==> !block_fits(#[trigger] free[j], size, align),
    ensures
        first_fit(free, size, align) is None,
    decreases free.len(),
{
    if free.len() > 0 {
        assert(forall|j: int|
            0 <= j < free.len() - 1 ==> free.drop_first()[j] == #[trigger] free[j + 1]);
        lemma_first_fit_none(free.drop_first(), size, align);
    }
}

/// Allocation preserves well-formedness: the carved range is a fresh,
/// in-region range disjoint from every free block and from every other
/// live allocation, and the byte totals still fit the region.
pub proof fn lemma_allocate_wf(m: AllocModel, size: usize, align: usize)
    requires
        model_wf(m),
        align >= 1,
    ensures
        model_wf(spec_allocate(m, size, align).0),
        spec_allocate(m, size, align).0.max_allocated >= m.max_allocated,
        spec_allocate(m, size, align).1 matches Some(a) ==> range_in_region(
            m,
            a as int,
            eff_size(size),
        ) && a as int % align as int == 0,
{
    lemma_first_fit_fits(m.free, size, align);
    match first_fit(m.free, size, align) {
        None => {},
        Some(i) => {
            let b = m.free[i];
            let a = block_fit_addr(b, align);
            let s = eff_size(size);
            let pre = alloc_prefix(b, align);
            let tl = alloc_tail(b, size, align);
            let tls = alloc_tail_size(b, size, align);
            let keep_tail = tls >= NODE_SIZE;
            let rest = m.free.remove(i);
            let off: int = if keep_tail {
                2
            } else {
                1
            };
            let m1 = spec_allocate(m, size, align).0;
            let nl = (a as usize, s as usize);

            assert(range_in_region(m, b.addr as int, b.size as int));
            lemma_align_up_bounds(b.addr + NODE_SIZE, align as int);
            assert(b.addr + NODE_SIZE <= a < b.addr + NODE_SIZE + align);
            assert(a + s <= b.addr + b.size);
            m.free.remove_ensures(i);
            lemma_free_total_remove(m.free, i);
            lemma_free_total_nonneg(rest);
            lemma_live_total_nonneg(m.live);
            lemma_live_total_insert(m.live, nl);
            lemma_free_total_cons(pre, rest);
            if keep_tail {
                lemma_free_total_cons(tl, seq![pre] + rest);
            }

            // Index map of the new free list.
            assert(m1.free.len() == rest.len() + off);
            assert(forall|k: int| 0 <= k < rest.len() ==> m1.free[k + off] == rest[k]);
            assert(m1.free[off - 1] == pre);
            if keep_tail {
                assert(m1.free[0] == tl);
            }

            // The removed block was live-disjoint and block-disjoint.
            assert(forall|k: int|
                0 <= k < rest.len() ==> ranges_disjoint(
                    (#[trigger] rest[k]).addr as int,
                    rest[k].size as int,
                    b.addr as int,
                    b.size as int,
                )) by {
                assert forall|k: int| 0 <= k < rest.len() implies ranges_disjoint(
                    (#[trigger] rest[k]).addr as int,
                    rest[k].size as int,
                    b.addr as int,
                    b.size as int,
                ) by {
                    if k < i {
                        assert(rest[k] == m.free[k]);
                    } else {
                        assert(rest[k] == m.free[k + 1]);
                    }
                }
            }

            // The carved range was not already live.
            assert(m.live.count(nl) == 0) by {
                if m.live.count(nl) > 0 {
                    assert(ranges_disjoint(nl.0 as int, nl.1 as int, b.addr as int,
                        b.size as int));
                }
            }

            // Every new free block lies in the region.
            assert forall|k: int| 0 <= k < m1.free.len() implies range_in_region(
                m1,
                (#[trigger] m1.free[k]).addr as int,
                m1.free[k].size as int,
            ) by {
                if k >= off {
                    assert(m1.free[k] == rest[k - off]);
                    assert(range_in_region(m, rest[k - off].addr as int,
                        rest[k - off].size as int));
                } else if k == off - 1 {
                    assert(m1.free[k] == pre);
                } else {
                    assert(m1.free[k] == tl);
                }
            }

            // The new free blocks are pairwise disjoint.
            assert forall|p: int, q: int| 0 <= p < q < m1.free.len() implies ranges_disjoint(
                (#[trigger] m1.free[p]).addr as int,
                m1.free[p].size as int,
                (#[trigger] m1.free[q]).addr as int,
                m1.free[q].size as int,
            ) by {
                if q >= off {
                    let bq = rest[q - off];
                    assert(m1.free[q] == bq);
                    assert(ranges_disjoint(bq.addr as int, bq.size as int, b.addr as int,
                        b.size as int));
                    if p >= off {
                        let bp = rest[p - off];
                        assert(m1.free[p] == bp);
                        if p - off < i && q - off < i {
                            assert(bp == m.free[p - off] && bq == m.free[q - off]);
                        } else if p - off < i {
                            assert(bp == m.free[p - off] && bq == m.free[q - off + 1]);
                        } else {
                            assert(bp == m.free[p - off + 1] && bq == m.free[q - off + 1]);
                        }
                    }
                }
            }

            // Live allocations stay in the region, unique, and disjoint
            // from the free blocks and from one another.
            assert forall|r: (usize, usize)| #[trigger]
                m1.live.count(r) > 0 implies range_in_region(m1, r.0 as int, r.1 as int)
                && m1.live.count(r) == 1 by {
                if r != nl {
                    assert(m.live.count(r) > 0);
                }
            }
            assert forall|r: (usize, usize), k: int| #[trigger]
                m1.live.count(r) > 0 && 0 <= k < m1.free.len() implies ranges_disjoint(
                r.0 as int,
                r.1 as int,
                (#[trigger] m1.free[k]).addr as int,
                m1.free[k].size as int,
            ) by {
                if r == nl {
                    if k >= off {
                        let bk = rest[k - off];
                        assert(m1.free[k] == bk);
                        assert(ranges_disjoint(bk.addr as int, bk.size as int, b.addr as int,
                            b.size as int));
                    }
                } else {
                    assert(m.live.count(r) > 0);
                    if k >= off {
                        assert(m1.free[k] == rest[k - off]);
                        if k - off < i {
                            assert(rest[k - off] == m.free[k - off]);
                        } else {
                            assert(rest[k - off] == m.free[k - off + 1]);
                        }
                    } else {
                        assert(ranges_disjoint(r.0 as int, r.1 as int, b.addr as int,
                            b.size as int));
                    }
                }
            }
            assert forall|r1: (usize, usize), r2: (usize, usize)| #[trigger]
                m1.live.count(r1) > 0 && #[trigger] m1.live.count(r2) > 0 && r1 != r2
                implies ranges_disjoint(r1.0 as int, r1.1 as int, r2.0 as int,
                r2.1 as int) by {
                if r1 == nl {
                    assert(m.live.count(r2) > 0);
                    assert(ranges_disjoint(r2.0 as int, r2.1 as int, b.addr as int,
                        b.size as int));
                } else if r2 == nl {
                    assert(m.live.count(r1) > 0);
                    assert(ranges_disjoint(r1.0 as int, r1.1 as int, b.addr as int,
                        b.size as int));
                } else {
                    assert(m.live.count(r1) > 0 && m.live.count(r2) > 0);
                }
            }

            // Byte totals: what was carved or returned adds up to the
            // chosen block, so the region still bounds the whole.
            assert(free_total(m1.free) + live_total(m1.live) <= m.heap_size);
        },
    }
}

/// Deallocation preserves well-formedness: the released range rejoins the
/// free list without overlapping anything, and the totals move from live
/// to free unchanged.
pub proof fn lemma_deallocate_wf(m: AllocModel, ptr: usize, size: usize, align: usize)
    requires
        model_wf(m),
        m.live.count((ptr, eff_size(size) as usize)) > 0,
    ensures
        model_wf(spec_deallocate(m, ptr, size, align)),
{
    let s = eff_size(size);
    let nb = FreeBlock { addr: ptr, size: s as usize };
    let x = (ptr, s as usize);
    let m1 = spec_deallocate(m, ptr, size, align);
    assert(range_in_region(m, ptr as int, s));
    lemma_live_total_remove(m.live, x);
    lemma_live_total_nonneg(m.live.remove(x));
    lemma_free_total_cons(nb, m.free);
    lemma_free_total_nonneg(m.free);

    assert(m1.free[0] == nb);
    assert(forall|k: int| 0 <= k < m.free.len() ==> m1.free[k + 1] == m.free[k]);

    assert forall|k: int| 0 <= k < m1.free.len() implies range_in_region(
        m1,
        (#[trigger] m1.free[k]).addr as int,
        m1.free[k].size as int,
    ) by {
        if k > 0 {
            assert(m1.free[k] == m.free[k - 1]);
            assert(range_in_region(m, m.free[k - 1].addr as int, m.free[k - 1].size as int));
        }
    }
    assert forall|p: int, q: int| 0 <= p < q < m1.free.len() implies ranges_disjoint(
        (#[trigger] m1.free[p]).addr as int,
        m1.free[p].size as int,
        (#[trigger] m1.free[q]).addr as int,
        m1.free[q].size as int,
    ) by {
        assert(m1.free[q] == m.free[q - 1]);
        if p == 0 {
            assert(m.live.count(x) > 0);
        } else {
            assert(m1.free[p] == m.free[p - 1]);
        }
    }
    assert forall|r: (usize, usize)| #[trigger] m1.live.count(r) > 0 implies range_in_region(
        m1,
        r.0 as int,
        r.1 as int,
    ) && m1.live.count(r) == 1 by {
        assert(m.live.count(r) > 0);
    }
    assert forall|r: (usize, usize), k: int| #[trigger] m1.live.count(r) > 0 && 0 <= k
        < m1.free.len() implies ranges_disjoint(
        r.0 as int,
        r.1 as int,
        (#[trigger] m1.free[k]).addr as int,
        m1.free[k].size as int,
    ) by {
        assert(m.live.count(r) > 0);
        if k == 0 {
            assert(r != x);
        } else {
            assert(m1.free[k] == m.free[k - 1]);
        }
    }
    assert forall|r1: (usize, usize), r2: (usize, usize)| #[trigger] m1.live.count(r1) > 0
        && #[trigger] m1.live.count(r2) > 0 && r1 != r2 implies ranges_disjoint(
        r1.0 as int,
        r1.1 as int,
        r2.0 as int,
        r2.1 as int,
    ) by {
        assert(m.live.count(r1) > 0 && m.live.count(r2) > 0);
    }
}

/// A first-fit free-list allocator over a fixed address region.
///
/// The region itself is only described by its bounds: the allocator hands
/// out and takes back address ranges, it never touches the bytes.
pub struct LinkedListAllocator {
    free_list: Vec<FreeBlock>,
    heap_start: usize,
    heap_size: usize,
    initialized: bool,
    total_allocated: u64,
    total_freed: u64,
    allocation_count: u64,
    deallocation_count: u64,
    current_allocated: u64,
    max_allocated: u64,
    live: Ghost<Multiset<(usize, usize)>>,
}

impl View for LinkedListAllocator {
    type V = AllocModel;

    closed spec fn view(&self) -> AllocModel {
        AllocModel {
            initialized: self.initialized,
            heap_start: self.heap_start as int,
            heap_size: self.heap_size as int,
            free: self.free_list@,
            live: self.live@,
            total_allocated: self.total_allocated as int,
            total_freed: self.total_freed as int,
            allocation_count: self.allocation_count as int,
            deallocation_count: self.deallocation_count as int,
            current_allocated: self.current_allocated as int,
            max_allocated: self.max_allocated as int,
        }
    }
}

/// A point-in-time snapshot of the allocator's statistics surface:
/// `allocated` and `freed` are the cumulative totals, `current_allocated`
/// the bytes outstanding right now, `max_allocated` the high-water mark.
#[derive(Debug, Clone, Copy, PartialEq, Eq, Structural)]
pub struct MemoryStats {
    pub total_heap_size: u64,
    pub allocated: u64,
    pub freed: u64,
    pub current_allocated: u64,
    pub max_allocated: u64,
    pub allocation_count: u64,
    pub deallocation_count: u64,
    pub free_memory: u64,
}

// ---------------------------------------------------------------------------
// Facts about the two byte totals.
// ---------------------------------------------------------------------------

/// The free total is a sum of sizes, hence never negative.
pub proof fn lemma_free_total_nonneg(free: Seq<FreeBlock>)
    ensures
        free_total(free) >= 0,
    decreases free.len(),
{
    if free.len() > 0 {
        lemma_free_total_nonneg(free.drop_first());
    }
}

/// Removing one block takes exactly its size out of the free total.
pub proof fn lemma_free_total_remove(free: Seq<FreeBlock>, i: int)
    requires
        0 <= i < free.len(),
    ensures
        free_total(free) == free[i].size + free_total(free.remove(i)),
    decreases free.len(),
{
    if i == 0 {
        assert(free.remove(0) =~= free.drop_first());
    } else {
        lemma_free_total_remove(free.drop_first(), i - 1);
        assert(free.remove(i).drop_first() =~= free.drop_first().remove(i - 1));
        assert(free.remove(i)[0] == free[0]);
        assert(free_total(free.remove(i)) == free[0].size + free_total(
            free.remove(i).drop_first(),
        ));
    }
}

/// Putting one block at the head adds exactly its size to the free total.
pub proof fn lemma_free_total_cons(b: FreeBlock, free: Seq<FreeBlock>)
    ensures
        free_total(seq![b] + free) == b.size + free_total(free),
{
    assert((seq![b] + free).drop_first() =~= free);
    assert((seq![b] + free)[0] == b);
}

/// The live total counts each allocation once, whichever order the sum
/// walks the multiset in.
pub proof fn lemma_live_total_remove(live: Multiset<(usize, usize)>, x: (usize, usize))
    requires
        live.count(x) > 0,
    ensures
        live_total(live) == x.1 + live_total(live.remove(x)),
    decreases live.len(),
{
    let y = live.choose();
    if x == y {
    } else {
        assert(live.len() > 0);
        let rest = live.remove(y);
        assert(rest.count(x) > 0);
        lemma_live_total_remove(rest, x);
        assert(live.remove(x).count(y) > 0);
        lemma_live_total_remove(live.remove(x), y);
        assert(rest.remove(x) =~= live.remove(x).remove(y));
        assert(live_total(live) == y.1 + live_total(rest));
    }
}

/// Adding one allocation adds exactly its size to the live total.
pub proof fn lemma_live_total_insert(live: Multiset<(usize, usize)>, x: (usize, usize))
    ensures
        live_total(live.insert(x)) == live_total(live) + x.1,
{
    assert(live.insert(x).count(x) > 0);
    lemma_live_total_remove(live.insert(x), x);
    assert(live.insert(x).remove(x) =~= live);
}

/// The live total is a sum of sizes, hence never negative.
pub proof fn lemma_live_total_nonneg(live: Multiset<(usize, usize)>)
    ensures
        live_total(live) >= 0,
    decreases live.len(),
{
    if live.len() > 0 {
        lemma_live_total_nonneg(live.remove(live.choose()));
    }
}

// ---------------------------------------------------------------------------
// Executable interface.
// ---------------------------------------------------------------------------

/// Rounds `addr` up to the next multiple of `align`.
pub fn align_up(addr: usize, align: usize) -> (r: usize)
    requires
        align >= 1,
        addr + align - 1 <= usize::MAX,
    ensures
        r == spec_align_up(addr as int, align as int),
        r % align == 0,
        addr <= r < addr + align,
{
    proof {
        lemma_align_up_bounds(addr as int, align as int);
    }
    let sum: usize = addr + (align - 1);
    let d: usize = sum / align;
    let r: usize = d * align;
    r
}

/// The size actually carved for a request of `size` bytes.
pub fn effective_size(size: usize) -> (r: usize)
    ensures
        r == eff_size(size),
{
    if size >= NODE_SIZE {
        size
    } else {
        NODE_SIZE
    }
}

impl LinkedListAllocator {
    /// A fresh allocator: no region installed, every counter at zero.
    pub fn new() -> (r: Self)
        ensures
            model_wf(r@),
            !r@.initialized,
            r@.free == Seq::<FreeBlock>::empty(),
            r@.live == Multiset::<(usize, usize)>::empty(),
            r@.total_allocated == 0,
            r@.total_freed == 0,
            r@.allocation_count == 0,
            r@.deallocation_count == 0,
            r@.current_allocated == 0,
            r@.max_allocated == 0,
    {
        let r = LinkedListAllocator {
            free_list: Vec::new(),
            heap_start: 0,
            heap_size: 0,
            initialized: false,
            total_allocated: 0,
            total_freed: 0,
            allocation_count: 0,
            deallocation_count: 0,
            current_allocated: 0,
            max_allocated: 0,
            live: Ghost(Multiset::empty()),
        };
        r
    }

    /// Installs the region `[heap_start, heap_start + heap_size)` as one
    /// free block.  Must be called exactly once, before any allocation;
    /// the region must be able to hold at least one free-block header.
    pub fn init(&mut self, heap_start: usize, heap_size: usize)
        requires
            model_wf(old(self)@),
            !old(self)@.initialized,
            heap_size >= NODE_SIZE,
            heap_start + heap_size <= usize::MAX,
        ensures
            model_wf(final(self)@),
            final(self)@.initialized,
            final(self)@.heap_start == heap_start,
            final(self)@.heap_size == heap_size,
            final(self)@.free =~= seq![FreeBlock { addr: heap_start, size: heap_size }],
            final(self)@.live == old(self)@.live,
            final(self)@.total_allocated == old(self)@.total_allocated,
            final(self)@.total_freed == old(self)@.total_freed,
            final(self)@.allocation_count == old(self)@.allocation_count,
            final(self)@.deallocation_count == old(self)@.deallocation_count,
            final(self)@.current_allocated == old(self)@.current_allocated,
            final(self)@.max_allocated == old(self)@.max_allocated,
            free_total(final(self)@.free) == heap_size,
    {
        self.heap_start = heap_start;
        self.heap_size = heap_size;
        self.initialized = true;
        self.free_list.push(FreeBlock { addr: heap_start, size: heap_size });
        proof {
            assert(self.free_list@ =~= seq![FreeBlock { addr: heap_start, size: heap_size }]);
            lemma_free_total_cons(
                FreeBlock { addr: heap_start, size: heap_size },
                Seq::<FreeBlock>::empty(),
            );
            assert(seq![FreeBlock { addr: heap_start, size: heap_size }] =~= seq![
                FreeBlock { addr: heap_start, size: heap_size },
            ] + Seq::<FreeBlock>::empty());
            lemma_live_total_nonneg(self.live@);
        }
    }

    /// Walks the chain from the head and returns the index of the first
    /// block that can supply the request, with its predecessors all shown
    /// unable to.
    fn find_fit(&self, size: usize, align: usize) -> (r: Option<usize>)
        requires
            model_wf(self@),
            align >= 1,
        ensures
            match r {
                None => first_fit(self@.free, size, align) is None,
                Some(i) => {
                    &&& i < self@.free.len()
                    &&& first_fit(self@.free, size, align) == Some(i as int)
                    &&& block_fits(self@.free[i as int], size, align)
                },
            },
    {
        let n = self.free_list.len();
        let mut i: usize = 0;
        while i < n
            invariant
                model_wf(self@),
                align >= 1,
                n == self@.free.len(),
                0 <= i <= n,
                forall|j: int| 0 <= j < i ==> !block_fits(#[trigger] self@.free[j], size, align),
            decreases n - i,
        {
            let b = self.free_list[i];
            proof {
                assert(range_in_region(self@, self@.free[i as int].addr as int,
                    self@.free[i as int].size as int));
            }
            let base = b.addr + NODE_SIZE;
            let fits = match base.checked_add(align - 1) {
                None => false,
                Some(_) => {
                    let a = align_up(base, align);
                    match a.checked_add(effective_size(size)) {
                        None => false,
                        Some(end) => end <= b.addr + b.size,
                    }
                },
            };
            if fits {
                proof {
                    lemma_first_fit_found(self@.free, size, align, i as int);
                }
                return Some(i);
            }
            i = i + 1;
        }
        proof {
            lemma_first_fit_none(self@.free, size, align);
        }
        None
    }

    /// Serves a request for `size` bytes at alignment `align`, first fit
    /// first: on success the returned address is aligned, lies inside the
    /// region past the chosen block's header, and the carved range is
    /// disjoint from everything else outstanding; with no fitting block
    /// the call returns `None` and changes nothing at all.
    pub fn allocate(&mut self, size: usize, align: usize) -> (r: Option<usize>)
        requires
            model_wf(old(self)@),
            old(self)@.initialized,
            align >= 1,
        ensures
            model_wf(final(self)@),
            final(self)@ == spec_allocate(old(self)@, size, align).0,
            r == spec_allocate(old(self)@, size, align).1,
            r is None <==> first_fit(old(self)@.free, size, align) is None,
            r is None ==> final(self)@ == old(self)@,
            r matches Some(a) ==> a as int % align as int == 0,
            r matches Some(a) ==> range_in_region(old(self)@, a as int, eff_size(size)),
            final(self)@.max_allocated >= old(self)@.max_allocated,
            final(self)@.initialized,
    {
        let ghost m0 = self@;
        match self.find_fit(size, align) {
            None => {
                proof {
                    assert(self@ =~= spec_allocate(m0, size, align).0);
                }
                None
            },
            Some(i) => {
                let b = self.free_list[i];
                proof {
                    assert(range_in_region(m0, b.addr as int, b.size as int));
                }
                let base = b.addr + NODE_SIZE;
                let a = align_up(base, align);
                let s = effective_size(size);
                let end = a + s;
                let block_end = b.addr + b.size;
                let tail_size = block_end - end;
                self.free_list.remove(i);
                self.free_list.insert(0, FreeBlock { addr: b.addr, size: a - b.addr });
                if tail_size >= NODE_SIZE {
                    self.free_list.insert(0, FreeBlock { addr: end, size: tail_size });
                }
                self.total_allocated = self.total_allocated.saturating_add(s as u64);
                proof {
                    lemma_free_total_remove(m0.free, i as int);
                    lemma_free_total_nonneg(m0.free.remove(i as int));
                    lemma_live_total_nonneg(m0.live);
                }
                self.current_allocated = self.current_allocated + s as u64;
                self.allocation_count = self.allocation_count.saturating_add(1);
                if self.current_allocated > self.max_allocated {
                    self.max_allocated = self.current_allocated;
                }
                self.live = Ghost(self.live@.insert((a, s)));
                proof {
                    let rest = m0.free.remove(i as int);
                    let pre = alloc_prefix(b, align);
                    assert(FreeBlock { addr: b.addr, size: (a - b.addr) as usize } == pre);
                    rest.insert_ensures(0, pre);
                    if tail_size >= NODE_SIZE {
                        let tl = alloc_tail(b, size, align);
                        assert(FreeBlock { addr: end, size: tail_size } == tl);
                        rest.insert(0, pre).insert_ensures(0, tl);
                        assert(self@.free =~= seq![tl] + (seq![pre] + rest));
                    } else {
                        assert(self@.free =~= seq![pre] + rest);
                    }
                    assert(self@ =~= spec_allocate(m0, size, align).0);
                    lemma_allocate_wf(m0, size, align);
                }
                Some(a)
            },
        }
    }

    /// Releases the range previously returned for exactly this
    /// `(ptr, size, align)` triple: the range goes back at the head of
    /// the free list unchanged in size, and the counters step down.
    pub fn deallocate(&mut self, ptr: usize, size: usize, align: usize)
        requires
            model_wf(old(self)@),
            old(self)@.initialized,
            old(self)@.live.count((ptr, eff_size(size) as usize)) > 0,
        ensures
            model_wf(final(self)@),
            final(self)@ == spec_deallocate(old(self)@, ptr, size, align),
            final(self)@.max_allocated == old(self)@.max_allocated,
            final(self)@.current_allocated == old(self)@.current_allocated - eff_size(size),
            free_total(final(self)@.free) == free_total(old(self)@.free) + eff_size(size),
            final(self)@.initialized,
    {
        let ghost m0 = self@;
        let s = effective_size(size);
        proof {
            assert(range_in_region(m0, ptr as int, s as int));
            lemma_live_total_remove(m0.live, (ptr, s));
            lemma_live_total_nonneg(m0.live.remove((ptr, s)));
            lemma_free_total_nonneg(m0.free);
        }
        self.free_list.insert(0, FreeBlock { addr: ptr, size: s });
        self.total_freed = self.total_freed.saturating_add(s as u64);
        self.current_allocated = self.current_allocated - s as u64;
        self.deallocation_count = self.deallocation_count.saturating_add(1);
        self.live = Ghost(self.live@.remove((ptr, s)));
        proof {
            lemma_free_total_cons(FreeBlock { addr: ptr, size: s }, m0.free);
            assert(self@.free =~= spec_deallocate(m0, ptr, size, align).free);
            assert(self@ =~= spec_deallocate(m0, ptr, size, align));
            lemma_deallocate_wf(m0, ptr, size, align);
        }
    }

    /// Cumulative bytes handed out since construction (saturating).
    pub fn get_total_allocated(&self) -> (r: u64)
        ensures
            r == self@.total_allocated,
    {
        self.total_allocated
    }

    /// Cumulative bytes taken back since construction (saturating).
    pub fn get_total_freed(&self) -> (r: u64)
        ensures
            r == self@.total_freed,
    {
        self.total_freed
    }

    /// Bytes currently held by live allocations.
    pub fn get_current_allocated(&self) -> (r: u64)
        ensures
            r == self@.current_allocated,
    {
        self.current_allocated
    }

    /// The largest value `current_allocated` has ever reached.
    pub fn get_max_allocated(&self) -> (r: u64)
        ensures
            r == self@.max_allocated,
    {
        self.max_allocated
    }

    /// Number of successful allocations so far (saturating).
    pub fn get_allocation_count(&self) -> (r: u64)
        ensures
            r == self@.allocation_count,
    {
        self.allocation_count
    }

    /// Number of deallocations so far (saturating).
    pub fn get_deallocation_count(&self) -> (r: u64)
        ensures
            r == self@.deallocation_count,
    {
        self.deallocation_count
    }

    /// Sums the free chain at call time: the exact number of free bytes.
    pub fn get_free_memory(&self) -> (r: u64)
        requires
            model_wf(self@),
        ensures
            r == free_total(self@.free),
    {
        let mut total: u64 = 0;
        let mut i: usize = 0;
        let n = self.free_list.len();
        proof {
            assert(self@.free.skip(0) =~= self@.free);
            lemma_live_total_nonneg(self@.live);
            lemma_free_total_nonneg(self@.free);
        }
        while i < n
            invariant
                model_wf(self@),
                n == self@.free.len(),
                0 <= i <= n,
                total + free_total(self@.free.skip(i as int)) == free_total(self@.free),
                total <= free_total(self@.free),
                free_total(self@.free) <= self@.heap_size <= u64::MAX,
            decreases n - i,
        {
            proof {
                let rest = self@.free.skip(i as int);
                assert(rest[0] == self@.free[i as int]);
                assert(rest.drop_first() =~= self@.free.skip(i as int + 1));
                lemma_free_total_nonneg(self@.free.skip(i as int + 1));
            }
            total = total + self.free_list[i].size as u64;
            i = i + 1;
        }
        proof {
            assert(self@.free.skip(n as int) =~= Seq::<FreeBlock>::empty());
        }
        total
    }

    /// A snapshot of all statistics, free bytes included.
    pub fn get_memory_stats(&self) -> (r: MemoryStats)
        requires
            model_wf(self@),
        ensures
            r.total_heap_size == self@.heap_size,
            r.allocated == self@.total_allocated,
            r.freed == self@.total_freed,
            r.current_allocated == self@.current_allocated,
            r.max_allocated == self@.max_allocated,
            r.allocation_count == self@.allocation_count,
            r.deallocation_count == self@.deallocation_count,
            r.free_memory == free_total(self@.free),
    {
        MemoryStats {
            total_heap_size: self.heap_size as u64,
            allocated: self.get_total_allocated(),
            freed: self.get_total_freed(),
            current_allocated: self.get_current_allocated(),
            max_allocated: self.get_max_allocated(),
            allocation_count: self.get_allocation_count(),
            deallocation_count: self.get_deallocation_count(),
            free_memory: self.get_free_memory(),
        }
    }
}

// ---------------------------------------------------------------------------
// Laws of the allocator.
// ---------------------------------------------------------------------------

/// One allocate/deallocate round trip of the same request: allocate, and
/// if a range came back, release exactly that range again.
pub open spec fn spec_alloc_free_cycle(m: AllocModel, size: usize, align: usize) -> AllocModel {
    let m1 = spec_allocate(m, size, align).0;
    match spec_allocate(m, size, align).1 {
        None => m1,
        Some(a) => spec_deallocate(m1, a, size, align),
    }
}

/// `k` alloc/free round trips of the same request, back to back.
pub open spec fn run_alloc_free_cycles(m: AllocModel, size: usize, align: usize, k: nat) -> AllocModel
    decreases k,
{
    if k == 0 {
        m
    } else {
        spec_alloc_free_cycle(run_alloc_free_cycles(m, size, align, (k - 1) as nat), size, align)
    }
}

/// Every free block's size is bounded by the free total.
pub proof fn lemma_free_total_elem(free: Seq<FreeBlock>, i: int)
    requires
        0 <= i < free.len(),
    ensures
        free[i].size <= free_total(free),
{
    lemma_free_total_remove(free, i);
    lemma_free_total_nonneg(free.remove(i));
}

/// A single successful allocation followed immediately by its release
/// returns the heap to its pre-call free-byte total, less only the
/// one-time loss of a leftover tail too small to hold a header.
pub proof fn lemma_cycle_restores_free_total(m: AllocModel, size: usize, align: usize)
    requires
        model_wf(m),
        align >= 1,
        spec_allocate(m, size, align).1 is Some,
    ensures
        ({
            let i = first_fit(m.free, size, align).unwrap();
            let lost = alloc_tail_size(m.free[i], size, align);
            free_total(spec_alloc_free_cycle(m, size, align).free) == free_total(m.free) - (
            if lost < NODE_SIZE {
                lost
            } else {
                0
            })
        }),
{
    lemma_first_fit_fits(m.free, size, align);
    let i = first_fit(m.free, size, align).unwrap();
    let b = m.free[i];
    let a = block_fit_addr(b, align);
    let s = eff_size(size);
    let pre = alloc_prefix(b, align);
    let tl = alloc_tail(b, size, align);
    let tls = alloc_tail_size(b, size, align);
    let rest = m.free.remove(i);
    let m1 = spec_allocate(m, size, align).0;
    let m2 = spec_alloc_free_cycle(m, size, align);
    assert(range_in_region(m, b.addr as int, b.size as int));
    lemma_align_up_bounds(b.addr + NODE_SIZE, align as int);
    lemma_free_total_remove(m.free, i);
    lemma_free_total_cons(pre, rest);
    if tls >= NODE_SIZE {
        lemma_free_total_cons(tl, seq![pre] + rest);
    }
    assert(spec_allocate(m, size, align).1.unwrap() == a as usize);
    lemma_free_total_cons(FreeBlock { addr: a as usize, size: s as usize }, m1.free);
}

/// One alloc/free round trip leaves the outstanding byte count where it
/// was, keeps the allocation and deallocation counters in step, and
/// preserves well-formedness.  A failed allocation changes nothing, so
/// the round trip is harmless in every case.
pub proof fn lemma_cycle_counters(m: AllocModel, size: usize, align: usize)
    requires
        model_wf(m),
        align >= 1,
    ensures
        model_wf(spec_alloc_free_cycle(m, size, align)),
        spec_alloc_free_cycle(m, size, align).current_allocated == m.current_allocated,
        spec_alloc_free_cycle(m, size, align).max_allocated >= m.max_allocated,
        m.allocation_count == m.deallocation_count ==> spec_alloc_free_cycle(
            m,
            size,
            align,
        ).allocation_count == spec_alloc_free_cycle(m, size, align).deallocation_count,
        m.initialized ==> spec_alloc_free_cycle(m, size, align).initialized,
{
    lemma_allocate_wf(m, size, align);
    match spec_allocate(m, size, align).1 {
        None => {},
        Some(a) => {
            let m1 = spec_allocate(m, size, align).0;
            let s = eff_size(size);
            assert(m1.live.count((a, s as usize)) > 0);
            lemma_deallocate_wf(m1, a, size, align);
        },
    }
}

/// A tight loop of alloc/free round trips of one request leaves the
/// allocation and deallocation counters equal and the outstanding byte
/// count at zero, when it started that way.
pub proof fn lemma_repeated_cycles(m: AllocModel, size: usize, align: usize, k: nat)
    requires
        model_wf(m),
        align >= 1,
    ensures
        model_wf(run_alloc_free_cycles(m, size, align, k)),
        run_alloc_free_cycles(m, size, align, k).current_allocated == m.current_allocated,
        m.allocation_count == m.deallocation_count ==> run_alloc_free_cycles(
            m,
            size,
            align,
            k,
        ).allocation_count == run_alloc_free_cycles(m, size, align, k).deallocation_count,
    decreases k,
{
    if k > 0 {
        lemma_repeated_cycles(m, size, align, (k - 1) as nat);
        lemma_cycle_counters(run_alloc_free_cycles(m, size, align, (k - 1) as nat), size, align);
    }
}

/// The high-water mark never decreases: not on a successful or failed
/// allocation, and not on a release; and it always bounds the bytes
/// currently outstanding.
pub proof fn lemma_high_water_mark(m: AllocModel, size: usize, align: usize, ptr: usize)
    requires
        model_wf(m),
    ensures
        spec_allocate(m, size, align).0.max_allocated >= m.max_allocated,
        spec_deallocate(m, ptr, size, align).max_allocated == m.max_allocated,
        m.current_allocated <= m.max_allocated,
        spec_allocate(m, size, align).0.current_allocated <= spec_allocate(
            m,
            size,
            align,
        ).0.max_allocated,
{
}

/// Requesting more bytes than the whole free capacity fails and performs
/// no mutation at all.
pub proof fn lemma_exhausted_request_fails(m: AllocModel, size: usize, align: usize)
    requires
        model_wf(m),
        align >= 1,
        eff_size(size) > free_total(m.free),
    ensures
        spec_allocate(m, size, align).0 == m,
        spec_allocate(m, size, align).1 is None,
{
    assert forall|j: int| 0 <= j < m.free.len() implies !block_fits(
        #[trigger] m.free[j],
        size,
        align,
    ) by {
        let b = m.free[j];
        assert(range_in_region(m, b.addr as int, b.size as int));
        lemma_free_total_elem(m.free, j);
        if block_fits(b, size, align) {
            lemma_align_up_bounds(b.addr + NODE_SIZE, align as int);
        }
    }
    lemma_first_fit_none(m.free, size, align);
}

/// A successful allocation comes back aligned as requested.
pub proof fn lemma_returned_address_aligned(m: AllocModel, size: usize, align: usize)
    requires
        model_wf(m),
        align >= 1,
    ensures
        spec_allocate(m, size, align).1 matches Some(a) ==> a as int % align as int == 0,
{
    lemma_allocate_wf(m, size, align);
}

/// One call of the allocator's mutating surface, as an event in a trace.
pub ghost enum AllocOp {
    Allocate { size: usize, align: usize },
    Deallocate { ptr: usize, size: usize, align: usize },
}

/// What one call does to a state.
pub open spec fn spec_step(m: AllocModel, op: AllocOp) -> AllocModel {
    match op {
        AllocOp::Allocate { size, align } => spec_allocate(m, size, align).0,
        AllocOp::Deallocate { ptr, size, align } => spec_deallocate(m, ptr, size, align),
    }
}

/// Whether one call meets its caller contract in the given state: an
/// allocation asks for a real alignment, a release names a range that
/// is actually live.
pub open spec fn op_ok(m: AllocModel, op: AllocOp) -> bool {
    match op {
        AllocOp::Allocate { size, align } => align >= 1,
        AllocOp::Deallocate { ptr, size, align } => m.live.count(
            (ptr, eff_size(size) as usize),
        ) > 0,
    }
}

/// The state after a whole trace of calls.
pub open spec fn run_ops(m: AllocModel, ops: Seq<AllocOp>) -> AllocModel
    decreases ops.len(),
{
    if ops.len() == 0 {
        m
    } else {
        run_ops(spec_step(m, ops[0]), ops.drop_first())
    }
}

/// Whether every call of the trace meets its contract in the state it
/// runs in.
pub open spec fn ops_ok(m: AllocModel, ops: Seq<AllocOp>) -> bool
    decreases ops.len(),
{
    ops.len() == 0 || (op_ok(m, ops[0]) && ops_ok(spec_step(m, ops[0]), ops.drop_first()))
}

/// How many allocations of the trace succeed.
pub open spec fn alloc_successes(m: AllocModel, ops: Seq<AllocOp>) -> int
    decreases ops.len(),
{
    if ops.len() == 0 {
        0
    } else {
        (match ops[0] {
            AllocOp::Allocate { size, align } => if first_fit(m.free, size, align) is Some {
                1int
            } else {
                0int
            },
            AllocOp::Deallocate { .. } => 0int,
        }) + alloc_successes(spec_step(m, ops[0]), ops.drop_first())
    }
}

/// How many releases the trace holds.
pub open spec fn dealloc_calls(ops: Seq<AllocOp>) -> int
    decreases ops.len(),
{
    if ops.len() == 0 {
        0
    } else {
        (match ops[0] {
            AllocOp::Allocate { .. } => 0int,
            AllocOp::Deallocate { .. } => 1int,
        }) + dealloc_calls(ops.drop_first())
    }
}

/// Any interleaving of callers is an admissible trace against the one
/// shared state, since every operation runs to completion.  However the
/// calls interleave, the state stays well-formed — so live allocations
/// never overlap at any point — the high-water mark never goes down, and
/// the two call counters advance by exactly the successful allocations
/// and the releases.
pub proof fn lemma_interleaved_run(m: AllocModel, ops: Seq<AllocOp>)
    requires
        model_wf(m),
        ops_ok(m, ops),
    ensures
        model_wf(run_ops(m, ops)),
        run_ops(m, ops).max_allocated >= m.max_allocated,
        run_ops(m, ops).allocation_count == sat_add64(m.allocation_count, alloc_successes(m, ops)),
        run_ops(m, ops).deallocation_count == sat_add64(m.deallocation_count, dealloc_calls(ops)),
    decreases ops.len(),
{
    if ops.len() > 0 {
        let m1 = spec_step(m, ops[0]);
        match ops[0] {
            AllocOp::Allocate { size, align } => {
                lemma_allocate_wf(m, size, align);
            },
            AllocOp::Deallocate { ptr, size, align } => {
                lemma_deallocate_wf(m, ptr, size, align);
            },
        }
        lemma_interleaved_run(m1, ops.drop_first());
        lemma_sum_nonneg_alloc(m1, ops.drop_first());
        lemma_sum_nonneg_dealloc(ops.drop_first());
    }
}

/// A trace never succeeds a negative number of times.
proof fn lemma_sum_nonneg_alloc(m: AllocModel, ops: Seq<AllocOp>)
    ensures
        alloc_successes(m, ops) >= 0,
    decreases ops.len(),
{
    if ops.len() > 0 {
        lemma_sum_nonneg_alloc(spec_step(m, ops[0]), ops.drop_first());
    }
}

/// A trace never holds a negative number of releases.
proof fn lemma_sum_nonneg_dealloc(ops: Seq<AllocOp>)
    ensures
        dealloc_calls(ops) >= 0,
    decreases ops.len(),
{
    if ops.len() > 0 {
        lemma_sum_nonneg_dealloc(ops.drop_first());
    }
}

/// Every prefix of an admissible trace is admissible, so the conclusions
/// of the trace law hold at every observation point along the way.
pub proof fn lemma_ops_ok_prefix(m: AllocModel, ops: Seq<AllocOp>, k: int)
    requires
        ops_ok(m, ops),
        0 <= k <= ops.len(),
    ensures
        ops_ok(m, ops.take(k)),
    decreases ops.len(),
{
    if k > 0 && ops.len() > 0 {
        assert(ops.take(k)[0] == ops[0]);
        lemma_ops_ok_prefix(spec_step(m, ops[0]), ops.drop_first(), k - 1);
        assert(ops.take(k).drop_first() =~= ops.drop_first().take(k - 1));
    } else {
        assert(ops.take(0) =~= Seq::<AllocOp>::empty());
    }
}

/// The statistics are derived, never authoritative: as long as the
/// cumulative allocated counter has not saturated, the outstanding byte
/// count is recomputable from the two cumulative totals.
pub proof fn lemma_counters_recomposable(m: AllocModel)
    requires
        model_wf(m),
        m.total_allocated < u64::MAX,
    ensures
        m.current_allocated == m.total_allocated - m.total_freed,
{
}

/// No two live allocations of a well-formed allocator share an address:
/// whatever interleaving of allocate and deallocate calls produced the
/// state, ranges held by callers never overlap.
pub proof fn lemma_live_allocations_disjoint(m: AllocModel, r1: (usize, usize), r2: (usize, usize))
    requires
        model_wf(m),
        m.live.count(r1) > 0,
        m.live.count(r2) > 0,
        r1 != r2,
    ensures
        ranges_disjoint(r1.0 as int, r1.1 as int, r2.0 as int, r2.1 as int),
{
}

} // verus!
