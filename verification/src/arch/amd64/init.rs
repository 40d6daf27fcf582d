//! x86_64 early setup: the kernel stack that replaces the small one the
//! firmware starts the kernel on.
//!
//! Its pages come from the kernel zone of the physical memory manager, one
//! at a time; switching onto it is the caller's work.

use vstd::prelude::*;
use crate::mm::pmm::{
    Arena, Pmm, can_serve, lemma_allocated_page_in_arena, page_alloc_outcome, paddr_to_vaddr,
    phys_to_virt, pmm_alloc_kernel_page, IDENTITY_MAP_LIMIT, KERNEL_PHYS_OFFSET,
    PMM_ALLOC_FLAG_KERNEL,
};

verus! {

/// Pages asked for the kernel stack (128 KiB).
pub const STACK_PAGES: usize = 32;

/// The kernel stack: where it starts, physically and virtually, how large
/// it is, and the pages it was given, in order.
pub struct KernelStack {
    pub paddr: u64,
    pub vaddr: usize,
    pub size: usize,
    pub pages: Vec<u64>,
}

/// The direct map reaches every page of every arena.
pub open spec fn direct_mapped(arenas: Seq<Arena>) -> bool {
    forall|k: int|
        0 <= k < arenas.len() ==> (#[trigger] arenas[k]).info_of().base + arenas[k].info_of().size
            <= u64::MAX - KERNEL_PHYS_OFFSET
}

/// Whether the direct map reaches every page of every arena of `pmm`, as
/// `alloc_kernel_stack` asks.
pub fn arenas_direct_mapped(pmm: &Pmm) -> (r: bool)
    ensures
        r == direct_mapped(pmm.arenas()),
{
    let limit: u64 = u64::MAX - KERNEL_PHYS_OFFSET;
    let mut k: usize = 0;
    while k < pmm.arena_count()
        invariant
            limit == u64::MAX - KERNEL_PHYS_OFFSET,
            k <= pmm.arenas().len(),
            forall|j: int|
                0 <= j < k ==> (#[trigger] pmm.arenas()[j]).info_of().base + pmm.arenas()[j].info_of().size
                    <= u64::MAX - KERNEL_PHYS_OFFSET,
        decreases pmm.arenas().len() - k,
    {
        let info = pmm.arena_info(k);
        if info.size as u64 > limit || info.base > limit - info.size as u64 {
            return false;
        }
        k = k + 1;
    }
    true
}

/// Step `i` of `st` is a kernel-page allocation that handed out `pages[i]`.
pub open spec fn alloc_step(st: Seq<Seq<Arena>>, pages: Seq<u64>, i: int) -> bool {
    page_alloc_outcome(st[i], st[i + 1], PMM_ALLOC_FLAG_KERNEL, Ok(pages[i]))
}

/// `st` are the arena states of successive kernel-page allocations that
/// handed out `pages`, one state more than pages.
pub open spec fn alloc_chain(st: Seq<Seq<Arena>>, pages: Seq<u64>) -> bool {
    &&& st.len() == pages.len() + 1
    &&& forall|i: int| 0 <= i < pages.len() ==> #[trigger] alloc_step(st, pages, i)
}

/// No arena of `arenas` can give a kernel page.
pub open spec fn kernel_zone_exhausted(arenas: Seq<Arena>) -> bool {
    forall|k: int| 0 <= k < arenas.len() ==> !can_serve(#[trigger] arenas[k], PMM_ALLOC_FLAG_KERNEL)
}

/// Allocate the kernel stack: up to `STACK_PAGES` kernel pages, one at a
/// time, stopping at the first that cannot be had. The stack starts at the
/// first page and spans one page per page obtained; `None` when not even
/// one page could be had.
pub fn alloc_kernel_stack(pmm: &mut Pmm) -> (r: Option<KernelStack>)
    requires
        old(pmm).wf(),
        direct_mapped(old(pmm).arenas()),
    ensures
        final(pmm).wf(),
        exists|st: Seq<Seq<Arena>>, pages: Seq<u64>|
            {
                &&& alloc_chain(st, pages)
                &&& st[0] == old(pmm).arenas()
                &&& st.last() == final(pmm).arenas()
                &&& pages.len() <= STACK_PAGES
                &&& pages.len() < STACK_PAGES ==> kernel_zone_exhausted(final(pmm).arenas())
                &&& (r is None <==> pages.len() == 0)
                &&& r matches Some(ks) ==> {
                    &&& ks.pages@ == pages
                    &&& ks.paddr == pages[0]
                    &&& ks.vaddr == phys_to_virt(pages[0])
                    &&& ks.size == pages.len() * 4096
                }
            },
{
    let ghost a0 = pmm.arenas();
    proof {
        pmm.lemma_arenas_wf();
    }
    let ghost mut st: Seq<Seq<Arena>> = seq![pmm.arenas()];
    let mut pages: Vec<u64> = Vec::new();
    let mut i: usize = 0;
    while i < STACK_PAGES
        invariant
            pmm.wf(),
            i <= STACK_PAGES,
            pages@.len() == i,
            alloc_chain(st, pages@),
            st[0] == a0,
            st.last() == pmm.arenas(),
            i > 0 ==> exists|k: int| 0 <= k < a0.len() && (#[trigger] a0[k]).contains_addr(pages@[0]),
            forall|k: int| 0 <= k < a0.len() ==> (#[trigger] a0[k]).wf(),
        ensures
            pages@.len() < STACK_PAGES ==> kernel_zone_exhausted(pmm.arenas()),
        decreases STACK_PAGES - i,
    {
        let ghost before = pmm.arenas();
        match pmm_alloc_kernel_page(pmm) {
            Ok(paddr) => {
                proof {
                    if i == 0 {
                        lemma_allocated_page_in_arena(a0, pmm.arenas(), PMM_ALLOC_FLAG_KERNEL, paddr);
                    }
                    let st2 = st.push(pmm.arenas());
                    let p2 = pages@.push(paddr);
                    assert forall|j: int| 0 <= j < p2.len() implies #[trigger] alloc_step(st2, p2, j) by {
                        if j < pages@.len() {
                            assert(alloc_step(st, pages@, j));
                        }
                    }
                    st = st2;
                }
                pages.push(paddr);
            },
            Err(_) => {
                break;
            },
        }
        i = i + 1;
    }
    if pages.len() == 0 {
        return None;
    }
    let stack_paddr = pages[0];
    let stack_vaddr = paddr_to_vaddr(stack_paddr);
    let stack_size = pages.len() * 4096;
    Some(KernelStack { paddr: stack_paddr, vaddr: stack_vaddr, size: stack_size, pages })
}

} // verus!
