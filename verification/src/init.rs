//! Kernel initialization: the stages it goes through, the boot-time
//! allocator that serves the physical memory manager's own records, and the
//! digits of the numbers the boot log prints.

use vstd::prelude::*;
use crate::mm::pmm::{
    Pmm, ArenaInfo, PageState, pmm_add_arena, pmm_count_free_pages, pmm_reserve_pages, total_free,
    count_free, range_set, some_holds_range, first_holding_range, only_arena_changed,
    ARENA_FLAG_LOW_MEM, ARENA_FLAG_KERNEL, ARENA_FLAG_USER,
};
use crate::arch::amd64::mm::page_tables::RxStatus;
use crate::mm::allocator::{init_aligned, LinkedListAllocator};
use crate::mm::pmm::paddr_to_vaddr;

verus! {

/// Stages of kernel initialization, in order.
#[derive(Debug, Clone, Copy, PartialEq, Eq, Structural)]
pub enum InitState {
    NotStarted,
    Early,
    Arch,
    PMM,
    VM,
    PerCpu,
    Thread,
    Scheduler,
    Timer,
    Syscall,
    Complete,
    Running,
}

impl InitState {
    /// Position of the stage in the order of initialization.
    pub open spec fn rank(self) -> u8 {
        match self {
            InitState::NotStarted => 0,
            InitState::Early => 1,
            InitState::Arch => 2,
            InitState::PMM => 3,
            InitState::VM => 4,
            InitState::PerCpu => 5,
            InitState::Thread => 6,
            InitState::Scheduler => 7,
            InitState::Timer => 8,
            InitState::Syscall => 9,
            InitState::Complete => 10,
            InitState::Running => 11,
        }
    }

    /// Position of the stage in the order of initialization.
    pub fn into_raw(self) -> (r: u8)
        ensures
            r == self.rank(),
    {
        match self {
            InitState::NotStarted => 0,
            InitState::Early => 1,
            InitState::Arch => 2,
            InitState::PMM => 3,
            InitState::VM => 4,
            InitState::PerCpu => 5,
            InitState::Thread => 6,
            InitState::Scheduler => 7,
            InitState::Timer => 8,
            InitState::Syscall => 9,
            InitState::Complete => 10,
            InitState::Running => 11,
        }
    }

    /// Whether this stage comes before `other`.
    pub fn is_before(self, other: InitState) -> (r: bool)
        ensures
            r == (self.rank() < other.rank()),
    {
        self.into_raw() < other.into_raw()
    }
}

/// Start kernel initialization: from `NotStarted` to `Early`. Starting it a
/// second time is refused.
pub fn begin_kernel_init(state: InitState) -> (r: Result<InitState, &'static str>)
    ensures
        state == InitState::NotStarted ==> r == Ok::<InitState, &'static str>(InitState::Early),
        state != InitState::NotStarted ==> r == Err::<InitState, &'static str>(
            "kernel_init called multiple times",
        ),
{
    if state != InitState::NotStarted {
        return Err("kernel_init called multiple times");
    }
    Ok(InitState::Early)
}

/// Size of the boot allocator's buffer.
pub const BOOT_ALLOC_SIZE: usize = 0x20_0000;

/// Bump allocator over a fixed buffer, used before the heap exists.
pub struct BootAllocator {
    start: usize,
    size: usize,
    offset: usize,
}

/// `current` rounded up to a multiple of `align`.
pub open spec fn align_up(current: int, align: int) -> int {
    if current % align == 0 {
        current
    } else {
        (current / align + 1) * align
    }
}

impl BootAllocator {
    /// Start of the buffer.
    pub closed spec fn start_of(&self) -> usize {
        self.start
    }

    /// Size of the buffer.
    pub closed spec fn size_of(&self) -> usize {
        self.size
    }

    /// Bytes used so far.
    pub closed spec fn used(&self) -> usize {
        self.offset
    }

    /// An allocator over `size` bytes, not yet placed.
    pub fn new(size: usize) -> (r: BootAllocator)
        ensures
            r.start_of() == 0 && r.size_of() == size && r.used() == 0,
    {
        BootAllocator { start: 0, size, offset: 0 }
    }

    /// Place the buffer at `start`.
    pub fn init(&mut self, start: usize)
        ensures
            final(self).start_of() == start,
            final(self).size_of() == old(self).size_of(),
            final(self).used() == old(self).used(),
    {
        self.start = start;
    }

    /// Hand out `size` bytes aligned to `align` within the buffer: the
    /// address `start + align_up(used, align)`; `None` when they do not fit.
    pub fn allocate(&mut self, size: usize, align: usize) -> (r: Option<usize>)
        requires
            align > 0,
            old(self).start_of() + old(self).size_of() <= usize::MAX,
            old(self).used() <= old(self).size_of(),
            align_up(old(self).used() as int, align as int) + size <= usize::MAX,
        ensures
            final(self).start_of() == old(self).start_of(),
            final(self).size_of() == old(self).size_of(),
            final(self).used() <= final(self).size_of(),
            ({
                let aligned = align_up(old(self).used() as int, align as int);
                if aligned + size > old(self).size_of() {
                    r is None && final(self).used() == old(self).used()
                } else {
                    r == Some((old(self).start_of() + aligned) as usize) && final(self).used() == aligned
                        + size
                }
            }),
    {
        let current = self.offset;
        let aligned = if current % align == 0 {
            current
        } else {
            proof {
                assert((current / align + 1) * align == current / align * align + align) by (nonlinear_arith);
                assert(current / align * align <= current) by (nonlinear_arith)
                    requires
                        align > 0,
                ;
                assert(align_up(current as int, align as int) == (current / align + 1) * align);
            }
            assert(align != 1);
            assert(current / align < usize::MAX) by (nonlinear_arith)
                requires
                    align > 1,
            ;
            let q1 = current / align + 1;
            assert(q1 * align <= usize::MAX);
            q1 * align
        };
        let new_offset = aligned + size;
        if new_offset > self.size {
            return None;
        }
        self.offset = new_offset;
        Some(self.start + aligned)
    }
}

/// `current` rounded up to a multiple of `align` is at least `current`.
proof fn lemma_align_up_ge(current: int, align: int)
    requires
        0 <= current,
        align > 0,
    ensures
        align_up(current, align) >= current,
{
    if current % align != 0 {
        assert((current / align + 1) * align >= current) by (nonlinear_arith)
            requires
                align > 0,
                0 <= current,
        ;
    }
}

/// Law: two successive allocations from the boot allocator never overlap:
/// the second starts at or after the end of the first.
pub proof fn lemma_boot_allocations_disjoint(
    start: int,
    used0: int,
    size1: int,
    align1: int,
    size2: int,
    align2: int,
)
    requires
        0 <= used0,
        0 <= size1,
        align1 > 0,
        align2 > 0,
    ensures
        ({
            let a1 = align_up(used0, align1);
            let used1 = a1 + size1;
            let a2 = align_up(used1, align2);
            start + a1 + size1 <= start + a2
        }),
{
    let a1 = align_up(used0, align1);
    lemma_align_up_ge(used0, align1);
    lemma_align_up_ge(a1 + size1, align2);
}

/// Value of a hexadecimal digit, upper case.
pub open spec fn hex_digit(d: int) -> u8 {
    if d < 10 {
        (48 + d) as u8
    } else {
        (65 + d - 10) as u8
    }
}

/// Upper-case hexadecimal digits of `n`, most significant first, without
/// leading zeros ("0" for zero).
pub open spec fn hex_repr(n: nat) -> Seq<u8>
    decreases n,
{
    if n < 16 {
        seq![hex_digit(n as int)]
    } else {
        hex_repr(n / 16).push(hex_digit((n % 16) as int))
    }
}

/// Decimal digits of `n`, most significant first, without leading zeros
/// ("0" for zero).
pub open spec fn decimal_repr(n: nat) -> Seq<u8>
    decreases n,
{
    if n < 10 {
        seq![(48 + n) as u8]
    } else {
        decimal_repr(n / 10).push((48 + n % 10) as u8)
    }
}

/// The digits the boot log prints for `n` in hexadecimal.
pub fn hex_digits(n: u64) -> (r: Vec<u8>)
    ensures
        r@ == hex_repr(n as nat),
{
    let mut digits: Vec<u8> = Vec::new();
    let mut m: u64 = n;
    while m >= 16
        invariant
            hex_repr(n as nat) == hex_repr(m as nat) + digits@,
        decreases m,
    {
        let d = (m % 16) as u8;
        let c: u8 = if d < 10 { 48 + d } else { 65 + d - 10 };
        let mut next: Vec<u8> = Vec::new();
        next.push(c);
        let mut k: usize = 0;
        while k < digits.len()
            invariant
                next@ == seq![c] + digits@.subrange(0, k as int),
                k <= digits@.len(),
            decreases digits@.len() - k,
        {
            next.push(digits[k]);
            k = k + 1;
            assert(next@ =~= seq![c] + digits@.subrange(0, k as int));
        }
        assert(digits@.subrange(0, digits@.len() as int) =~= digits@);
        proof {
            assert(hex_repr(m as nat) == hex_repr((m / 16) as nat).push(c));
            assert(hex_repr((m / 16) as nat).push(c) + digits@ =~= hex_repr((m / 16) as nat) + next@);
        }
        digits = next;
        m = m / 16;
    }
    let d = m as u8;
    let c: u8 = if d < 10 { 48 + d } else { 65 + d - 10 };
    let mut out: Vec<u8> = Vec::new();
    out.push(c);
    let mut k: usize = 0;
    while k < digits.len()
        invariant
            out@ == seq![c] + digits@.subrange(0, k as int),
            k <= digits@.len(),
        decreases digits@.len() - k,
    {
        out.push(digits[k]);
        k = k + 1;
        assert(out@ =~= seq![c] + digits@.subrange(0, k as int));
    }
    assert(digits@.subrange(0, digits@.len() as int) =~= digits@);
    assert(hex_repr(m as nat) == seq![c]);
    out
}

/// The digits the boot log prints for `n` in decimal.
pub fn decimal_digits(n: usize) -> (r: Vec<u8>)
    ensures
        r@ == decimal_repr(n as nat),
{
    let mut digits: Vec<u8> = Vec::new();
    let mut m: usize = n;
    while m >= 10
        invariant
            decimal_repr(n as nat) == decimal_repr(m as nat) + digits@,
        decreases m,
    {
        let c: u8 = 48 + (m % 10) as u8;
        let mut next: Vec<u8> = Vec::new();
        next.push(c);
        let mut k: usize = 0;
        while k < digits.len()
            invariant
                next@ == seq![c] + digits@.subrange(0, k as int),
                k <= digits@.len(),
            decreases digits@.len() - k,
        {
            next.push(digits[k]);
            k = k + 1;
            assert(next@ =~= seq![c] + digits@.subrange(0, k as int));
        }
        assert(digits@.subrange(0, digits@.len() as int) =~= digits@);
        proof {
            assert(decimal_repr(m as nat) == decimal_repr((m / 10) as nat).push(c));
            assert(decimal_repr((m / 10) as nat).push(c) + digits@ =~= decimal_repr((m / 10) as nat) + next@);
        }
        digits = next;
        m = m / 10;
    }
    let c: u8 = 48 + m as u8;
    let mut out: Vec<u8> = Vec::new();
    out.push(c);
    let mut k: usize = 0;
    while k < digits.len()
        invariant
            out@ == seq![c] + digits@.subrange(0, k as int),
            k <= digits@.len(),
        decreases digits@.len() - k,
    {
        out.push(digits[k]);
        k = k + 1;
        assert(out@ =~= seq![c] + digits@.subrange(0, k as int));
    }
    assert(digits@.subrange(0, digits@.len() as int) =~= digits@);
    assert(decimal_repr(m as nat) == seq![c]);
    out
}

/// Start of the kernel zone (2 MiB, after the kernel image).
pub const KERNEL_ZONE_BASE: u64 = 0x0020_0000;
/// Size of the kernel zone: page tables, heap, kernel metadata.
pub const KERNEL_ZONE_SIZE: usize = 0x00E0_0000;
/// Start of the user zone (16 MiB).
pub const USER_ZONE_BASE: u64 = 0x0100_0000;
/// Size of the user zone: VMO backing pages and user data.
pub const USER_ZONE_SIZE: usize = 0x0700_0000;
/// Physical address of the kernel heap, inside the kernel zone.
pub const HEAP_PADDR: u64 = 0x0030_0000;
/// Size of the kernel heap.
pub const HEAP_SIZE: usize = 0x10_0000;
/// Pages of the kernel heap.
pub const HEAP_PAGES: usize = 256;

/// Name of the kernel-zone arena.
pub const KERNEL_ARENA_NAME: [u8; 6] = [107, 101, 114, 110, 101, 108];
/// Name of the user-zone arena.
pub const USER_ARENA_NAME: [u8; 4] = [117, 115, 101, 114];

proof fn lemma_count_all_free(a: crate::mm::pmm::Arena, n: int)
    requires
        0 <= n <= a.len(),
        forall|j: int| 0 <= j < a.len() ==> a.state(j) == PageState::Free,
    ensures
        count_free(&a, n) == n,
    decreases n,
{
    if n > 0 {
        lemma_count_all_free(a, n - 1);
    }
}

/// Early initialization: place the boot allocator's buffer at `buffer`
/// and split physical memory into a kernel zone and a user zone, both low
/// memory. Answers the stage reached and the number of free pages.
pub fn init_early(pmm: &mut Pmm, boot: &mut BootAllocator, buffer: usize) -> (r: (InitState, u64))
    requires
        old(pmm).wf(),
        old(pmm).arenas().len() == 0,
    ensures
        final(pmm).wf(),
        final(boot).start_of() == buffer,
        final(boot).size_of() == old(boot).size_of() && final(boot).used() == old(boot).used(),
        final(pmm).arenas().len() == 2,
        final(pmm).arenas()[0].info_of().describes(ARENA_FLAG_LOW_MEM | ARENA_FLAG_KERNEL, 0,
            KERNEL_ZONE_BASE, KERNEL_ZONE_SIZE),
        final(pmm).arenas()[1].info_of().describes(ARENA_FLAG_LOW_MEM | ARENA_FLAG_USER, 1,
            USER_ZONE_BASE, USER_ZONE_SIZE),
        forall|k: int, j: int|
            0 <= k < 2 && 0 <= j < final(pmm).arenas()[k].len() ==> final(pmm).arenas()[k].state(j)
                == PageState::Free,
        r.0 == InitState::Early,
        r.1 == 32256,
{
    boot.init(buffer);
    let kernel_info = ArenaInfo::new(
        KERNEL_ARENA_NAME.as_slice(),
        ARENA_FLAG_LOW_MEM | ARENA_FLAG_KERNEL,
        0,
        KERNEL_ZONE_BASE,
        KERNEL_ZONE_SIZE,
    );
    let _ = pmm_add_arena(pmm, kernel_info);
    let user_info = ArenaInfo::new(
        USER_ARENA_NAME.as_slice(),
        ARENA_FLAG_LOW_MEM | ARENA_FLAG_USER,
        1,
        USER_ZONE_BASE,
        USER_ZONE_SIZE,
    );
    let _ = pmm_add_arena(pmm, user_info);
    let free_pages = pmm_count_free_pages(pmm);
    proof {
        let a = pmm.arenas();
        lemma_count_all_free(a[0], a[0].len());
        lemma_count_all_free(a[1], a[1].len());
        assert(total_free(a, 2) == total_free(a, 1) + count_free(&a[1], a[1].len()));
        assert(total_free(a, 1) == total_free(a, 0) + count_free(&a[0], a[0].len()));
    }
    (InitState::Early, free_pages)
}

/// Memory initialization: set up the kernel heap at its fixed physical
/// address (identity-mapped), then reserve its pages so they are never
/// handed out. Answers the stage reached.
pub fn init_memory(pmm: &mut Pmm, heap: &mut LinkedListAllocator) -> (r: InitState)
    requires
        old(pmm).wf(),
    ensures
        final(pmm).wf(),
        r == InitState::VM,
        final(heap).wf(),
        final(heap).ready(),
        final(heap).start() == HEAP_PADDR,
        final(heap).len() == HEAP_SIZE,
        final(heap).head() == HEAP_PADDR,
        final(heap).list_ends(),
        final(heap).blocks_end(),
        final(heap).used_total() == 0,
        final(heap).free_total() == HEAP_SIZE,
        !some_holds_range(old(pmm).arenas(), HEAP_PADDR, HEAP_PAGES as int) ==> final(pmm).arenas()
            == old(pmm).arenas(),
        some_holds_range(old(pmm).arenas(), HEAP_PADDR, HEAP_PAGES as int) ==> exists|k: int|
            first_holding_range(old(pmm).arenas(), HEAP_PADDR, HEAP_PAGES as int, k)
                && only_arena_changed(old(pmm).arenas(), final(pmm).arenas(), k) && ({
                let off = HEAP_PADDR - old(pmm).arenas()[k].info_of().base;
                range_set(old(pmm).arenas()[k], #[trigger] final(pmm).arenas()[k], off / 4096,
                    HEAP_PAGES as int, true, PageState::Reserved, true, 0)
            }),
{
    let heap_start_vaddr = paddr_to_vaddr(HEAP_PADDR);
    init_aligned(heap, heap_start_vaddr as usize, HEAP_SIZE);
    let _ = pmm_reserve_pages(pmm, HEAP_PADDR, HEAP_PAGES);
    InitState::VM
}

} // verus!
