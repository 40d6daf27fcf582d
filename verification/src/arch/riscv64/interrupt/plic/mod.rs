//! RISC-V Platform-Level Interrupt Controller (PLIC) bookkeeping:
//! interrupt numbers, priorities, per-hart contexts and register addresses.

use vstd::prelude::*;

pub mod plic_offset;

verus! {

/// Number of interrupt sources (source 0 means "no interrupt").
pub const PLIC_MAX_SOURCES: usize = 1024;

/// Maximum number of harts.
pub const PLIC_MAX_HARTS: usize = 8;

/// Contexts per hart (M-mode and S-mode).
pub const PLIC_MAX_CONTEXT_PER_HART: usize = 2;

/// Number of context slots.
pub const PLIC_MAX_CONTEXTS: usize = 16;

/// Highest priority value.
pub const PLIC_MAX_PRIORITY: u32 = 7;

/// A PLIC interrupt number.
#[derive(Debug, Clone, Copy, PartialEq, Eq, Structural)]
pub struct PlicIrq(pub u32);

impl PlicIrq {
    /// No interrupt.
    pub const NONE: u32 = 0;

    /// Create an interrupt number.
    pub fn new(irq: u32) -> (r: PlicIrq)
        ensures
            r.0 == irq,
    {
        PlicIrq(irq)
    }

    /// The raw number.
    pub fn into_inner(self) -> (r: u32)
        ensures
            r == self.0,
    {
        self.0
    }

    /// Whether the number names a real source (1..1023).
    pub fn is_valid(self) -> (r: bool)
        ensures
            r == (0 < self.0 < PLIC_MAX_SOURCES),
    {
        self.0 > 0 && self.0 < PLIC_MAX_SOURCES as u32
    }
}

/// A PLIC priority (0..=7).
#[derive(Debug, Clone, Copy, PartialEq, Eq, Structural)]
pub struct PlicPriority(pub u32);

impl PlicPriority {
    /// Lowest priority (never delivered).
    pub const MIN: u32 = 0;
    /// Highest priority.
    pub const MAX: u32 = 7;
    /// Default priority.
    pub const DEFAULT: u32 = 1;

    /// A priority, clamped to the highest value.
    pub fn new(priority: u32) -> (r: PlicPriority)
        ensures
            r.0 == (if priority > PLIC_MAX_PRIORITY { PLIC_MAX_PRIORITY } else { priority }),
    {
        let clamped = if priority > PLIC_MAX_PRIORITY {
            PLIC_MAX_PRIORITY
        } else {
            priority
        };
        PlicPriority(clamped)
    }

    /// The raw value.
    pub fn into_inner(self) -> (r: u32)
        ensures
            r == self.0,
    {
        self.0
    }
}

/// Law: a constructed priority is always in range and keeps in-range values.
pub proof fn lemma_priority_clamp(p: u32)
    ensures
        (if p > PLIC_MAX_PRIORITY { PLIC_MAX_PRIORITY } else { p }) <= PLIC_MAX_PRIORITY,
        p <= PLIC_MAX_PRIORITY ==> (if p > PLIC_MAX_PRIORITY { PLIC_MAX_PRIORITY } else { p }) == p,
{
}

/// The register base of context `context_id` of hart `hart_id`.
pub open spec fn context_base(plic_base: int, hart_id: int, context_id: int) -> int {
    plic_base + 0x200000 + (hart_id * 2 + context_id) * 0x1000
}

/// One hart context (M-mode or S-mode) of the PLIC.
#[derive(Debug)]
pub struct PlicHartContext {
    pub hart_id: usize,
    pub context_id: usize,
    /// Base address of this context's registers
    pub base: usize,
    /// Priority threshold
    pub threshold: u32,
}

impl PlicHartContext {
    /// Create the context of `hart_id`/`context_id` for a PLIC at `plic_base`.
    pub fn new(hart_id: usize, context_id: usize, plic_base: usize) -> (r: PlicHartContext)
        requires
            context_base(plic_base as int, hart_id as int, context_id as int) + 8 <= usize::MAX,
        ensures
            r.hart_id == hart_id && r.context_id == context_id,
            r.base == context_base(plic_base as int, hart_id as int, context_id as int),
            r.threshold == 0,
    {
        proof {
            assert(0 <= (hart_id * 2 + context_id) * 0x1000) by (nonlinear_arith);
        }
        let context_offset = plic_offset::CONTEXT_BASE + (hart_id * PLIC_MAX_CONTEXT_PER_HART
            + context_id) * 0x1000;
        let base = plic_base + context_offset;
        PlicHartContext { hart_id, context_id, base, threshold: 0 }
    }

    /// Address of the threshold register.
    pub fn threshold_addr(&self) -> (r: usize)
        ensures
            r == self.base,
    {
        self.base + plic_offset::THRESHOLD
    }

    /// Address of the claim/complete register.
    pub fn claim_complete_addr(&self) -> (r: usize)
        requires
            self.base + 4 <= usize::MAX,
        ensures
            r == self.base + 4,
    {
        self.base + plic_offset::CLAIM_COMPLETE
    }

    /// Set the priority threshold.
    pub fn set_threshold(&mut self, threshold: PlicPriority)
        ensures
            final(self).threshold == threshold.0,
            final(self).base == old(self).base && final(self).hart_id == old(self).hart_id
                && final(self).context_id == old(self).context_id,
    {
        self.threshold = threshold.into_inner();
    }

    /// Get the priority threshold.
    pub fn get_threshold(&self) -> (r: PlicPriority)
        ensures
            r.0 == self.threshold,
    {
        PlicPriority(self.threshold)
    }

    /// Claim the highest-priority pending interrupt; none is tracked.
    pub fn claim(&self) -> (r: PlicIrq)
        ensures
            r.0 == PlicIrq::NONE,
    {
        PlicIrq(PlicIrq::NONE)
    }

    /// Complete handling of an interrupt.
    pub fn complete(&self, irq: PlicIrq) {
        let _ = irq;
    }
}

/// `c` is a fresh context of `hart_id`/`context_id` for a PLIC at `base`.
pub open spec fn context_matches(c: PlicHartContext, hart_id: usize, context_id: usize, base: usize) -> bool {
    c.hart_id == hart_id && c.context_id == context_id && c.base == context_base(
        base as int,
        hart_id as int,
        context_id as int,
    ) && c.threshold == 0
}

/// The PLIC.
pub struct Plic {
    pub base: usize,
    pub num_sources: usize,
    pub num_harts: usize,
    /// Context slots, indexed by hart * 2 + context
    pub contexts: Vec<Option<PlicHartContext>>,
}

impl Plic {
    /// A full set of context slots.
    pub open spec fn wf(&self) -> bool {
        self.contexts@.len() == PLIC_MAX_CONTEXTS
    }

    /// Create a PLIC at `base` with no contexts.
    pub fn new(base: usize) -> (r: Plic)
        ensures
            r.wf(),
            r.base == base,
            r.num_sources == 0 && r.num_harts == 0,
            forall|i: int| 0 <= i < PLIC_MAX_CONTEXTS ==> r.contexts@[i] is None,
    {
        let mut contexts: Vec<Option<PlicHartContext>> = Vec::new();
        let mut i: usize = 0;
        while i < PLIC_MAX_CONTEXTS
            invariant
                i <= PLIC_MAX_CONTEXTS,
                contexts@.len() == i,
                forall|j: int| 0 <= j < i ==> contexts@[j] is None,
            decreases PLIC_MAX_CONTEXTS - i,
        {
            contexts.push(None);
            i = i + 1;
        }
        Plic { base, num_sources: 0, num_harts: 0, contexts }
    }

    /// Initialize the PLIC; not supported yet.
    pub fn init(&self) -> (r: Result<(), &'static str>)
        ensures
            r == Err::<(), &'static str>("PLIC initialization not yet implemented"),
    {
        Err("PLIC initialization not yet implemented")
    }

    /// Address of the priority register of `irq`.
    pub fn priority_addr(&self, irq: PlicIrq) -> (r: usize)
        requires
            self.base + irq.0 * 4 <= usize::MAX,
        ensures
            r == self.base + irq.0 * 4,
    {
        self.base + plic_offset::PRIORITY_BASE + (irq.into_inner() as usize * 4)
    }

    /// Set the priority of `irq`; the register write is not modelled.
    pub fn set_priority(&self, irq: PlicIrq, priority: PlicPriority) {
        let _ = (irq, priority);
    }

    /// Priority of `irq`; not read back from hardware, so the default.
    pub fn get_priority(&self, irq: PlicIrq) -> (r: PlicPriority)
        ensures
            r.0 == PlicPriority::DEFAULT,
    {
        let _ = irq;
        PlicPriority(PlicPriority::DEFAULT)
    }

    /// Address of the pending registers.
    pub fn pending_addr(&self) -> (r: usize)
        requires
            self.base + 0x1000 <= usize::MAX,
        ensures
            r == self.base + 0x1000,
    {
        self.base + plic_offset::PENDING_BASE
    }

    /// Whether `irq` is pending; not read from hardware, so false.
    pub fn is_pending(&self, irq: PlicIrq) -> (r: bool)
        ensures
            !r,
    {
        let _ = irq;
        false
    }

    /// Address of the enable register word holding `irq` for a context.
    pub fn enable_addr(&self, hart_id: usize, context_id: usize, irq: PlicIrq) -> (r: usize)
        requires
            self.base + 0x2000 + (hart_id * 2 + context_id) * 0x80 + (irq.0 / 32) * 4
                <= usize::MAX,
        ensures
            r == self.base + 0x2000 + (hart_id * 2 + context_id) * 0x80 + (irq.0 / 32) * 4,
    {
        proof {
            assert(0 <= (hart_id * 2 + context_id) * 0x80) by (nonlinear_arith);
        }
        let enable_offset = (hart_id * PLIC_MAX_CONTEXT_PER_HART + context_id) * 0x80;
        let reg_offset = (irq.into_inner() as usize / 32) * 4;
        self.base + plic_offset::ENABLE_BASE + enable_offset + reg_offset
    }

    /// Enable `irq` for a context.
    pub fn enable_irq(&self, hart_id: usize, context_id: usize, irq: PlicIrq) -> (r: Result<
        (),
        &'static str,
    >)
        ensures
            (0 < irq.0 < PLIC_MAX_SOURCES) ==> r is Ok,
            !(0 < irq.0 < PLIC_MAX_SOURCES) ==> r == Err::<(), &'static str>("IRQ out of range"),
    {
        if !irq.is_valid() {
            return Err("IRQ out of range");
        }
        let _ = (hart_id, context_id);
        Ok(())
    }

    /// Disable `irq` for a context.
    pub fn disable_irq(&self, hart_id: usize, context_id: usize, irq: PlicIrq) -> (r: Result<
        (),
        &'static str,
    >)
        ensures
            (0 < irq.0 < PLIC_MAX_SOURCES) ==> r is Ok,
            !(0 < irq.0 < PLIC_MAX_SOURCES) ==> r == Err::<(), &'static str>("IRQ out of range"),
    {
        if !irq.is_valid() {
            return Err("IRQ out of range");
        }
        let _ = (hart_id, context_id);
        Ok(())
    }

    /// The context of `hart_id`/`context_id`, if it has been added.
    pub fn get_context(&self, hart_id: usize, context_id: usize) -> (r: Option<&PlicHartContext>)
        requires
            self.wf(),
            hart_id * 2 + context_id <= usize::MAX,
        ensures
            hart_id * 2 + context_id >= PLIC_MAX_CONTEXTS ==> r is None,
            hart_id * 2 + context_id < PLIC_MAX_CONTEXTS ==> (match self.contexts@[hart_id * 2
                + context_id] {
                Some(c) => r == Some(&c),
                None => r is None,
            }),
    {
        let idx = hart_id * PLIC_MAX_CONTEXT_PER_HART + context_id;
        if idx >= self.contexts.len() {
            return None;
        }
        self.contexts[idx].as_ref()
    }

    /// Add (or replace) the context of `hart_id`/`context_id`.
    pub fn add_context(&mut self, hart_id: usize, context_id: usize) -> (r: Result<
        (),
        &'static str,
    >)
        requires
            old(self).wf(),
            hart_id * 2 + context_id <= usize::MAX,
            context_base(old(self).base as int, hart_id as int, context_id as int) + 8
                <= usize::MAX,
        ensures
            final(self).wf(),
            final(self).base == old(self).base,
            hart_id * 2 + context_id >= PLIC_MAX_CONTEXTS ==> r == Err::<(), &'static str>(
                "Context index out of range",
            ) && final(self).contexts@ == old(self).contexts@,
            hart_id * 2 + context_id < PLIC_MAX_CONTEXTS ==> {
                &&& r is Ok
                &&& final(self).contexts@[hart_id * 2 + context_id] is Some
                &&& context_matches(
                    final(self).contexts@[hart_id * 2 + context_id]->0,
                    hart_id,
                    context_id,
                    old(self).base,
                )
                &&& forall|j: int|
                    0 <= j < PLIC_MAX_CONTEXTS && j != hart_id * 2 + context_id
                        ==> final(self).contexts@[j] == old(self).contexts@[j]
            },
    {
        let idx = hart_id * PLIC_MAX_CONTEXT_PER_HART + context_id;
        if idx >= self.contexts.len() {
            return Err("Context index out of range");
        }
        let ctx = PlicHartContext::new(hart_id, context_id, self.base);
        self.contexts.set(idx, Some(ctx));
        Ok(())
    }

    /// Number of interrupt sources.
    pub fn num_sources(&self) -> (r: usize)
        ensures
            r == self.num_sources,
    {
        self.num_sources
    }

    /// Number of harts.
    pub fn num_harts(&self) -> (r: usize)
        ensures
            r == self.num_harts,
    {
        self.num_harts
    }
}

/// Law: distinct hart/context pairs use distinct context slots.
pub proof fn lemma_context_slot_distinct(h1: int, c1: int, h2: int, c2: int)
    requires
        0 <= c1 < 2,
        0 <= c2 < 2,
        h1 >= 0,
        h2 >= 0,
        h1 * 2 + c1 == h2 * 2 + c2,
    ensures
        h1 == h2 && c1 == c2,
{
}

} // verus!
