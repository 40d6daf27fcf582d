//! Virtual memory objects (VMOs): page-granular memory regions that can be
//! written, read back, resized and cloned.
//!
//! The bytes of a VMO are held as its content: everything written so far,
//! up to the highest byte written; bytes below that mark that were never
//! written read as zero.

use vstd::prelude::*;
use crate::object::ids::{IdAllocator, nth_id};
use crate::object::handle::{KernelObjectBase, ObjectType, count_after_inc, count_after_dec};

verus! {

/// VMO identifier.
pub type VmoId = u64;

/// Page size used for VMO sizing.
pub const VMO_PAGE_SIZE: usize = 4096;

/// VMO creation flags.
#[derive(Debug, Clone, Copy, PartialEq, Eq, Structural)]
pub struct VmoFlags(pub u32);

impl VmoFlags {
    /// The VMO is resizable.
    pub const RESIZABLE: u32 = 0x01;
    /// The VMO is a copy-on-write clone.
    pub const COW: u32 = 0x02;

    /// No flags.
    pub fn empty() -> (r: VmoFlags)
        ensures
            r.0 == 0,
    {
        VmoFlags(0)
    }

    /// Whether the RESIZABLE bit is set.
    pub fn is_resizable(self) -> (r: bool)
        ensures
            r == (self.0 & 0x01 != 0),
    {
        (self.0 & Self::RESIZABLE) != 0
    }

    /// Whether the COW bit is set.
    pub fn is_cow(self) -> (r: bool)
        ensures
            r == (self.0 & 0x02 != 0),
    {
        (self.0 & Self::COW) != 0
    }

    /// Create from raw value.
    pub fn from_raw(raw: u32) -> (r: VmoFlags)
        ensures
            r.0 == raw,
    {
        VmoFlags(raw)
    }

    /// Get the raw value.
    pub fn into_raw(self) -> (r: u32)
        ensures
            r == self.0,
    {
        self.0
    }
}

impl core::ops::BitOr for VmoFlags {
    type Output = VmoFlags;

    fn bitor(self, rhs: VmoFlags) -> (r: VmoFlags) {
        VmoFlags(self.0 | rhs.0)
    }
}

impl vstd::std_specs::ops::BitOrSpecImpl for VmoFlags {
    open spec fn obeys_bitor_spec() -> bool {
        true
    }

    open spec fn bitor_req(self, rhs: VmoFlags) -> bool {
        true
    }

    open spec fn bitor_spec(self, rhs: VmoFlags) -> VmoFlags {
        VmoFlags(self.0 | rhs.0)
    }
}

/// Cache policy for VMO mappings.
#[derive(Debug, Clone, Copy, PartialEq, Eq, Structural)]
pub enum CachePolicy {
    /// Default caching
    Default,
    /// Uncached access
    Uncached,
    /// Write-combining
    WriteCombining,
    /// Write-through
    WriteThrough,
}

impl CachePolicy {
    /// Raw number of each policy.
    pub open spec fn raw_of(p: CachePolicy) -> u32 {
        match p {
            CachePolicy::Default => 0,
            CachePolicy::Uncached => 1,
            CachePolicy::WriteCombining => 2,
            CachePolicy::WriteThrough => 3,
        }
    }

    /// Create from raw value; unknown values give `Default`.
    pub fn from_raw(raw: u32) -> (r: CachePolicy)
        ensures
            raw <= 3 ==> Self::raw_of(r) == raw,
            raw > 3 ==> r == CachePolicy::Default,
    {
        match raw {
            1 => CachePolicy::Uncached,
            2 => CachePolicy::WriteCombining,
            3 => CachePolicy::WriteThrough,
            _ => CachePolicy::Default,
        }
    }

    /// Get the raw value.
    pub fn into_raw(self) -> (r: u32)
        ensures
            r == Self::raw_of(self),
    {
        match self {
            CachePolicy::Default => 0,
            CachePolicy::Uncached => 1,
            CachePolicy::WriteCombining => 2,
            CachePolicy::WriteThrough => 3,
        }
    }
}

/// Page map entry: where a page of a VMO lives physically.
#[derive(Debug)]
pub struct PageMapEntry {
    pub paddr: u64,
    pub present: bool,
    pub writable: bool,
}

/// A size rounded up to a whole number of pages.
pub open spec fn page_round_up(size: int) -> int {
    (size + 4095) / 4096 * 4096
}

/// Round a size up to a whole number of pages.
fn round_up_page(size: usize) -> (r: usize)
    requires
        size <= usize::MAX - 4095,
    ensures
        r == page_round_up(size as int),
        r % 4096 == 0,
        size <= r < size + 4096,
{
    proof {
        lemma_page_round_up(size as int);
    }
    (size + 4095) / 4096 * 4096
}

/// Law: rounding up to pages gives the least page multiple at or above the size.
pub proof fn lemma_page_round_up(size: int)
    requires
        size >= 0,
    ensures
        page_round_up(size) % 4096 == 0,
        size <= page_round_up(size) < size + 4096,
{
    let q = (size + 4095) / 4096;
    let r = (size + 4095) % 4096;
    assert(size + 4095 == q * 4096 + r && 0 <= r < 4096) by (nonlinear_arith)
        requires
            q == (size + 4095) / 4096,
            r == (size + 4095) % 4096,
    ;
    assert((q * 4096) % 4096 == 0) by (nonlinear_arith);
}

/// The content after writing `d` at offset `off` into content `c`: the
/// content grows (with zeros) to cover the written range.
pub open spec fn written(c: Seq<u8>, off: int, d: Seq<u8>) -> Seq<u8> {
    let len = if c.len() >= off + d.len() { c.len() as int } else { off + d.len() };
    Seq::new(
        len as nat,
        |i: int|
            if off <= i < off + d.len() {
                d[i - off]
            } else if i < c.len() {
                c[i]
            } else {
                0u8
            },
    )
}

/// A virtual memory object.
pub struct Vmo {
    pub base: KernelObjectBase,
    pub id: VmoId,
    /// Size in bytes, a whole number of pages
    pub size: usize,
    pub flags: VmoFlags,
    pub cache_policy: CachePolicy,
    /// Bytes written so far, up to the highest byte written
    pub content: Vec<u8>,
    /// The VMO this one was cloned from
    pub parent: Option<VmoId>,
}

impl Vmo {
    /// The size is a whole number of pages.
    pub open spec fn wf(&self) -> bool {
        self.size % 4096 == 0
    }

    /// Create a VMO of `size` bytes rounded up to whole pages.
    pub fn create(size: usize, flags: VmoFlags, ids: &mut IdAllocator) -> (r: Result<Vmo, &'static str>)
        requires
            size <= usize::MAX - 4095,
        ensures
            size == 0 ==> r == Err::<Vmo, &'static str>("size cannot be zero") && final(ids).next
                == old(ids).next,
            size != 0 ==> (r matches Ok(v) && {
                &&& v.wf()
                &&& v.id == old(ids).next
                &&& v.size == page_round_up(size as int)
                &&& v.flags == flags
                &&& v.cache_policy == CachePolicy::Default
                &&& v.content@.len() == 0
                &&& v.parent is None
                &&& v.base.obj_type == ObjectType::Vmo && v.base.ref_count == 1
                &&& final(ids).next == nth_id(old(ids).next, 1)
            }),
    {
        if size == 0 {
            return Err("size cannot be zero");
        }
        let size_aligned = round_up_page(size);
        Ok(Vmo {
            base: KernelObjectBase::new(ObjectType::Vmo),
            id: ids.next_id(),
            size: size_aligned,
            flags,
            cache_policy: CachePolicy::Default,
            content: Vec::new(),
            parent: None,
        })
    }

    /// Get the VMO id.
    pub fn id(&self) -> (r: VmoId)
        ensures
            r == self.id,
    {
        self.id
    }

    /// Get the size in bytes.
    pub fn size(&self) -> (r: usize)
        ensures
            r == self.size,
    {
        self.size
    }

    /// Resize to `new_size` rounded up to whole pages; only for resizable VMOs.
    pub fn resize(&mut self, new_size: usize) -> (r: Result<(), &'static str>)
        requires
            new_size <= usize::MAX - 4095,
            old(self).wf(),
        ensures
            final(self).wf(),
            old(self).flags.0 & 0x01 == 0 ==> r == Err::<(), &'static str>("VMO not resizable")
                && *final(self) == *old(self),
            old(self).flags.0 & 0x01 != 0 ==> r is Ok && final(self).size == page_round_up(
                new_size as int,
            ) && final(self).content@ == old(self).content@ && final(self).flags == old(
                self,
            ).flags && final(self).id == old(self).id,
    {
        if !self.flags.is_resizable() {
            return Err("VMO not resizable");
        }
        self.size = round_up_page(new_size);
        Ok(())
    }

    /// Write `data` at `offset`; bytes beyond the VMO's end are dropped.
    /// Returns the number of bytes written.
    pub fn write(&mut self, offset: usize, data: &[u8]) -> (r: Result<usize, &'static str>)
        requires
            old(self).wf(),
        ensures
            final(self).wf(),
            offset >= old(self).size ==> r == Err::<usize, &'static str>("offset out of bounds")
                && *final(self) == *old(self),
            offset < old(self).size ==> (r matches Ok(n) && {
                &&& n == vstd::math::min(data@.len() as int, old(self).size - offset)
                &&& final(self).content@ == written(
                    old(self).content@,
                    offset as int,
                    data@.take(n as int),
                )
                &&& final(self).size == old(self).size && final(self).flags == old(self).flags
                &&& final(self).id == old(self).id && final(self).base == old(self).base
                &&& final(self).parent == old(self).parent
                &&& final(self).cache_policy == old(self).cache_policy
            }),
    {
        if offset >= self.size {
            return Err("offset out of bounds");
        }
        let room = self.size - offset;
        let n = if data.len() < room { data.len() } else { room };
        let ghost c0 = self.content@;
        let ghost d = data@.take(n as int);
        // grow the content with zeros up to the start of the write
        while self.content.len() < offset
            invariant
                offset < self.size,
                self.size == old(self).size && self.flags == old(self).flags && self.id == old(self).id
                    && self.base == old(self).base && self.parent == old(self).parent
                    && self.cache_policy == old(self).cache_policy,
                self.content@.len() <= offset || self.content@ == c0,
                c0.len() <= self.content@.len(),
                forall|i: int| 0 <= i < c0.len() ==> self.content@[i] == c0[i],
                forall|i: int| c0.len() <= i < self.content@.len() ==> self.content@[i] == 0u8,
            decreases offset - self.content@.len(),
        {
            self.content.push(0u8);
        }
        let mut k: usize = 0;
        while k < n
            invariant
                k <= n,
                n <= data@.len(),
                offset + n <= self.size,
                self.size == old(self).size && self.flags == old(self).flags && self.id == old(self).id
                    && self.base == old(self).base && self.parent == old(self).parent
                    && self.cache_policy == old(self).cache_policy,
                d == data@.take(n as int),
                c0.len() <= self.content@.len(),
                offset <= self.content@.len(),
                self.content@.len() == (if c0.len() >= offset + k { c0.len() as int } else {
                    if offset >= c0.len() { offset + k } else { offset + k }
                }),
                forall|i: int|
                    0 <= i < self.content@.len() ==> #[trigger] self.content@[i] == (if offset
                        <= i < offset + k {
                        data@[i - offset]
                    } else if i < c0.len() {
                        c0[i]
                    } else {
                        0u8
                    }),
            decreases n - k,
        {
            if offset + k < self.content.len() {
                self.content.set(offset + k, data[k]);
            } else {
                self.content.push(data[k]);
            }
            k = k + 1;
        }
        proof {
            assert(self.content@ =~= written(c0, offset as int, d));
        }
        Ok(n)
    }

    /// Read from `offset` into `buf`: as many stored bytes as fit, not past
    /// the VMO's end.  Returns the number of bytes read.
    pub fn read(&self, offset: usize, buf: &mut [u8]) -> (r: Result<usize, &'static str>)
        ensures
            offset >= self.size ==> r == Err::<usize, &'static str>("offset out of bounds")
                && final(buf)@ == old(buf)@,
            offset < self.size ==> (r matches Ok(n) && {
                let stored = if offset < self.content@.len() {
                    self.content@.len() - offset
                } else {
                    0int
                };
                &&& n == vstd::math::min(
                    old(buf)@.len() as int,
                    vstd::math::min(self.size - offset, stored),
                )
                &&& final(buf)@.len() == old(buf)@.len()
                &&& forall|j: int| 0 <= j < n ==> final(buf)@[j] == self.content@[offset + j]
                &&& final(buf)@.skip(n as int) == old(buf)@.skip(n as int)
            }),
    {
        if offset >= self.size {
            return Err("offset out of bounds");
        }
        let stored: usize = if offset < self.content.len() {
            self.content.len() - offset
        } else {
            0
        };
        let room = self.size - offset;
        let lim = if room < stored { room } else { stored };
        let n = if buf.len() < lim { buf.len() } else { lim };
        let ghost b0 = buf@;
        let mut k: usize = 0;
        while k < n
            invariant
                k <= n,
                n <= b0.len(),
                n == 0 || offset + n <= self.content@.len(),
                self.content@.len() <= usize::MAX,
                buf@.len() == b0.len(),
                forall|j: int| 0 <= j < k ==> buf@[j] == self.content@[offset + j],
                forall|j: int| k <= j < b0.len() ==> buf@[j] == b0[j],
            decreases n - k,
        {
            assert(offset + k < self.content@.len());
            let idx = offset + k;
            buf[k] = self.content[idx];
            k = k + 1;
        }
        proof {
            assert(buf@.skip(n as int) =~= b0.skip(n as int));
        }
        Ok(n)
    }

    /// Clone the VMO: a new copy-on-write VMO of the same size holding the
    /// same content.
    pub fn clone(&self, ids: &mut IdAllocator) -> (r: Result<Vmo, &'static str>)
        requires
            self.wf(),
        ensures
            self.size == 0 ==> r == Err::<Vmo, &'static str>("size cannot be zero"),
            self.size != 0 ==> (r matches Ok(v) && {
                &&& v.wf()
                &&& v.id == old(ids).next
                &&& v.size == self.size
                &&& v.flags.0 == VmoFlags::COW
                &&& v.content@ == self.content@
                &&& v.parent == Some(self.id)
                &&& v.cache_policy == CachePolicy::Default
            }),
    {
        proof {
            assert(self.size % 4096 == 0 ==> self.size <= usize::MAX - 4095) by (nonlinear_arith)
                requires self.size <= usize::MAX;
            lemma_page_round_up(self.size as int);
            assert(self.size % 4096 == 0 ==> page_round_up(self.size as int) == self.size) by (nonlinear_arith);
        }
        let mut cloned = match Vmo::create(self.size, VmoFlags(VmoFlags::COW), ids) {
            Ok(v) => v,
            Err(e) => {
                return Err(e);
            },
        };
        let mut k: usize = 0;
        while k < self.content.len()
            invariant
                k <= self.content@.len(),
                cloned.content@ == self.content@.take(k as int),
                cloned.wf(),
                cloned.id == old(ids).next,
                cloned.size == self.size,
                cloned.flags.0 == VmoFlags::COW,
                cloned.cache_policy == CachePolicy::Default,
            decreases self.content@.len() - k,
        {
            cloned.content.push(self.content[k]);
            proof {
                assert(self.content@.take(k as int + 1) =~= self.content@.take(k as int).push(self.content@[k as int]));
            }
            k = k + 1;
        }
        proof {
            assert(self.content@.take(self.content@.len() as int) =~= self.content@);
        }
        cloned.parent = Some(self.id);
        Ok(cloned)
    }

    /// Get the cache policy.
    pub fn cache_policy(&self) -> (r: CachePolicy)
        ensures
            r == self.cache_policy,
    {
        self.cache_policy
    }

    /// Set the cache policy.
    pub fn set_cache_policy(&mut self, policy: CachePolicy)
        ensures
            final(self).cache_policy == policy,
            final(self).size == old(self).size,
            final(self).content@ == old(self).content@,
            final(self).flags == old(self).flags,
            final(self).id == old(self).id,
    {
        self.cache_policy = policy;
    }

    /// The kernel object base.
    pub fn base(&self) -> (r: &KernelObjectBase)
        ensures
            *r == self.base,
    {
        &self.base
    }

    /// Reference count.
    pub fn ref_count(&self) -> (r: usize)
        ensures
            r == self.base.ref_count,
    {
        self.base.ref_count()
    }

    /// Increment the reference count.
    pub fn ref_inc(&mut self)
        ensures
            final(self).base.ref_count == count_after_inc(old(self).base.ref_count),
            final(self).size == old(self).size,
            final(self).content@ == old(self).content@,
    {
        self.base.ref_inc();
    }

    /// Decrement the reference count; true when this was the last reference.
    pub fn ref_dec(&mut self) -> (last: bool)
        ensures
            last == (old(self).base.ref_count == 1),
            final(self).base.ref_count == count_after_dec(old(self).base.ref_count),
            final(self).size == old(self).size,
            final(self).content@ == old(self).content@,
    {
        self.base.ref_dec()
    }
}

/// Law (read after write): bytes written at an offset are read back from
/// that offset.
pub proof fn lemma_read_after_write(c: Seq<u8>, off: int, d: Seq<u8>)
    requires
        off >= 0,
    ensures
        written(c, off, d).subrange(off, off + d.len()) == d,
        written(c, off, d).len() >= off + d.len(),
{
    assert(written(c, off, d).subrange(off, off + d.len()) =~= d);
}

/// Law: writing leaves every byte outside the written range unchanged.
pub proof fn lemma_write_frame(c: Seq<u8>, off: int, d: Seq<u8>, i: int)
    requires
        off >= 0,
        0 <= i < c.len(),
        !(off <= i < off + d.len()),
    ensures
        written(c, off, d)[i] == c[i],
{
}

} // verus!
