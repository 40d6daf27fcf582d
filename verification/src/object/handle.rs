//! Handle and rights model.
//!
//! Kernel resources are reached through handles; a handle names an object and
//! carries a rights mask that bounds what may be done through it.

use vstd::prelude::*;
use crate::object::ids::{IdAllocator, nth_id};

verus! {

// ============================================================================
// Rights
// ============================================================================

/// Handle rights bitmask.
#[derive(Debug, Clone, Copy, PartialEq, Eq, Structural)]
pub struct Rights(pub u32);

impl Rights {
    /// No rights
    pub const NONE: u32 = 0x00;
    /// Read state
    pub const READ: u32 = 0x01;
    /// Modify state
    pub const WRITE: u32 = 0x02;
    /// Execute code
    pub const EXECUTE: u32 = 0x04;
    /// Signal
    pub const SIGNAL: u32 = 0x08;
    /// Wait (shares its bit with SIGNAL)
    pub const WAIT: u32 = 0x08;
    /// Map into a VMAR
    pub const MAP: u32 = 0x10;
    /// Duplicate the handle
    pub const DUPLICATE: u32 = 0x20;
    /// Transfer to another process
    pub const TRANSFER: u32 = 0x40;
    /// Administrative control
    pub const MANAGE: u32 = 0x80;
    /// Apply a profile to a thread
    pub const APPLY_PROFILE: u32 = 0x100;
    /// READ | WRITE
    pub const BASIC: u32 = 0x03;
    /// BASIC | EXECUTE | SIGNAL | MAP
    pub const DEFAULT: u32 = 0x1F;
    /// On duplication: keep the rights unchanged
    pub const SAME_RIGHTS: u32 = 0x8000_0000;

    /// Whether every bit of `right` is set in `self`.
    pub open spec fn has_all(self, right: Rights) -> bool {
        self.0 & right.0 == right.0
    }

    /// Create a rights mask from a raw value.
    pub fn from_raw(raw: u32) -> (r: Rights)
        ensures
            r.0 == raw,
    {
        Rights(raw)
    }

    /// Get the raw value.
    pub fn into_raw(self) -> (r: u32)
        ensures
            r == self.0,
    {
        self.0
    }

    /// Check whether this mask contains all of `right`.
    pub fn contains(self, right: Rights) -> (r: bool)
        ensures
            r == self.has_all(right),
    {
        (self.0 & right.0) == right.0
    }

    /// Check whether this mask contains any of `rights`.
    pub fn contains_any(self, rights: Rights) -> (r: bool)
        ensures
            r == (self.0 & rights.0 != 0),
    {
        (self.0 & rights.0) != 0
    }

    /// Require specific rights: `Ok` when all are present, else "access denied".
    pub fn require(self, required: Rights) -> (r: Result<(), &'static str>)
        ensures
            r is Ok <==> self.has_all(required),
            !self.has_all(required) ==> r == Err::<(), &'static str>("access denied"),
    {
        if self.contains(required) {
            Ok(())
        } else {
            Err("access denied")
        }
    }

    /// Intersection with a reduction mask.
    pub fn reduce(self, mask: Rights) -> (r: Rights)
        ensures
            r.0 == self.0 & mask.0,
    {
        Rights(self.0 & mask.0)
    }

    /// Union with more rights.
    pub fn add(self, rights: Rights) -> (r: Rights)
        ensures
            r.0 == self.0 | rights.0,
    {
        Rights(self.0 | rights.0)
    }

    /// Remove rights.
    pub fn remove(self, rights: Rights) -> (r: Rights)
        ensures
            r.0 == self.0 & !rights.0,
    {
        Rights(self.0 & !rights.0)
    }

    /// Whether no right is set.
    pub fn is_none(self) -> (r: bool)
        ensures
            r == (self.0 == 0),
    {
        self.0 == 0
    }

    /// Default rights for an object of the given type.
    pub open spec fn default_bits(obj_type: ObjectType) -> u32 {
        match obj_type {
            ObjectType::Process => 0x80,
            ObjectType::Thread => 0x80,
            ObjectType::Vmo => 0x1F,
            ObjectType::Vmar => 0x13,
            ObjectType::Channel => 0x03,
            ObjectType::Event => 0x08,
            ObjectType::EventPair => 0x08,
            ObjectType::Timer => 0x0A,
            ObjectType::Job => 0x80,
            ObjectType::Port => 0x03,
            ObjectType::Profile => 0x01,
            ObjectType::Unknown => 0x00,
        }
    }

    /// Get default rights for a given object type.
    pub fn default_for_type(obj_type: ObjectType) -> (r: Rights)
        ensures
            r.0 == Self::default_bits(obj_type),
    {
        let bits: u32 = match obj_type {
            ObjectType::Process => Self::MANAGE,
            ObjectType::Thread => Self::MANAGE,
            ObjectType::Vmo => Self::DEFAULT,
            ObjectType::Vmar => Self::MAP | Self::READ | Self::WRITE,
            ObjectType::Channel => Self::READ | Self::WRITE,
            ObjectType::Event => Self::SIGNAL | Self::WAIT,
            ObjectType::EventPair => Self::SIGNAL | Self::WAIT,
            ObjectType::Timer => Self::SIGNAL | Self::WRITE,
            ObjectType::Job => Self::MANAGE,
            ObjectType::Port => Self::READ | Self::WRITE,
            ObjectType::Profile => Self::READ,
            ObjectType::Unknown => Self::NONE,
        };
        assert(0x10u32 | 0x01u32 | 0x02u32 == 0x13u32) by (bit_vector);
        assert(0x01u32 | 0x02u32 == 0x03u32 && 0x08u32 | 0x08u32 == 0x08u32
            && 0x08u32 | 0x02u32 == 0x0Au32) by (bit_vector);
        Rights(bits)
    }
}

impl core::ops::BitOr for Rights {
    type Output = Rights;

    fn bitor(self, rhs: Rights) -> (r: Rights) {
        Rights(self.0 | rhs.0)
    }
}

impl vstd::std_specs::ops::BitOrSpecImpl for Rights {
    open spec fn obeys_bitor_spec() -> bool {
        true
    }

    open spec fn bitor_req(self, rhs: Rights) -> bool {
        true
    }

    open spec fn bitor_spec(self, rhs: Rights) -> Rights {
        Rights(self.0 | rhs.0)
    }
}

impl core::ops::BitAnd for Rights {
    type Output = Rights;

    fn bitand(self, rhs: Rights) -> (r: Rights) {
        Rights(self.0 & rhs.0)
    }
}

impl vstd::std_specs::ops::BitAndSpecImpl for Rights {
    open spec fn obeys_bitand_spec() -> bool {
        true
    }

    open spec fn bitand_req(self, rhs: Rights) -> bool {
        true
    }

    open spec fn bitand_spec(self, rhs: Rights) -> Rights {
        Rights(self.0 & rhs.0)
    }
}

impl core::ops::BitOrAssign for Rights {
    fn bitor_assign(&mut self, rhs: Rights)
        ensures
            *final(self) == Rights(old(self).0 | rhs.0),
    {
        self.0 = self.0 | rhs.0;
    }
}

impl core::ops::BitAndAssign for Rights {
    fn bitand_assign(&mut self, rhs: Rights)
        ensures
            *final(self) == Rights(old(self).0 & rhs.0),
    {
        self.0 = self.0 & rhs.0;
    }
}

/// Bit facts about masks, used by the rights laws.
proof fn lemma_mask_bits(a: u32, b: u32)
    by (bit_vector)
    ensures
        (a | b) & b == b,
        (a & !b) & b == 0,
        (a & b) & a == a & b,
        (a & b) & b == a & b,
        (a | b) & a == a,
        a & (a & b) == a & b,
        b & (a & b) == a & b,
        a & a == a,
{
}

/// Rights laws: an added right is contained; a removed right is absent;
/// a reduced mask keeps only rights that both the starting set and the mask hold.
pub proof fn lemma_rights_algebra(r: Rights, s: Rights)
    ensures
        Rights(r.0 | s.0).has_all(s),
        Rights(r.0 | s.0).has_all(r),
        Rights(r.0 & !s.0).0 & s.0 == 0,
        r.has_all(Rights(r.0 & s.0)),
        s.has_all(Rights(r.0 & s.0)),
{
    lemma_mask_bits(r.0, s.0);
    lemma_mask_bits(s.0, r.0);
}

// ============================================================================
// Handle ID
// ============================================================================

/// Handle identifier, unique within a process.
pub type HandleId = u64;

// ============================================================================
// Kernel Object Types
// ============================================================================

/// Kernel object type.
#[derive(Debug, Clone, Copy, PartialEq, Eq, Structural)]
pub enum ObjectType {
    Unknown,
    Process,
    Thread,
    Vmo,
    Vmar,
    Channel,
    Event,
    EventPair,
    Timer,
    Job,
    Port,
    Profile,
}

impl ObjectType {
    /// The raw number of each type.
    pub open spec fn raw_of(t: ObjectType) -> u32 {
        match t {
            ObjectType::Unknown => 0,
            ObjectType::Process => 1,
            ObjectType::Thread => 2,
            ObjectType::Vmo => 3,
            ObjectType::Vmar => 4,
            ObjectType::Channel => 5,
            ObjectType::Event => 6,
            ObjectType::EventPair => 7,
            ObjectType::Timer => 8,
            ObjectType::Job => 9,
            ObjectType::Port => 10,
            ObjectType::Profile => 11,
        }
    }

    /// Create from a raw value; unknown numbers give `Unknown`.
    pub fn from_raw(raw: u32) -> (r: ObjectType)
        ensures
            1 <= raw <= 11 ==> Self::raw_of(r) == raw,
            !(1 <= raw <= 11) ==> r == ObjectType::Unknown,
    {
        match raw {
            1 => ObjectType::Process,
            2 => ObjectType::Thread,
            3 => ObjectType::Vmo,
            4 => ObjectType::Vmar,
            5 => ObjectType::Channel,
            6 => ObjectType::Event,
            7 => ObjectType::EventPair,
            8 => ObjectType::Timer,
            9 => ObjectType::Job,
            10 => ObjectType::Port,
            11 => ObjectType::Profile,
            _ => ObjectType::Unknown,
        }
    }

    /// Get the raw value.
    pub fn into_raw(self) -> (r: u32)
        ensures
            r == Self::raw_of(self),
    {
        match self {
            ObjectType::Unknown => 0,
            ObjectType::Process => 1,
            ObjectType::Thread => 2,
            ObjectType::Vmo => 3,
            ObjectType::Vmar => 4,
            ObjectType::Channel => 5,
            ObjectType::Event => 6,
            ObjectType::EventPair => 7,
            ObjectType::Timer => 8,
            ObjectType::Job => 9,
            ObjectType::Port => 10,
            ObjectType::Profile => 11,
        }
    }

    /// Get the name as a string.
    pub fn name(self) -> (r: &'static str)
        ensures
            r == Self::name_of(self),
    {
        match self {
            ObjectType::Unknown => "unknown",
            ObjectType::Process => "process",
            ObjectType::Thread => "thread",
            ObjectType::Vmo => "vmo",
            ObjectType::Vmar => "vmar",
            ObjectType::Channel => "channel",
            ObjectType::Event => "event",
            ObjectType::EventPair => "eventpair",
            ObjectType::Timer => "timer",
            ObjectType::Job => "job",
            ObjectType::Port => "port",
            ObjectType::Profile => "profile",
        }
    }

    /// The name of each type.
    pub open spec fn name_of(t: ObjectType) -> &'static str {
        match t {
            ObjectType::Unknown => "unknown",
            ObjectType::Process => "process",
            ObjectType::Thread => "thread",
            ObjectType::Vmo => "vmo",
            ObjectType::Vmar => "vmar",
            ObjectType::Channel => "channel",
            ObjectType::Event => "event",
            ObjectType::EventPair => "eventpair",
            ObjectType::Timer => "timer",
            ObjectType::Job => "job",
            ObjectType::Port => "port",
            ObjectType::Profile => "profile",
        }
    }
}

/// Law: converting a type to its raw number and back gives the same type.
pub proof fn lemma_object_type_raw_roundtrip(t: ObjectType)
    ensures
        t != ObjectType::Unknown ==> 1 <= ObjectType::raw_of(t) <= 11,
        t == ObjectType::Unknown ==> ObjectType::raw_of(t) == 0,
{
}

// ============================================================================
// Kernel Object Base
// ============================================================================

/// State shared by every kernel object: its type, reference count and
/// whether it is being torn down.
pub struct KernelObjectBase {
    pub obj_type: ObjectType,
    pub ref_count: usize,
    pub destroying: bool,
}

/// The counter after one increment, wrapping as an atomic add does.
pub open spec fn count_after_inc(c: usize) -> usize {
    if c == usize::MAX { 0 } else { (c + 1) as usize }
}

/// The counter after one decrement, wrapping as an atomic sub does.
pub open spec fn count_after_dec(c: usize) -> usize {
    if c == 0 { usize::MAX } else { (c - 1) as usize }
}

impl KernelObjectBase {
    /// A new object base holding one reference.
    pub fn new(obj_type: ObjectType) -> (r: KernelObjectBase)
        ensures
            r.obj_type == obj_type,
            r.ref_count == 1,
            !r.destroying,
    {
        KernelObjectBase { obj_type, ref_count: 1, destroying: false }
    }

    /// Increment the reference count.
    pub fn ref_inc(&mut self)
        ensures
            final(self).ref_count == count_after_inc(old(self).ref_count),
            final(self).obj_type == old(self).obj_type,
            final(self).destroying == old(self).destroying,
    {
        self.ref_count = self.ref_count.wrapping_add(1);
    }

    /// Decrement the reference count; true when this was the last reference.
    pub fn ref_dec(&mut self) -> (last: bool)
        ensures
            last == (old(self).ref_count == 1),
            final(self).ref_count == count_after_dec(old(self).ref_count),
            final(self).obj_type == old(self).obj_type,
            final(self).destroying == old(self).destroying,
    {
        let last = self.ref_count == 1;
        self.ref_count = self.ref_count.wrapping_sub(1);
        last
    }

    /// Get the reference count.
    pub fn ref_count(&self) -> (r: usize)
        ensures
            r == self.ref_count,
    {
        self.ref_count
    }

    /// Whether the object is being destroyed.
    pub fn is_destroying(&self) -> (r: bool)
        ensures
            r == self.destroying,
    {
        self.destroying
    }

    /// Mark the object as being destroyed.
    pub fn mark_destroying(&mut self)
        ensures
            final(self).destroying,
            final(self).obj_type == old(self).obj_type,
            final(self).ref_count == old(self).ref_count,
    {
        self.destroying = true;
    }
}

/// Law: an increment followed by a decrement restores the count, and the
/// decrement does not report a last reference while another one remains.
pub proof fn lemma_ref_inc_dec(c: usize)
    requires
        c < usize::MAX,
    ensures
        count_after_dec(count_after_inc(c)) == c,
        (count_after_inc(c) == 1) == (c == 0),
{
}

// ============================================================================
// Handle
// ============================================================================

/// The kernel object a handle designates: its object id and type.
#[derive(Debug, Clone, Copy, PartialEq, Eq, Structural)]
pub struct ObjectRef {
    pub koid: u64,
    pub obj_type: ObjectType,
}

/// Handle to a kernel object: an id, the object (absent for a null
/// handle) and the rights held through it.
#[derive(Debug, Clone, Copy, PartialEq, Eq, Structural)]
pub struct Handle {
    pub id: HandleId,
    pub base: Option<ObjectRef>,
    pub rights: Rights,
}

impl Handle {
    /// A handle is valid when it names an object and holds some right.
    pub open spec fn valid(self) -> bool {
        self.base is Some && self.rights.0 != 0
    }

    /// The type of the named object, `Unknown` for a null handle.
    pub open spec fn type_of(self) -> ObjectType {
        match self.base {
            Some(o) => o.obj_type,
            None => ObjectType::Unknown,
        }
    }

    /// Create a new handle with a freshly allocated id.
    pub fn new(ids: &mut IdAllocator, base: Option<ObjectRef>, rights: Rights) -> (h: Handle)
        ensures
            h.id == old(ids).next,
            final(ids).next == nth_id(old(ids).next, 1),
            h.base == base,
            h.rights == rights,
    {
        Handle { id: ids.next_id(), base, rights }
    }

    /// Create a handle with a specific id.
    pub fn with_id(id: HandleId, base: Option<ObjectRef>, rights: Rights) -> (h: Handle)
        ensures
            h == (Handle { id, base, rights }),
    {
        Handle { id, base, rights }
    }

    /// Get the handle id.
    pub fn id(&self) -> (r: HandleId)
        ensures
            r == self.id,
    {
        self.id
    }

    /// Get the object type (`Unknown` when the handle is null).
    pub fn obj_type(&self) -> (r: ObjectType)
        ensures
            r == self.type_of(),
    {
        match self.base {
            Some(o) => o.obj_type,
            None => ObjectType::Unknown,
        }
    }

    /// Whether the handle names an object and holds at least one right.
    pub fn is_valid(&self) -> (r: bool)
        ensures
            r == self.valid(),
    {
        self.base.is_some() && !self.rights.is_none()
    }

    /// Require specific rights.
    pub fn require(&self, required: Rights) -> (r: Result<(), &'static str>)
        ensures
            r is Ok <==> self.valid() && self.rights.has_all(required),
            !self.valid() ==> r == Err::<(), &'static str>("invalid handle"),
            self.valid() && !self.rights.has_all(required) ==> r == Err::<(), &'static str>(
                "access denied",
            ),
    {
        if !self.is_valid() {
            return Err("invalid handle");
        }
        self.rights.require(required)
    }

    /// Whether the handle is valid and holds `right`.
    pub fn has_right(&self, right: Rights) -> (r: bool)
        ensures
            r == (self.valid() && self.rights.has_all(right)),
    {
        self.is_valid() && self.rights.contains(right)
    }

    /// Get the rights of this handle.
    pub fn rights(&self) -> (r: Rights)
        ensures
            r == self.rights,
    {
        self.rights
    }

    /// Get the object type, `Unknown` for an invalid handle.
    pub fn object_type(&self) -> (r: ObjectType)
        ensures
            r == (if self.valid() { self.type_of() } else { ObjectType::Unknown }),
    {
        if !self.is_valid() {
            return ObjectType::Unknown;
        }
        self.obj_type()
    }

    /// Issue a copy of this handle under a fresh id (same object, same rights).
    pub fn reissue(&self, ids: &mut IdAllocator) -> (h: Handle)
        ensures
            h.id == old(ids).next,
            final(ids).next == nth_id(old(ids).next, 1),
            h.base == self.base,
            h.rights == self.rights,
    {
        Handle { id: ids.next_id(), base: self.base, rights: self.rights }
    }

    /// Duplicate the handle with the same rights.
    ///
    /// `object` is the base of the object the handle names; its reference
    /// count goes up by one when the duplicate is made.
    pub fn duplicate(&self, ids: &mut IdAllocator, object: &mut KernelObjectBase) -> (r: Result<
        Handle,
        &'static str,
    >)
        ensures
            r is Ok <==> self.valid() && self.rights.has_all(Rights(Rights::DUPLICATE)),
            !self.valid() ==> r == Err::<Handle, &'static str>("invalid handle"),
            self.valid() && !self.rights.has_all(Rights(Rights::DUPLICATE)) ==> r == Err::<
                Handle,
                &'static str,
            >("access denied"),
            r matches Ok(h) ==> {
                &&& h.id == old(ids).next
                &&& h.base == self.base
                &&& h.rights == self.rights
                &&& final(object).ref_count == count_after_inc(old(object).ref_count)
            },
            r is Err ==> final(object).ref_count == old(object).ref_count && final(ids).next == old(
                ids,
            ).next,
            final(object).obj_type == old(object).obj_type,
            final(object).destroying == old(object).destroying,
    {
        if !self.is_valid() {
            return Err("invalid handle");
        }
        match self.require(Rights(Rights::DUPLICATE)) {
            Ok(()) => {},
            Err(e) => {
                return Err(e);
            },
        }
        object.ref_inc();
        Ok(Handle::with_id(ids.next_id(), self.base, self.rights))
    }

    /// The rights a duplicate made through `mask` gets.
    pub open spec fn masked_rights(current: Rights, mask: Rights) -> Rights {
        if mask.has_all(Rights(Rights::SAME_RIGHTS)) {
            current
        } else {
            Rights(current.0 & mask.0)
        }
    }

    /// Duplicate the handle with rights reduced by `mask`
    /// (`SAME_RIGHTS` in the mask keeps them unchanged).
    pub fn duplicate_with_mask(
        &self,
        mask: Rights,
        ids: &mut IdAllocator,
        object: &mut KernelObjectBase,
    ) -> (r: Result<Handle, &'static str>)
        ensures
            r is Ok <==> self.valid() && self.rights.has_all(Rights(Rights::DUPLICATE)),
            !self.valid() ==> r == Err::<Handle, &'static str>("invalid handle"),
            self.valid() && !self.rights.has_all(Rights(Rights::DUPLICATE)) ==> r == Err::<
                Handle,
                &'static str,
            >("access denied"),
            r matches Ok(h) ==> {
                &&& h.id == old(ids).next
                &&& h.base == self.base
                &&& h.rights == Self::masked_rights(self.rights, mask)
                &&& final(object).ref_count == count_after_inc(old(object).ref_count)
            },
            r is Err ==> final(object).ref_count == old(object).ref_count && final(ids).next == old(
                ids,
            ).next,
            final(object).obj_type == old(object).obj_type,
            final(object).destroying == old(object).destroying,
    {
        if !self.is_valid() {
            return Err("invalid handle");
        }
        match self.require(Rights(Rights::DUPLICATE)) {
            Ok(()) => {},
            Err(e) => {
                return Err(e);
            },
        }
        let new_rights = if mask.contains(Rights(Rights::SAME_RIGHTS)) {
            self.rights
        } else {
            self.rights.reduce(mask)
        };
        object.ref_inc();
        Ok(Handle::with_id(ids.next_id(), self.base, new_rights))
    }

    /// Close the handle: the named object's reference count goes down by
    /// one; true when that was the last reference.  A null handle closes
    /// nothing and gives false.
    pub fn close(&self, object: &mut KernelObjectBase) -> (last: bool)
        ensures
            self.base is None ==> !last && *final(object) == *old(object),
            self.base is Some ==> last == (old(object).ref_count == 1) && final(object).ref_count
                == count_after_dec(old(object).ref_count),
            final(object).obj_type == old(object).obj_type,
            final(object).destroying == old(object).destroying,
    {
        if self.base.is_none() {
            return false;
        }
        object.ref_dec()
    }
}

/// Whether `dst` holds the handles of `src`, in order, reissued under the
/// consecutive ids that start at `first`.
pub open spec fn reissued(src: Seq<Handle>, dst: Seq<Handle>, first: u64) -> bool {
    &&& dst.len() == src.len()
    &&& forall|i: int|
        0 <= i < src.len() ==> #[trigger] dst[i].base == src[i].base && dst[i].rights
            == src[i].rights && dst[i].id == nth_id(first, i)
}

/// Reissue every handle of `handles` under fresh ids, in order.
pub fn reissue_all(handles: &[Handle], ids: &mut IdAllocator) -> (r: Vec<Handle>)
    ensures
        reissued(handles@, r@, old(ids).next),
        final(ids).next == nth_id(old(ids).next, handles@.len() as int),
{
    let mut out: Vec<Handle> = Vec::new();
    let mut i: usize = 0;
    while i < handles.len()
        invariant
            i <= handles@.len(),
            reissued(handles@.take(i as int), out@, old(ids).next),
            ids.next == nth_id(old(ids).next, i as int),
        decreases handles@.len() - i,
    {
        let h = handles[i].reissue(ids);
        out.push(h);
        proof {
            lemma_nth_id_step(old(ids).next, i as int);
            assert(handles@.take(i as int + 1) =~= handles@.take(i as int).push(handles@[i as int]));
        }
        i = i + 1;
    }
    proof {
        assert(handles@.take(handles@.len() as int) =~= handles@);
    }
    out
}

/// One more step from the `i`-th id gives the `i + 1`-th.
pub proof fn lemma_nth_id_step(first: u64, i: int)
    requires
        i >= 0,
    ensures
        nth_id(nth_id(first, i), 1) == nth_id(first, i + 1),
{
    let m = 0x1_0000_0000_0000_0000int;
    let a = first as int + i;
    vstd::arithmetic::div_mod::lemma_add_mod_noop(a, 1, m);
    vstd::arithmetic::div_mod::lemma_mod_twice(1, m);
}

/// Law: a duplicate made through a mask never holds a right that the
/// duplicated handle lacks.
pub proof fn lemma_masked_rights_subset(current: Rights, mask: Rights)
    ensures
        current.has_all(Handle::masked_rights(current, mask)),
{
    lemma_mask_bits(current.0, mask.0);
}

// ============================================================================
// Handle Owner
// ============================================================================

/// An owned handle.
pub struct HandleOwner {
    handle: Handle,
}

impl HandleOwner {
    /// The owned handle.
    pub closed spec fn handle_of(self) -> Handle {
        self.handle
    }

    /// Create a new owned handle with a fresh id.
    pub fn new(ids: &mut IdAllocator, base: Option<ObjectRef>, rights: Rights) -> (r: HandleOwner)
        ensures
            r.handle_of().id == old(ids).next,
            final(ids).next == nth_id(old(ids).next, 1),
            r.handle_of().base == base,
            r.handle_of().rights == rights,
    {
        HandleOwner { handle: Handle::new(ids, base, rights) }
    }

    /// Get the underlying handle.
    pub fn get(&self) -> (r: &Handle)
        ensures
            *r == self.handle_of(),
    {
        &self.handle
    }

    /// Get the underlying handle id.
    pub fn id(&self) -> (r: HandleId)
        ensures
            r == self.handle_of().id,
    {
        self.handle.id
    }

    /// Give up the owner, closing its handle on `object` (what dropping the
    /// owner does); true when that released the last reference.
    pub fn close(self, object: &mut KernelObjectBase) -> (last: bool)
        ensures
            self.handle_of().base is None ==> !last && *final(object) == *old(object),
            self.handle_of().base is Some ==> last == (old(object).ref_count == 1)
                && final(object).ref_count == count_after_dec(old(object).ref_count),
            final(object).obj_type == old(object).obj_type,
            final(object).destroying == old(object).destroying,
    {
        self.handle.close(object)
    }

    /// Take the handle out, consuming the owner.
    pub fn take(self) -> (r: Handle)
        ensures
            r == self.handle_of(),
    {
        self.handle
    }
}


// ============================================================================
// Handle Table
// ============================================================================

/// Maximum handles per process.
pub const MAX_HANDLES: usize = 256;

/// Handle table entry.
#[derive(Debug, Clone, Copy, PartialEq, Eq, Structural)]
pub struct HandleEntry {
    pub id: HandleId,
    pub base: Option<ObjectRef>,
    pub rights: Rights,
}

/// The number of occupied slots.
pub open spec fn occupied(s: Seq<Option<HandleEntry>>) -> nat
    decreases s.len(),
{
    if s.len() == 0 {
        0
    } else {
        occupied(s.drop_last()) + (if s.last() is Some { 1nat } else { 0nat })
    }
}

proof fn lemma_occupied_bound(s: Seq<Option<HandleEntry>>)
    ensures
        occupied(s) <= s.len(),
    decreases s.len(),
{
    if s.len() > 0 {
        lemma_occupied_bound(s.drop_last());
    }
}

proof fn lemma_occupied_update(s: Seq<Option<HandleEntry>>, i: int, v: Option<HandleEntry>)
    requires
        0 <= i < s.len(),
    ensures
        occupied(s.update(i, v)) + (if s[i] is Some { 1int } else { 0int }) == occupied(s) + (
        if v is Some { 1int } else { 0int }),
    decreases s.len(),
{
    let t = s.update(i, v);
    if i == s.len() - 1 {
        assert(t.drop_last() =~= s.drop_last());
    } else {
        lemma_occupied_update(s.drop_last(), i, v);
        assert(t.drop_last() =~= s.drop_last().update(i, v));
    }
}

proof fn lemma_occupied_all_some(s: Seq<Option<HandleEntry>>)
    requires
        forall|j: int| 0 <= j < s.len() ==> s[j] is Some,
    ensures
        occupied(s) == s.len(),
    decreases s.len(),
{
    if s.len() > 0 {
        lemma_occupied_all_some(s.drop_last());
    }
}

proof fn lemma_occupied_all_none(s: Seq<Option<HandleEntry>>)
    requires
        forall|j: int| 0 <= j < s.len() ==> s[j] is None,
    ensures
        occupied(s) == 0,
    decreases s.len(),
{
    if s.len() > 0 {
        lemma_occupied_all_none(s.drop_last());
    }
}

/// Handle table: manages the handles of one process.
pub struct HandleTable {
    slots: Vec<Option<HandleEntry>>,
    count: usize,
}

/// The entry a handle is stored as.
pub open spec fn entry_of(h: Handle) -> HandleEntry {
    HandleEntry { id: h.id, base: h.base, rights: h.rights }
}

/// The handle an entry is read back as.
pub open spec fn handle_of_entry(e: HandleEntry) -> Handle {
    Handle { id: e.id, base: e.base, rights: e.rights }
}

impl HandleTable {
    /// The slots, indexed by handle value.
    pub closed spec fn view(&self) -> Seq<Option<HandleEntry>> {
        self.slots@
    }

    /// Well-formedness: a full set of slots and a count of the occupied ones.
    pub closed spec fn wf(&self) -> bool {
        self.slots@.len() == MAX_HANDLES && self.count == occupied(self.slots@)
    }

    /// The number of active handles.
    pub closed spec fn active(&self) -> nat {
        occupied(self.slots@)
    }

    /// Create an empty handle table.
    pub fn new() -> (t: HandleTable)
        ensures
            t.wf(),
            t@.len() == MAX_HANDLES,
            forall|i: int| 0 <= i < MAX_HANDLES ==> t@[i] is None,
            t.active() == 0,
    {
        let mut slots: Vec<Option<HandleEntry>> = Vec::new();
        let mut i: usize = 0;
        while i < MAX_HANDLES
            invariant
                i <= MAX_HANDLES,
                slots@.len() == i,
                forall|j: int| 0 <= j < i ==> slots@[j] is None,
            decreases MAX_HANDLES - i,
        {
            slots.push(None);
            i = i + 1;
        }
        proof {
            lemma_occupied_all_none(slots@);
        }
        HandleTable { slots, count: 0 }
    }

    /// Add a handle in the first free slot and return that slot's number.
    pub fn add(&mut self, handle: Handle) -> (r: Result<u32, &'static str>)
        requires
            old(self).wf(),
        ensures
            final(self).wf(),
            r matches Ok(i) ==> {
                &&& i < MAX_HANDLES
                &&& old(self)@[i as int] is None
                &&& forall|j: int| 0 <= j < i ==> old(self)@[j] is Some
                &&& final(self)@ == old(self)@.update(i as int, Some(entry_of(handle)))
                &&& final(self).active() == old(self).active() + 1
            },
            r is Err ==> {
                &&& forall|j: int| 0 <= j < MAX_HANDLES ==> old(self)@[j] is Some
                &&& final(self)@ == old(self)@
                &&& r == Err::<u32, &'static str>("handle table full")
            },
    {
        let mut i: usize = 0;
        while i < self.slots.len()
            invariant
                self.wf(),
                self@ == old(self)@,
                i <= MAX_HANDLES,
                forall|j: int| 0 <= j < i ==> self@[j] is Some,
            decreases MAX_HANDLES - i,
        {
            if self.slots[i].is_none() {
                let ghost before = self.slots@;
                self.slots.set(i, Some(HandleEntry { id: handle.id, base: handle.base, rights: handle.rights }));
                proof {
                    lemma_occupied_update(before, i as int, Some(entry_of(handle)));
                    lemma_occupied_bound(self.slots@);
                }
                self.count = self.count + 1;
                return Ok(i as u32);
            }
            i = i + 1;
        }
        Err("handle table full")
    }

    /// Read the handle stored under `handle_val`.
    pub fn get(&self, handle_val: u32) -> (r: Option<Handle>)
        requires
            self.wf(),
        ensures
            r == (if handle_val < MAX_HANDLES && self@[handle_val as int] is Some {
                Some(handle_of_entry(self@[handle_val as int]->0))
            } else {
                None
            }),
    {
        if handle_val as usize >= MAX_HANDLES {
            return None;
        }
        match self.slots[handle_val as usize] {
            Some(h) => Some(Handle { id: h.id, base: h.base, rights: h.rights }),
            None => None,
        }
    }

    /// Remove the handle stored under `handle_val`.
    ///
    /// `object` is the base of the object that entry names; its reference
    /// count goes down by one.  Gives `Ok(true)` when an entry was removed,
    /// `Ok(false)` when the slot was empty.
    pub fn remove(&mut self, handle_val: u32, object: &mut KernelObjectBase) -> (r: Result<
        bool,
        &'static str,
    >)
        requires
            old(self).wf(),
        ensures
            final(self).wf(),
            handle_val >= MAX_HANDLES ==> r == Err::<bool, &'static str>("invalid handle value")
                && final(self)@ == old(self)@ && *final(object) == *old(object),
            handle_val < MAX_HANDLES && old(self)@[handle_val as int] is None ==> r == Ok::<
                bool,
                &'static str,
            >(false) && final(self)@ == old(self)@ && *final(object) == *old(object),
            handle_val < MAX_HANDLES && old(self)@[handle_val as int] is Some ==> {
                &&& r == Ok::<bool, &'static str>(true)
                &&& final(self)@ == old(self)@.update(handle_val as int, None)
                &&& final(self).active() + 1 == old(self).active()
                &&& old(self)@[handle_val as int]->0.base is Some ==> final(object).ref_count
                    == count_after_dec(old(object).ref_count)
                &&& old(self)@[handle_val as int]->0.base is None ==> *final(object) == *old(
                    object,
                )
            },
            final(object).obj_type == old(object).obj_type,
            final(object).destroying == old(object).destroying,
    {
        if handle_val as usize >= MAX_HANDLES {
            return Err("invalid handle value");
        }
        let idx = handle_val as usize;
        match self.slots[idx] {
            Some(entry) => {
                let ghost before = self.slots@;
                self.slots.set(idx, None);
                proof {
                    lemma_occupied_update(before, idx as int, None);
                }
                self.count = self.count - 1;
                if entry.base.is_some() {
                    let _ = object.ref_dec();
                }
                Ok(true)
            },
            None => Ok(false),
        }
    }

    /// Duplicate the handle stored under `handle_val` into a new slot.
    ///
    /// `object` is the base of the object that entry names; its reference
    /// count goes up when the duplicate is made.
    pub fn duplicate(
        &mut self,
        handle_val: u32,
        mask: Rights,
        ids: &mut IdAllocator,
        object: &mut KernelObjectBase,
    ) -> (r: Result<u32, &'static str>)
        requires
            old(self).wf(),
            handle_val < MAX_HANDLES,
        ensures
            final(self).wf(),
            old(self)@[handle_val as int] is None ==> r == Err::<u32, &'static str>(
                "handle not found",
            ) && final(self)@ == old(self)@ && *final(ids) == *old(ids),
            old(self)@[handle_val as int] is Some && !old(self)@[handle_val as int]->0.rights.has_all(
                Rights(Rights::DUPLICATE),
            ) ==> r == Err::<u32, &'static str>("duplicate right not held") && final(self)@ == old(
                self,
            )@ && *final(ids) == *old(ids),
            old(self)@[handle_val as int] is Some && old(self)@[handle_val as int]->0.rights.has_all(
                Rights(Rights::DUPLICATE),
            ) ==> ({
                let e = old(self)@[handle_val as int]->0;
                let h = Handle {
                    id: old(ids).next,
                    base: e.base,
                    rights: Handle::masked_rights(e.rights, mask),
                };
                &&& r matches Ok(i) ==> i < MAX_HANDLES && old(self)@[i as int] is None
                    && (forall|j: int| 0 <= j < i ==> old(self)@[j] is Some)
                    && final(self)@ == old(self)@.update(i as int, Some(entry_of(h)))
                    && final(self).active() == old(self).active() + 1
                &&& r is Err ==> r == Err::<u32, &'static str>("handle table full")
                    && final(self)@ == old(self)@
                    && (forall|j: int| 0 <= j < MAX_HANDLES ==> old(self)@[j] is Some)
                &&& final(ids).next == nth_id(old(ids).next, 1)
                &&& e.base is Some ==> final(object).ref_count == count_after_inc(
                    old(object).ref_count,
                )
            }),
            final(object).obj_type == old(object).obj_type,
            final(object).destroying == old(object).destroying,
    {
        let entry = match self.slots[handle_val as usize] {
            Some(e) => e,
            None => {
                return Err("handle not found");
            },
        };
        if !entry.rights.contains(Rights(Rights::DUPLICATE)) {
            return Err("duplicate right not held");
        }
        let new_rights = if mask.contains(Rights(Rights::SAME_RIGHTS)) {
            entry.rights
        } else {
            entry.rights.reduce(mask)
        };
        if entry.base.is_some() {
            object.ref_inc();
        }
        let handle = Handle { id: ids.next_id(), base: entry.base, rights: new_rights };
        self.add(handle)
    }

    /// Get the number of active handles.
    pub fn count(&self) -> (r: usize)
        requires
            self.wf(),
        ensures
            r == self.active(),
    {
        self.count
    }

    /// Whether every slot is taken.
    pub fn is_full(&self) -> (r: bool)
        requires
            self.wf(),
        ensures
            r == (self.active() >= MAX_HANDLES),
    {
        self.count >= MAX_HANDLES
    }
}

/// Law: a handle added to the table is read back unchanged under the
/// slot number that `add` returned.
pub proof fn lemma_handle_table_add_get(before: Seq<Option<HandleEntry>>, i: u32, h: Handle)
    requires
        i < MAX_HANDLES,
        before.len() == MAX_HANDLES,
    ensures
        before.update(i as int, Some(entry_of(h)))[i as int] matches Some(e) && handle_of_entry(e)
            == h,
{
}

} // verus!
