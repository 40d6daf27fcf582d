//! The multiple APIC description table (MADT): local APICs, I/O APICs and
//! interrupt source overrides.

use vstd::prelude::*;
use crate::bytes::{le16, le32, read_u16_le, read_u32_le};
use crate::acpi::rsdt::{SDTHeader, header_of, find_table_in_rsdt, table_ok, rsdt_ok, rsdt_entry_count};

verus! {

/// Signature of the MADT.
pub const MADT_SIGNATURE: [u8; 4] = [65, 80, 73, 67];

/// Most local APIC entries kept.
pub const MAX_LOCAL_APICS: usize = 256;

/// Most I/O APIC entries kept.
pub const MAX_IO_APICS: usize = 8;

/// Most interrupt source overrides kept.
pub const MAX_OVERRIDES: usize = 16;

/// Offset of the first entry: the table header, the local APIC address and
/// the flags.
pub const MADT_ENTRIES_OFFSET: usize = 44;

/// The fixed part of the MADT.
#[derive(Debug, Clone, Copy)]
pub struct Madt {
    pub header: SDTHeader,
    /// Physical address of the local APIC
    pub local_apic_address: u32,
    pub flags: u32,
}

impl Madt {
    /// Decode the fixed part of a MADT; `None` when fewer than 44 bytes are
    /// given.
    pub fn parse(b: &[u8]) -> (r: Option<Madt>)
        ensures
            r is Some <==> b@.len() >= 44,
            r matches Some(m) ==> header_of(m.header, b@) && m.local_apic_address == le32(b@, 36)
                && m.flags == le32(b@, 40),
    {
        if b.len() < MADT_ENTRIES_OFFSET {
            return None;
        }
        let header = SDTHeader::parse(b);
        match header {
            Some(h) => Some(Madt { header: h, local_apic_address: read_u32_le(b, 36), flags: read_u32_le(b, 40) }),
            None => None,
        }
    }
}

/// Types of MADT entries.
#[derive(Debug, Clone, Copy, PartialEq, Eq, Structural)]
pub enum MadtEntryType {
    LocalApic,
    IoApic,
    InterruptSourceOverride,
    NmiSource,
    LocalApicNmi,
    LocalApicAddressOverride,
    IoSapic,
    LocalSapic,
    PlatformInterruptSource,
    LocalX2Apic,
    LocalX2ApicNmi,
    GicCpuInterface,
    GicDistributor,
    GicMsiFrame,
    GicRedistributor,
    GicIts,
}

impl MadtEntryType {
    /// The entry type with code `raw`, if any (codes 0 to 15).
    pub fn from_raw(raw: u8) -> (r: Option<MadtEntryType>)
        ensures
            r is Some <==> raw <= 15,
            r matches Some(t) ==> t.into_raw_spec() == raw,
    {
        match raw {
            0 => Some(MadtEntryType::LocalApic),
            1 => Some(MadtEntryType::IoApic),
            2 => Some(MadtEntryType::InterruptSourceOverride),
            3 => Some(MadtEntryType::NmiSource),
            4 => Some(MadtEntryType::LocalApicNmi),
            5 => Some(MadtEntryType::LocalApicAddressOverride),
            6 => Some(MadtEntryType::IoSapic),
            7 => Some(MadtEntryType::LocalSapic),
            8 => Some(MadtEntryType::PlatformInterruptSource),
            9 => Some(MadtEntryType::LocalX2Apic),
            10 => Some(MadtEntryType::LocalX2ApicNmi),
            11 => Some(MadtEntryType::GicCpuInterface),
            12 => Some(MadtEntryType::GicDistributor),
            13 => Some(MadtEntryType::GicMsiFrame),
            14 => Some(MadtEntryType::GicRedistributor),
            15 => Some(MadtEntryType::GicIts),
            _ => None,
        }
    }

    /// The code of an entry type.
    pub open spec fn into_raw_spec(self) -> u8 {
        match self {
            MadtEntryType::LocalApic => 0,
            MadtEntryType::IoApic => 1,
            MadtEntryType::InterruptSourceOverride => 2,
            MadtEntryType::NmiSource => 3,
            MadtEntryType::LocalApicNmi => 4,
            MadtEntryType::LocalApicAddressOverride => 5,
            MadtEntryType::IoSapic => 6,
            MadtEntryType::LocalSapic => 7,
            MadtEntryType::PlatformInterruptSource => 8,
            MadtEntryType::LocalX2Apic => 9,
            MadtEntryType::LocalX2ApicNmi => 10,
            MadtEntryType::GicCpuInterface => 11,
            MadtEntryType::GicDistributor => 12,
            MadtEntryType::GicMsiFrame => 13,
            MadtEntryType::GicRedistributor => 14,
            MadtEntryType::GicIts => 15,
        }
    }

    /// The code of an entry type.
    pub fn into_raw(self) -> (r: u8)
        ensures
            r == self.into_raw_spec(),
    {
        match self {
            MadtEntryType::LocalApic => 0,
            MadtEntryType::IoApic => 1,
            MadtEntryType::InterruptSourceOverride => 2,
            MadtEntryType::NmiSource => 3,
            MadtEntryType::LocalApicNmi => 4,
            MadtEntryType::LocalApicAddressOverride => 5,
            MadtEntryType::IoSapic => 6,
            MadtEntryType::LocalSapic => 7,
            MadtEntryType::PlatformInterruptSource => 8,
            MadtEntryType::LocalX2Apic => 9,
            MadtEntryType::LocalX2ApicNmi => 10,
            MadtEntryType::GicCpuInterface => 11,
            MadtEntryType::GicDistributor => 12,
            MadtEntryType::GicMsiFrame => 13,
            MadtEntryType::GicRedistributor => 14,
            MadtEntryType::GicIts => 15,
        }
    }
}

/// Header common to all MADT entries.
#[derive(Debug, Clone, Copy, PartialEq, Eq, Structural)]
pub struct MadtEntryHeader {
    pub entry_type: u8,
    pub length: u8,
}

/// Processor local APIC entry (type 0).
#[derive(Debug, Clone, Copy, PartialEq, Eq, Structural)]
pub struct LocalApicEntry {
    pub header: MadtEntryHeader,
    /// ACPI processor ID
    pub processor_id: u8,
    /// Local APIC ID
    pub apic_id: u8,
    /// Flags (bit 0: enabled)
    pub flags: u32,
}

/// I/O APIC entry (type 1).
#[derive(Debug, Clone, Copy, PartialEq, Eq, Structural)]
pub struct IoApicEntry {
    pub header: MadtEntryHeader,
    pub io_apic_id: u8,
    pub reserved: u8,
    /// Physical address of the I/O APIC
    pub address: u32,
    /// First global system interrupt it handles
    pub gsi_base: u32,
}

/// Interrupt source override entry (type 2).
#[derive(Debug, Clone, Copy, PartialEq, Eq, Structural)]
pub struct InterruptSourceOverrideEntry {
    pub header: MadtEntryHeader,
    /// Bus (0 is ISA)
    pub bus: u8,
    /// IRQ on that bus
    pub source_irq: u8,
    /// Global system interrupt it maps to
    pub gsi: u32,
    /// Polarity and trigger mode
    pub flags: u16,
}

/// The local APIC entry encoded at `off`.
pub open spec fn local_apic_at(b: Seq<u8>, off: int) -> LocalApicEntry {
    LocalApicEntry {
        header: MadtEntryHeader { entry_type: b[off], length: b[off + 1] },
        processor_id: b[off + 2],
        apic_id: b[off + 3],
        flags: le32(b, off + 4) as u32,
    }
}

/// The I/O APIC entry encoded at `off`.
pub open spec fn io_apic_at(b: Seq<u8>, off: int) -> IoApicEntry {
    IoApicEntry {
        header: MadtEntryHeader { entry_type: b[off], length: b[off + 1] },
        io_apic_id: b[off + 2],
        reserved: b[off + 3],
        address: le32(b, off + 4) as u32,
        gsi_base: le32(b, off + 8) as u32,
    }
}

/// The interrupt source override entry encoded at `off`.
pub open spec fn override_at(b: Seq<u8>, off: int) -> InterruptSourceOverrideEntry {
    InterruptSourceOverrideEntry {
        header: MadtEntryHeader { entry_type: b[off], length: b[off + 1] },
        bus: b[off + 2],
        source_irq: b[off + 3],
        gsi: le32(b, off + 4) as u32,
        flags: le16(b, off + 8) as u16,
    }
}

/// The entries kept by a walk of the entries of `b` from `off` to `end`,
/// having kept `l`, `io` and `ov` so far; each kind is kept up to its limit
/// and other types are skipped. `None` when an entry has length zero, or
/// when an entry's header, or an entry to keep, lies beyond `b`.
pub open spec fn madt_walk(
    b: Seq<u8>,
    off: int,
    end: int,
    l: Seq<LocalApicEntry>,
    io: Seq<IoApicEntry>,
    ov: Seq<InterruptSourceOverrideEntry>,
) -> Option<(Seq<LocalApicEntry>, Seq<IoApicEntry>, Seq<InterruptSourceOverrideEntry>)>
    decreases (if off < end { end - off } else { 0 }),
{
    if off >= end {
        Some((l, io, ov))
    } else if off < 0 || off + 2 > b.len() {
        None
    } else {
        let t = b[off];
        let len = b[off + 1] as int;
        if len == 0 {
            None
        } else if t == 0 && l.len() < MAX_LOCAL_APICS {
            if off + 8 > b.len() {
                None
            } else {
                madt_walk(b, off + len, end, l.push(local_apic_at(b, off)), io, ov)
            }
        } else if t == 1 && io.len() < MAX_IO_APICS {
            if off + 12 > b.len() {
                None
            } else {
                madt_walk(b, off + len, end, l, io.push(io_apic_at(b, off)), ov)
            }
        } else if t == 2 && ov.len() < MAX_OVERRIDES {
            if off + 10 > b.len() {
                None
            } else {
                madt_walk(b, off + len, end, l, io, ov.push(override_at(b, off)))
            }
        } else {
            madt_walk(b, off + len, end, l, io, ov)
        }
    }
}

/// The entries of the MADT whose bytes are `b`.
pub open spec fn madt_entries(b: Seq<u8>) -> Option<
    (Seq<LocalApicEntry>, Seq<IoApicEntry>, Seq<InterruptSourceOverrideEntry>),
> {
    if b.len() < 44 {
        None
    } else {
        madt_walk(b, 44, le32(b, 4), Seq::empty(), Seq::empty(), Seq::empty())
    }
}

/// `o` is the interrupt source override whose entry starts at byte `off`
/// of `b`, read field by field as the ACPI layout places them: type (2) and
/// length, then bus at byte 2, source IRQ at byte 3, the global system
/// interrupt in bytes 4 to 7 and the flags in bytes 8 and 9, little-endian.
pub open spec fn override_entry_at(b: Seq<u8>, off: int, o: InterruptSourceOverrideEntry) -> bool {
    &&& 0 <= off && off + 10 <= b.len()
    &&& b[off] == 2 && o.header.entry_type == 2
    &&& o.header.length == b[off + 1]
    &&& o.bus == b[off + 2]
    &&& o.source_irq == b[off + 3]
    &&& o.gsi == b[off + 4] + b[off + 5] * 0x100 + b[off + 6] * 0x1_0000 + b[off + 7] * 0x100_0000
    &&& o.flags == b[off + 8] + b[off + 9] * 0x100
}

/// `o` is the interrupt source override of an entry of `b` that starts at
/// or past byte `lo`.
pub open spec fn override_read_past(b: Seq<u8>, lo: int, o: InterruptSourceOverrideEntry) -> bool {
    exists|e: int| lo <= e && #[trigger] override_entry_at(b, e, o)
}

/// A walk keeps, as overrides, only entries read from `b` at offsets at or
/// past `lo`, each with its fields at their places in the entry.
proof fn lemma_walk_overrides_read_in_place(
    b: Seq<u8>,
    lo: int,
    off: int,
    end: int,
    l: Seq<LocalApicEntry>,
    io: Seq<IoApicEntry>,
    ov: Seq<InterruptSourceOverrideEntry>,
)
    requires
        lo <= off,
        forall|i: int| 0 <= i < ov.len() ==> override_read_past(b, lo, #[trigger] ov[i]),
    ensures
        madt_walk(b, off, end, l, io, ov) matches Some(res) ==> forall|i: int|
            0 <= i < res.2.len() ==> override_read_past(b, lo, #[trigger] res.2[i]),
    decreases (if off < end { end - off } else { 0 }),
{
    if off >= end || off < 0 || off + 2 > b.len() {
    } else {
        let t = b[off];
        let len = b[off + 1] as int;
        if len == 0 {
        } else if t == 0 && l.len() < MAX_LOCAL_APICS {
            if off + 8 <= b.len() {
                lemma_walk_overrides_read_in_place(b, lo, off + len, end, l.push(local_apic_at(b, off)), io, ov);
            }
        } else if t == 1 && io.len() < MAX_IO_APICS {
            if off + 12 <= b.len() {
                lemma_walk_overrides_read_in_place(b, lo, off + len, end, l, io.push(io_apic_at(b, off)), ov);
            }
        } else if t == 2 && ov.len() < MAX_OVERRIDES {
            if off + 10 <= b.len() {
                let o = override_at(b, off);
                let ov2 = ov.push(o);
                assert(override_entry_at(b, off, o));
                assert forall|i: int| 0 <= i < ov2.len() implies override_read_past(b, lo, #[trigger] ov2[i]) by {
                    if i < ov.len() {
                        assert(ov2[i] == ov[i]);
                    } else {
                        assert(ov2[i] == o);
                    }
                }
                lemma_walk_overrides_read_in_place(b, lo, off + len, end, l, io, ov2);
            }
        } else {
            lemma_walk_overrides_read_in_place(b, lo, off + len, end, l, io, ov);
        }
    }
}

/// Law: every interrupt source override that the MADT `b` yields is an
/// entry of type 2 past the fixed header whose bus is its byte 2, its source
/// IRQ its byte 3, its global system interrupt bytes 4 to 7 and its flags
/// bytes 8 and 9.
pub proof fn lemma_overrides_read_in_place(b: Seq<u8>)
    ensures
        madt_entries(b) matches Some(res) ==> forall|i: int|
            0 <= i < res.2.len() ==> override_read_past(b, 44, #[trigger] res.2[i]),
{
    if b.len() >= 44 {
        lemma_walk_overrides_read_in_place(b, 44, 44, le32(b, 4), Seq::empty(), Seq::empty(), Seq::empty());
    }
}

/// A parsed MADT.
#[derive(Debug)]
pub struct ParsedMadt {
    /// Physical address of the local APIC
    pub local_apic_address: u32,
    pub flags: u32,
    pub local_apic_count: usize,
    pub local_apics: Vec<LocalApicEntry>,
    pub io_apic_count: usize,
    pub io_apics: Vec<IoApicEntry>,
    pub override_count: usize,
    pub overrides: Vec<InterruptSourceOverrideEntry>,
}

impl ParsedMadt {
    /// Counts match the lists, which stay within their limits.
    pub open spec fn wf(&self) -> bool {
        &&& self.local_apic_count == self.local_apics@.len() <= MAX_LOCAL_APICS
        &&& self.io_apic_count == self.io_apics@.len() <= MAX_IO_APICS
        &&& self.override_count == self.overrides@.len() <= MAX_OVERRIDES
    }

    /// Address of the first I/O APIC, if any.
    pub fn first_ioapic_address(&self) -> (r: Option<u32>)
        requires
            self.wf(),
        ensures
            r == (if self.io_apics@.len() > 0 {
                Some(self.io_apics@[0].address)
            } else {
                None
            }),
    {
        if self.io_apic_count > 0 {
            Some(self.io_apics[0].address)
        } else {
            None
        }
    }

    /// The first I/O APIC whose 24 interrupts, from its base, include `gsi`.
    pub fn find_ioapic_for_gsi(&self, gsi: u32) -> (r: Option<&IoApicEntry>)
        requires
            self.wf(),
            forall|i: int| 0 <= i < self.io_apics@.len() ==> (#[trigger] self.io_apics@[i]).gsi_base + 24
                <= u32::MAX,
        ensures
            r is None <==> forall|i: int| 0 <= i < self.io_apics@.len() ==> !handles_gsi(
                #[trigger] self.io_apics@[i],
                gsi,
            ),
            r matches Some(e) ==> exists|i: int|
                0 <= i < self.io_apics@.len() && *e == #[trigger] self.io_apics@[i] && handles_gsi(
                    self.io_apics@[i],
                    gsi,
                ) && forall|j: int| 0 <= j < i ==> !handles_gsi(#[trigger] self.io_apics@[j], gsi),
    {
        let mut i: usize = 0;
        while i < self.io_apic_count
            invariant
                self.wf(),
                i <= self.io_apics@.len(),
                forall|k: int| 0 <= k < self.io_apics@.len() ==> (#[trigger] self.io_apics@[k]).gsi_base
                    + 24 <= u32::MAX,
                forall|j: int| 0 <= j < i ==> !handles_gsi(#[trigger] self.io_apics@[j], gsi),
            decreases self.io_apics@.len() - i,
        {
            let ioapic = &self.io_apics[i];
            let gsi_end = ioapic.gsi_base + 24;
            if gsi >= ioapic.gsi_base && gsi < gsi_end {
                return Some(ioapic);
            }
            i = i + 1;
        }
        None
    }
}

/// The I/O APIC handles `gsi`: its base `<= gsi < base + 24`.
pub open spec fn handles_gsi(e: IoApicEntry, gsi: u32) -> bool {
    e.gsi_base <= gsi < e.gsi_base + 24
}

/// Parse the MADT whose bytes are `table`: the local APIC address and
/// flags, and the local APIC, I/O APIC and override entries, each kind kept
/// up to its limit, other entry types skipped.
///
/// `None` when the table is shorter than its fixed part, when an entry has
/// length zero, or when an entry lies beyond the given bytes.
pub fn parse_madt(table: &[u8]) -> (r: Option<ParsedMadt>)
    requires
        table@.len() + 256 <= usize::MAX,
    ensures
        r is Some <==> madt_entries(table@) is Some,
        r matches Some(p) ==> {
            &&& p.wf()
            &&& p.local_apic_address == le32(table@, 36)
            &&& p.flags == le32(table@, 40)
            &&& madt_entries(table@) == Some((p.local_apics@, p.io_apics@, p.overrides@))
            &&& forall|i: int|
                0 <= i < p.overrides@.len() ==> override_read_past(table@, 44, #[trigger] p.overrides@[i])
        },
{
    let madt = match Madt::parse(table) {
        Some(m) => m,
        None => {
            return None;
        },
    };
    let end = madt.header.length as usize;
    let mut local_apics: Vec<LocalApicEntry> = Vec::new();
    let mut io_apics: Vec<IoApicEntry> = Vec::new();
    let mut overrides: Vec<InterruptSourceOverrideEntry> = Vec::new();
    let mut off: usize = MADT_ENTRIES_OFFSET;
    while off < end
        invariant
            table@.len() + 256 <= usize::MAX,
            table@.len() >= 44,
            end == le32(table@, 4),
            off <= table@.len() + 255,
            local_apics@.len() <= MAX_LOCAL_APICS,
            io_apics@.len() <= MAX_IO_APICS,
            overrides@.len() <= MAX_OVERRIDES,
            madt_entries(table@) == madt_walk(table@, off as int, end as int, local_apics@, io_apics@, overrides@),
        decreases (if off < end { end - off } else { 0 }),
    {
        if off >= table.len() || table.len() - off < 2 {
            return None;
        }
        let t = table[off];
        let len = table[off + 1] as usize;
        if len == 0 {
            return None;
        }
        if t == 0 && local_apics.len() < MAX_LOCAL_APICS {
            if off + 8 > table.len() {
                return None;
            }
            local_apics.push(
                LocalApicEntry {
                    header: MadtEntryHeader { entry_type: t, length: table[off + 1] },
                    processor_id: table[off + 2],
                    apic_id: table[off + 3],
                    flags: read_u32_le(table, off + 4),
                },
            );
        } else if t == 1 && io_apics.len() < MAX_IO_APICS {
            if off + 12 > table.len() {
                return None;
            }
            io_apics.push(
                IoApicEntry {
                    header: MadtEntryHeader { entry_type: t, length: table[off + 1] },
                    io_apic_id: table[off + 2],
                    reserved: table[off + 3],
                    address: read_u32_le(table, off + 4),
                    gsi_base: read_u32_le(table, off + 8),
                },
            );
        } else if t == 2 && overrides.len() < MAX_OVERRIDES {
            if off + 10 > table.len() {
                return None;
            }
            overrides.push(
                InterruptSourceOverrideEntry {
                    header: MadtEntryHeader { entry_type: t, length: table[off + 1] },
                    bus: table[off + 2],
                    source_irq: table[off + 3],
                    gsi: read_u32_le(table, off + 4),
                    flags: read_u16_le(table, off + 8),
                },
            );
        }
        off = off + len;
    }
    proof {
        lemma_overrides_read_in_place(table@);
        let res = madt_entries(table@)->0;
        assert(res.2 == overrides@);
        assert forall|i: int| 0 <= i < overrides@.len() implies override_read_past(
            table@,
            44,
            #[trigger] overrides@[i],
        ) by {
            assert(override_read_past(table@, 44, res.2[i]));
        }
    }
    Some(
        ParsedMadt {
            local_apic_address: madt.local_apic_address,
            flags: madt.flags,
            local_apic_count: local_apics.len(),
            local_apics,
            io_apic_count: io_apics.len(),
            io_apics,
            override_count: overrides.len(),
            overrides,
        },
    )
}

/// Find the MADT among the tables the root table lists and parse it.
///
/// `tables[i]` holds the bytes at the `i`-th address of the root table.
pub fn find_and_parse_madt(rsdt: &[u8], tables: &Vec<Vec<u8>>) -> (r: Option<ParsedMadt>)
    requires
        rsdt@.len() >= 36,
        le32(rsdt@, 4) <= rsdt@.len(),
        rsdt_ok(rsdt@) ==> le32(rsdt@, 4) >= 36 && tables@.len() == rsdt_entry_count(le32(rsdt@, 4)),
        forall|i: int| 0 <= i < tables@.len() ==> (#[trigger] tables@[i])@.len() + 256 <= usize::MAX
            && (tables@[i]@.len() >= 36 ==> le32(tables@[i]@, 4) <= tables@[i]@.len()),
    ensures
        !rsdt_ok(rsdt@) ==> r is None,
        rsdt_ok(rsdt@) && (forall|j: int| 0 <= j < tables@.len() ==> !table_ok(#[trigger] tables@[j]@, MADT_SIGNATURE@))
            ==> r is None,
        rsdt_ok(rsdt@) && r is Some ==> exists|i: int|
            0 <= i < tables@.len() && table_ok(#[trigger] tables@[i]@, MADT_SIGNATURE@) && (forall|j: int|
                0 <= j < i ==> !table_ok(#[trigger] tables@[j]@, MADT_SIGNATURE@)) && madt_entries(tables@[i]@)
                == Some((r->0.local_apics@, r->0.io_apics@, r->0.overrides@)),
        rsdt_ok(rsdt@) ==> forall|i: int|
            0 <= i < tables@.len() && table_ok(#[trigger] tables@[i]@, MADT_SIGNATURE@) && (forall|j: int|
                0 <= j < i ==> !table_ok(#[trigger] tables@[j]@, MADT_SIGNATURE@)) ==> {
                &&& (r is Some <==> madt_entries(tables@[i]@) is Some)
                &&& r matches Some(p) ==> {
                    &&& p.wf()
                    &&& p.local_apic_address == le32(tables@[i]@, 36)
                    &&& p.flags == le32(tables@[i]@, 40)
                    &&& madt_entries(tables@[i]@) == Some((p.local_apics@, p.io_apics@, p.overrides@))
                }
            },
{
    let idx = find_table_in_rsdt(rsdt, &MADT_SIGNATURE, tables);
    match idx {
        Some(i) => {
            let r = parse_madt(tables[i].as_slice());
            proof {
                if r is Some {
                    assert(table_ok(tables@[i as int]@, MADT_SIGNATURE@));
                }
                if rsdt_ok(rsdt@) {
                    assert forall|k: int|
                        0 <= k < tables@.len() && table_ok(#[trigger] tables@[k]@, MADT_SIGNATURE@) && (forall|j: int|
                            0 <= j < k ==> !table_ok(#[trigger] tables@[j]@, MADT_SIGNATURE@)) implies k == i by {
                        if k < i {
                            assert(!table_ok(tables@[k]@, MADT_SIGNATURE@));
                        } else if k > i {
                            assert(table_ok(tables@[i as int]@, MADT_SIGNATURE@));
                        }
                    }
                }
            }
            r
        },
        None => None,
    }
}

} // verus!
