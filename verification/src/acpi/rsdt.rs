//! System description table headers and the root system description table.

use vstd::prelude::*;
use crate::bytes::{le32, read_u32_le};

verus! {

/// Size of a system description table header.
pub const SDT_HEADER_SIZE: usize = 36;

/// Signature of the root system description table.
pub const RSDT_SIGNATURE: [u8; 4] = [82, 83, 68, 84];

/// Standard header of an ACPI system description table.
#[derive(Debug, Clone, Copy)]
pub struct SDTHeader {
    /// Table signature
    pub signature: [u8; 4],
    /// Length of the table including the header
    pub length: u32,
    pub revision: u8,
    /// Checksum of the entire table
    pub checksum: u8,
    pub oem_id: [u8; 6],
    pub oem_table_id: [u8; 8],
    pub oem_revision: u32,
    pub creator_id: u32,
    pub creator_revision: u32,
}

/// `h` is the header encoded by the first 36 bytes of `b`.
pub open spec fn header_of(h: SDTHeader, b: Seq<u8>) -> bool {
    &&& h.signature@ == b.subrange(0, 4)
    &&& h.length == le32(b, 4)
    &&& h.revision == b[8]
    &&& h.checksum == b[9]
    &&& h.oem_id@ == b.subrange(10, 16)
    &&& h.oem_table_id@ == b.subrange(16, 24)
    &&& h.oem_revision == le32(b, 24)
    &&& h.creator_id == le32(b, 28)
    &&& h.creator_revision == le32(b, 32)
}

/// Sum of the bytes, as an integer.
pub open spec fn byte_sum(s: Seq<u8>) -> int
    decreases s.len(),
{
    if s.len() == 0 {
        0
    } else {
        byte_sum(s.drop_last()) + s.last()
    }
}

/// The first `len` bytes sum to zero modulo 256.
pub open spec fn checksum_ok(b: Seq<u8>, len: int) -> bool {
    byte_sum(b.subrange(0, len)) % 256 == 0
}

fn read_bytes4(b: &[u8], off: usize) -> (a: [u8; 4])
    requires
        off + 4 <= b.len(),
    ensures
        a@ == b@.subrange(off as int, off + 4),
{
    let a: [u8; 4] = [b[off], b[off + 1], b[off + 2], b[off + 3]];
    assert(a@ =~= b@.subrange(off as int, off + 4));
    a
}

fn read_bytes6(b: &[u8], off: usize) -> (a: [u8; 6])
    requires
        off + 6 <= b.len(),
    ensures
        a@ == b@.subrange(off as int, off + 6),
{
    let a: [u8; 6] = [b[off], b[off + 1], b[off + 2], b[off + 3], b[off + 4], b[off + 5]];
    assert(a@ =~= b@.subrange(off as int, off + 6));
    a
}

fn read_bytes8(b: &[u8], off: usize) -> (a: [u8; 8])
    requires
        off + 8 <= b.len(),
    ensures
        a@ == b@.subrange(off as int, off + 8),
{
    let a: [u8; 8] = [
        b[off],
        b[off + 1],
        b[off + 2],
        b[off + 3],
        b[off + 4],
        b[off + 5],
        b[off + 6],
        b[off + 7],
    ];
    assert(a@ =~= b@.subrange(off as int, off + 8));
    a
}

impl SDTHeader {
    /// Decode the header at the start of a table; `None` when fewer than 36
    /// bytes are given.
    pub fn parse(b: &[u8]) -> (r: Option<SDTHeader>)
        ensures
            r is Some <==> b@.len() >= 36,
            r matches Some(h) ==> header_of(h, b@),
    {
        if b.len() < SDT_HEADER_SIZE {
            return None;
        }
        Some(SDTHeader {
            signature: read_bytes4(b, 0),
            length: read_u32_le(b, 4),
            revision: b[8],
            checksum: b[9],
            oem_id: read_bytes6(b, 10),
            oem_table_id: read_bytes8(b, 16),
            oem_revision: read_u32_le(b, 24),
            creator_id: read_u32_le(b, 28),
            creator_revision: read_u32_le(b, 32),
        })
    }
}

/// Whether the first `length` bytes of the table sum to zero modulo 256.
pub fn verify_sdt_checksum(table: &[u8], length: u32) -> (r: bool)
    requires
        length <= table.len(),
    ensures
        r == checksum_ok(table@, length as int),
{
    let mut sum: u8 = 0;
    let mut i: usize = 0;
    while i < length as usize
        invariant
            length <= table.len(),
            i <= length,
            sum == byte_sum(table@.subrange(0, i as int)) % 256,
        decreases length - i,
    {
        assert(table@.subrange(0, i + 1).drop_last() =~= table@.subrange(0, i as int));
        sum = sum.wrapping_add(table[i]);
        i = i + 1;
    }
    sum == 0
}

/// The root system description table: a header followed by 32-bit
/// physical addresses of the other tables.
#[derive(Debug, Clone, Copy)]
pub struct Rsdt {
    pub header: SDTHeader,
}

/// The extended system description table: a header followed by 64-bit
/// physical addresses of the other tables.
#[derive(Debug, Clone, Copy)]
pub struct Xsdt {
    pub header: SDTHeader,
}

/// Number of table addresses in a root table of `length` bytes.
pub open spec fn rsdt_entry_count(length: int) -> int {
    (length - 36) / 4
}

/// The `i`-th table address of a root table.
pub open spec fn rsdt_entry(b: Seq<u8>, i: int) -> u32 {
    le32(b, 36 + 4 * i) as u32
}

/// The table addresses of a root table whose bytes are `b`.
pub open spec fn rsdt_entries(b: Seq<u8>) -> Seq<u32> {
    Seq::new(rsdt_entry_count(le32(b, 4)) as nat, |i: int| rsdt_entry(b, i))
}

/// The table addresses of a root table, handed out in order.
pub struct RsdtIterator {
    entries: Vec<u32>,
    next: usize,
}

impl RsdtIterator {
    /// Addresses not handed out yet.
    pub closed spec fn remaining(&self) -> Seq<u32> {
        self.entries@.subrange(self.next as int, self.entries@.len() as int)
    }

    /// The position lies within the addresses.
    pub closed spec fn wf(&self) -> bool {
        self.next <= self.entries@.len()
    }

    /// An iterator over the table addresses that follow the header of the
    /// root table `rsdt`.
    pub fn new(rsdt: &[u8]) -> (r: RsdtIterator)
        requires
            rsdt@.len() >= 36,
            36 <= le32(rsdt@, 4) <= rsdt@.len(),
        ensures
            r.wf(),
            r.remaining() == rsdt_entries(rsdt@),
    {
        let length = read_u32_le(rsdt, 4) as usize;
        let count = (length - SDT_HEADER_SIZE) / 4;
        let mut entries: Vec<u32> = Vec::new();
        let mut i: usize = 0;
        while i < count
            invariant
                length == le32(rsdt@, 4),
                36 <= length <= rsdt@.len(),
                count == rsdt_entry_count(length as int),
                i <= count,
                entries@ =~= Seq::new(i as nat, |j: int| rsdt_entry(rsdt@, j)),
            decreases count - i,
        {
            let v = read_u32_le(rsdt, SDT_HEADER_SIZE + 4 * i);
            entries.push(v);
            i = i + 1;
        }
        let r = RsdtIterator { entries, next: 0 };
        assert(r.remaining() =~= rsdt_entries(rsdt@));
        r
    }

    /// The next address, if any.
    pub fn next(&mut self) -> (r: Option<u32>)
        requires
            old(self).wf(),
        ensures
            final(self).wf(),
            old(self).remaining().len() == 0 ==> r is None && final(self).remaining() == old(self).remaining(),
            old(self).remaining().len() > 0 ==> r == Some(old(self).remaining()[0])
                && final(self).remaining() == old(self).remaining().drop_first(),
    {
        if self.next < self.entries.len() {
            let v = self.entries[self.next];
            self.next = self.next + 1;
            Some(v)
        } else {
            None
        }
    }
}

/// A table whose bytes are `t` carries `signature` and a valid checksum.
pub open spec fn table_ok(t: Seq<u8>, signature: Seq<u8>) -> bool {
    &&& t.len() >= 36
    &&& t.subrange(0, 4) == signature
    &&& checksum_ok(t, le32(t, 4))
}

/// The root table has the right signature and checksum.
pub open spec fn rsdt_ok(rsdt: Seq<u8>) -> bool {
    rsdt.subrange(0, 4) == RSDT_SIGNATURE@ && checksum_ok(rsdt, le32(rsdt, 4))
}

/// Whether the table starts with `signature`.
fn signature_matches(t: &[u8], signature: &[u8; 4]) -> (r: bool)
    requires
        t@.len() >= 4,
    ensures
        r == (t@.subrange(0, 4) == signature@),
{
    let r = t[0] == signature[0] && t[1] == signature[1] && t[2] == signature[2] && t[3] == signature[3];
    proof {
        if r {
            assert(t@.subrange(0, 4) =~= signature@);
        } else {
            assert(t@.subrange(0, 4) != signature@) by {
                if t@.subrange(0, 4) == signature@ {
                    assert(t@.subrange(0, 4)[0] == t@[0]);
                    assert(t@.subrange(0, 4)[1] == t@[1]);
                    assert(t@.subrange(0, 4)[2] == t@[2]);
                    assert(t@.subrange(0, 4)[3] == t@[3]);
                }
            }
        }
    }
    r
}

/// Find the table with `signature` among those the root table lists.
///
/// `tables[i]` holds the bytes at the `i`-th address of the root table, as
/// far as that table's header says it extends. The answer is the index of
/// the first one with the signature and a valid checksum; `None` when there
/// is none, or when the root table's own signature or checksum is wrong.
pub fn find_table_in_rsdt(rsdt: &[u8], signature: &[u8; 4], tables: &Vec<Vec<u8>>) -> (r: Option<usize>)
    requires
        rsdt@.len() >= 36,
        le32(rsdt@, 4) <= rsdt@.len(),
        rsdt_ok(rsdt@) ==> le32(rsdt@, 4) >= 36 && tables@.len() == rsdt_entry_count(le32(rsdt@, 4)),
        forall|i: int| 0 <= i < tables@.len() ==> (#[trigger] tables@[i])@.len() >= 36 ==> le32(
            tables@[i]@,
            4,
        ) <= tables@[i]@.len(),
    ensures
        !rsdt_ok(rsdt@) ==> r is None,
        rsdt_ok(rsdt@) ==> match r {
            Some(i) => i < tables@.len() && table_ok(tables@[i as int]@, signature@) && forall|j: int|
                0 <= j < i ==> !table_ok(#[trigger] tables@[j]@, signature@),
            None => forall|j: int| 0 <= j < tables@.len() ==> !table_ok(#[trigger] tables@[j]@, signature@),
        },
{
    let length = read_u32_le(rsdt, 4);
    if !signature_matches(rsdt, &RSDT_SIGNATURE) {
        return None;
    }
    if !verify_sdt_checksum(rsdt, length) {
        return None;
    }
    let mut i: usize = 0;
    while i < tables.len()
        invariant
            rsdt_ok(rsdt@),
            i <= tables@.len(),
            forall|j: int| 0 <= j < tables@.len() ==> (#[trigger] tables@[j])@.len() >= 36 ==> le32(
                tables@[j]@,
                4,
            ) <= tables@[j]@.len(),
            forall|j: int| 0 <= j < i ==> !table_ok(#[trigger] tables@[j]@, signature@),
        decreases tables@.len() - i,
    {
        let t: &[u8] = tables[i].as_slice();
        if t.len() >= SDT_HEADER_SIZE {
            if signature_matches(t, signature) {
                let len = read_u32_le(t, 4);
                if verify_sdt_checksum(t, len) {
                    return Some(i);
                }
            }
        }
        i = i + 1;
    }
    None
}

} // verus!
