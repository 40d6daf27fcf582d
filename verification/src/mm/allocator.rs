//! Kernel heap allocator: a free list of blocks whose headers live in the
//! heap memory itself.
//!
//! The heap's bytes are held by the allocator, so the headers it writes and
//! reads are part of its state: a header is 40 bytes (size, free flag,
//! magic, previous and next block) at the block's start. Where a pointer
//! read from the heap leads outside it, the allocator stops following it.

use vstd::prelude::*;
use crate::bytes::{le64, read_u64_le};
use crate::arch::amd64::mm::page_tables::PAGE_SIZE;

verus! {

/// Default heap size (16 MiB).
pub const DEFAULT_HEAP_SIZE: usize = 0x100_0000;

/// Size of a block header.
pub const HEADER_SIZE: usize = 40;

/// Smallest block: a header.
pub const MIN_BLOCK_SIZE: usize = 40;

/// Alignment of block headers.
pub const BLOCK_ALIGN: usize = 8;

/// Magic value of a block header.
pub const BLOCK_MAGIC: u64 = 0xDEAD_BEEF_CAFE_BABE;

/// Offsets of the header fields.
pub const OFF_SIZE: usize = 0;
pub const OFF_FREE: usize = 8;
pub const OFF_MAGIC: usize = 16;
pub const OFF_PREV: usize = 24;
pub const OFF_NEXT: usize = 32;

/// Byte `k` (0 to 7) of `v`, least significant first.
pub open spec fn byte_of(v: u64, k: int) -> u8 {
    (v >> ((8 * k) as u64)) as u8
}

/// `m` with the little-endian encoding of `v` at `o`.
pub open spec fn put64(m: Seq<u8>, o: int, v: u64) -> Seq<u8> {
    Seq::new(m.len(), |i: int| if o <= i < o + 8 { byte_of(v, i - o) } else { m[i] })
}

/// `m` with byte `b` at `o`.
pub open spec fn put8(m: Seq<u8>, o: int, b: u8) -> Seq<u8> {
    m.update(o, b)
}

/// The little-endian value at `o`, as a `u64`.
#[verifier::opaque]
pub open spec fn get64(m: Seq<u8>, o: int) -> u64 {
    le64(m, o) as u64
}

proof fn lemma_le64_bytes(v: u64)
    ensures
        byte_of(v, 0) + byte_of(v, 1) * 256 + (byte_of(v, 2) + byte_of(v, 3) * 256) * 65536 + (byte_of(v, 4)
            + byte_of(v, 5) * 256 + (byte_of(v, 6) + byte_of(v, 7) * 256) * 65536) * 0x1_0000_0000 == v,
{
    assert(((v >> 0u64) as u8) + ((v >> 8u64) as u8) * 256 + (((v >> 16u64) as u8) + ((v >> 24u64) as u8)
        * 256) * 65536 + (((v >> 32u64) as u8) + ((v >> 40u64) as u8) * 256 + (((v >> 48u64) as u8) + ((v
        >> 56u64) as u8) * 256) * 65536) * 0x1_0000_0000 == v) by (bit_vector);
}

/// Reading back a value written at `o` gives it; values at offsets whose
/// 8 bytes do not meet the written ones are unchanged.
proof fn lemma_put64_get(m: Seq<u8>, o: int, v: u64, o2: int)
    requires
        0 <= o,
        o + 8 <= m.len(),
        0 <= o2,
        o2 + 8 <= m.len(),
    ensures
        get64(put64(m, o, v), o) == v,
        (o2 + 8 <= o || o + 8 <= o2) ==> get64(put64(m, o, v), o2) == get64(m, o2),
{
    reveal(get64);
    lemma_le64_bytes(v);
    let n = put64(m, o, v);
    assert(n[o] == byte_of(v, 0));
    assert(n[o + 1] == byte_of(v, 1));
    assert(n[o + 2] == byte_of(v, 2));
    assert(n[o + 3] == byte_of(v, 3));
    assert(n[o + 4] == byte_of(v, 4));
    assert(n[o + 5] == byte_of(v, 5));
    assert(n[o + 6] == byte_of(v, 6));
    assert(n[o + 7] == byte_of(v, 7));
    assert(le64(n, o) == v);
    if o2 + 8 <= o || o + 8 <= o2 {
        assert(n[o2] == m[o2] && n[o2 + 1] == m[o2 + 1] && n[o2 + 2] == m[o2 + 2] && n[o2 + 3] == m[o2 + 3]);
        assert(n[o2 + 4] == m[o2 + 4] && n[o2 + 5] == m[o2 + 5] && n[o2 + 6] == m[o2 + 6] && n[o2 + 7] == m[o2 + 7]);
    }
}

/// Writing one byte outside the 8 bytes at `o2` leaves the value there.
proof fn lemma_put8_get(m: Seq<u8>, o: int, b: u8, o2: int)
    requires
        0 <= o < m.len(),
        0 <= o2,
        o2 + 8 <= m.len(),
        o < o2 || o2 + 8 <= o,
    ensures
        get64(put8(m, o, b), o2) == get64(m, o2),
{
    reveal(get64);
    let n = put8(m, o, b);
    assert(n[o2] == m[o2] && n[o2 + 1] == m[o2 + 1] && n[o2 + 2] == m[o2 + 2] && n[o2 + 3] == m[o2 + 3]);
    assert(n[o2 + 4] == m[o2 + 4] && n[o2 + 5] == m[o2 + 5] && n[o2 + 6] == m[o2 + 6] && n[o2 + 7] == m[o2 + 7]);
}

/// The fields of a header just written at `o`.
proof fn lemma_fresh_header(m: Seq<u8>, o: int, size: u64, free: bool)
    requires
        0 <= o,
        o + 40 <= m.len(),
    ensures
        put_header(m, o, size, free).len() == m.len(),
        get64(put_header(m, o, size, free), o) == size,
        put_header(m, o, size, free)[o + 8] == (if free { 1u8 } else { 0u8 }),
        get64(put_header(m, o, size, free), o + 16) == BLOCK_MAGIC,
        get64(put_header(m, o, size, free), o + 24) == 0,
        get64(put_header(m, o, size, free), o + 32) == 0,
{
    let f: u8 = if free { 1u8 } else { 0u8 };
    let a = put64(m, o, size);
    let b = put8(a, o + 8, f);
    let c = put64(b, o + 16, BLOCK_MAGIC);
    let d = put64(c, o + 24, 0);
    let e = put64(d, o + 32, 0);
    lemma_put64_get(m, o, size, o);
    lemma_put8_get(a, o + 8, f, o);
    lemma_put64_get(b, o + 16, BLOCK_MAGIC, o);
    lemma_put64_get(c, o + 24, 0, o);
    lemma_put64_get(d, o + 32, 0, o);
    lemma_put64_get(b, o + 16, BLOCK_MAGIC, o + 16);
    lemma_put64_get(c, o + 24, 0, o + 16);
    lemma_put64_get(d, o + 32, 0, o + 16);
    lemma_put64_get(c, o + 24, 0, o + 24);
    lemma_put64_get(d, o + 32, 0, o + 24);
    lemma_put64_get(d, o + 32, 0, o + 32);
}

fn write_u64(heap: &mut Vec<u8>, o: usize, v: u64)
    requires
        o + 8 <= old(heap)@.len(),
    ensures
        final(heap)@ == put64(old(heap)@, o as int, v),
{
    let ghost m = heap@;
    assert(heap@.len() == heap.len());
    #[verifier::truncate]
    let b0 = (v >> 0u64) as u8;
    #[verifier::truncate]
    let b1 = (v >> 8u64) as u8;
    #[verifier::truncate]
    let b2 = (v >> 16u64) as u8;
    #[verifier::truncate]
    let b3 = (v >> 24u64) as u8;
    #[verifier::truncate]
    let b4 = (v >> 32u64) as u8;
    #[verifier::truncate]
    let b5 = (v >> 40u64) as u8;
    #[verifier::truncate]
    let b6 = (v >> 48u64) as u8;
    #[verifier::truncate]
    let b7 = (v >> 56u64) as u8;
    heap.set(o, b0);
    heap.set(o + 1, b1);
    heap.set(o + 2, b2);
    heap.set(o + 3, b3);
    heap.set(o + 4, b4);
    heap.set(o + 5, b5);
    heap.set(o + 6, b6);
    heap.set(o + 7, b7);
    assert(heap@ =~= put64(m, o as int, v));
}

/// The 40 header bytes at address `a` lie in the heap of `m` from `s`.
pub open spec fn hdr_in(m: Seq<u8>, s: int, a: int) -> bool {
    s <= a && a - s + 40 <= m.len()
}

/// Size field of the header at `a`.
pub open spec fn fsize(m: Seq<u8>, s: int, a: int) -> u64 {
    get64(m, a - s)
}

/// Free flag of the header at `a`.
pub open spec fn ffree(m: Seq<u8>, s: int, a: int) -> bool {
    m[a - s + 8] != 0
}

/// Magic field of the header at `a`.
pub open spec fn fmagic(m: Seq<u8>, s: int, a: int) -> u64 {
    get64(m, a - s + 16)
}

/// Previous-block field of the header at `a`.
pub open spec fn fprev(m: Seq<u8>, s: int, a: int) -> usize {
    get64(m, a - s + 24) as usize
}

/// Next-block field of the header at `a`.
pub open spec fn fnext(m: Seq<u8>, s: int, a: int) -> usize {
    get64(m, a - s + 32) as usize
}

/// `m` with a fresh header at offset `o`: `size`, free, the magic value,
/// no neighbours.
pub open spec fn put_header(m: Seq<u8>, o: int, size: u64, free: bool) -> Seq<u8> {
    put64(
        put64(put64(put8(put64(m, o, size), o + 8, if free { 1u8 } else { 0u8 }), o + 16, BLOCK_MAGIC), o + 24, 0),
        o + 32,
        0,
    )
}

/// Following next fields from `cur` reaches null, or a block outside the
/// heap, within `n` steps.
pub open spec fn free_walk_ends(m: Seq<u8>, s: int, cur: int, n: nat) -> bool
    decreases n,
{
    n > 0 && (cur == 0 || !hdr_in(m, s, cur) || free_walk_ends(m, s, fnext(m, s, cur) as int, (n - 1) as nat))
}

/// `x` rounded up to a multiple of `a` (a power of two) by masking.
pub open spec fn align_mask(x: usize, a: usize) -> usize {
    ((x + a - 1) as usize) & !((a - 1) as usize)
}

/// Where the payload of a request of `size` bytes aligned to `align`
/// starts in the block at `cur`.
pub open spec fn aligned_payload(cur: usize, align: usize) -> usize {
    align_mask((cur + 40) as usize, if align < 8 { 8usize } else { align })
}

/// The block at `cur` can serve `size` bytes aligned to `align`: valid,
/// free, large enough for header, padding and payload, and within the heap
/// (a block whose size reaches past the heap's end is passed over).
pub open spec fn block_fits(m: Seq<u8>, s: int, cur: usize, size: usize, align: usize) -> bool {
    &&& fmagic(m, s, cur as int) == BLOCK_MAGIC
    &&& ffree(m, s, cur as int)
    &&& fsize(m, s, cur as int) >= size + 40
    &&& fsize(m, s, cur as int) >= (aligned_payload(cur, align) - cur) + size
    &&& cur - s + fsize(m, s, cur as int) <= m.len()
}

/// Result of searching the free list.
pub enum Search {
    /// No block serves the request.
    NotFound,
    /// The block at `cur`, reached from `prev` (0 at the head), serves it.
    Found { cur: usize, prev: usize },
}

/// Search the free list from `cur` (reached from `prev`) for the first
/// block that serves the request; the search stops at null or at a block
/// outside the heap.
pub open spec fn alloc_search(
    m: Seq<u8>,
    s: int,
    cur: usize,
    prev: usize,
    size: usize,
    align: usize,
    n: nat,
) -> Search
    decreases n,
{
    if n == 0 || cur == 0 || !hdr_in(m, s, cur as int) {
        Search::NotFound
    } else if block_fits(m, s, cur, size, align) {
        Search::Found { cur, prev }
    } else {
        alloc_search(m, s, fnext(m, s, cur as int), cur, size, align, (n - 1) as nat)
    }
}

/// Heap bytes and free list after taking the block at `cur` (reached from
/// `prev`) for `size` bytes at `aligned`: the block is marked in use and
/// unlinked; the room left after the payload, if it holds a header, becomes
/// a free block at the head of the list.
#[verifier::opaque]
pub open spec fn alloc_apply(
    m: Seq<u8>,
    s: int,
    fl: usize,
    cur: usize,
    prev: usize,
    aligned: usize,
    size: usize,
) -> (Seq<u8>, usize) {
    let oc = cur - s;
    let sz = fsize(m, s, cur as int);
    let offset = aligned - cur;
    let m1 = put8(m, oc + 8, 0u8);
    let next1 = fnext(m1, s, cur as int);
    let m2 = if prev != 0 { put64(m1, prev - s + 32, next1 as u64) } else { m1 };
    let fl2 = if prev != 0 { fl } else { next1 };
    let n3 = fnext(m2, s, cur as int);
    let m3 = if n3 != 0 && hdr_in(m2, s, n3 as int) {
        put64(m2, n3 - s + 24, fprev(m2, s, cur as int) as u64)
    } else {
        m2
    };
    let m5 = put64(put64(m3, oc + 24, 0), oc + 32, 0);
    let remaining = sz - offset - size;
    let nb = cur + offset + size;
    if remaining >= 40 && hdr_in(m5, s, nb) {
        let m6 = put64(put64(put_header(m5, nb - s, remaining as u64, true), nb - s + 24, 0), nb - s + 32, fl2 as u64);
        let m7 = if fl2 != 0 && hdr_in(m6, s, fl2 as int) { put64(m6, fl2 - s + 24, nb as u64) } else { m6 };
        (m7, nb as usize)
    } else {
        (m5, fl2)
    }
}

/// A linked-list heap allocator.
pub struct LinkedListAllocator {
    free_list: usize,
    heap_start: usize,
    heap_size: usize,
    initialized: bool,
    heap: Vec<u8>,
}

impl LinkedListAllocator {
    /// The heap bytes.
    pub closed spec fn mem(&self) -> Seq<u8> {
        self.heap@
    }

    /// Address of the first free block (0 for none).
    pub closed spec fn head(&self) -> usize {
        self.free_list
    }

    /// Start of the heap.
    pub closed spec fn start(&self) -> usize {
        self.heap_start
    }

    /// Size of the heap.
    pub closed spec fn len(&self) -> usize {
        self.heap_size
    }

    /// Whether `init` was called.
    pub closed spec fn ready(&self) -> bool {
        self.initialized
    }

    /// The bytes cover the heap, which fits in the address space.
    pub closed spec fn wf(&self) -> bool {
        &&& self.heap@.len() == self.heap_size
        &&& self.heap_start + self.heap_size <= usize::MAX
    }

    /// Following the free list from its head ends.
    pub open spec fn list_ends(&self) -> bool {
        exists|n: nat| free_walk_ends(self.mem(), self.start() as int, self.head() as int, n)
    }

    /// Walking the blocks in address order from the heap's start ends.
    pub open spec fn blocks_end(&self) -> bool {
        exists|n: nat|
            chain_ends(self.mem(), self.start() as int, heap_end(self.start() as int, self.len() as int), self.start(), n)
    }

    /// Bytes in blocks in use, over the blocks in address order.
    pub open spec fn used_total(&self) -> int {
        used_bytes(
            self.mem(),
            self.start() as int,
            heap_end(self.start() as int, self.len() as int),
            self.start(),
            choose|n: nat|
                chain_ends(self.mem(), self.start() as int, heap_end(self.start() as int, self.len() as int), self.start(), n),
        )
    }

    /// Bytes in valid free blocks, over the free list.
    pub open spec fn free_total(&self) -> int {
        free_bytes(
            self.mem(),
            self.start() as int,
            self.head(),
            choose|n: nat| free_walk_ends(self.mem(), self.start() as int, self.head() as int, n),
        )
    }

    /// An allocator with no heap.
    pub fn new() -> (a: LinkedListAllocator)
        ensures
            a.wf(),
            !a.ready(),
            a.head() == 0 && a.start() == 0 && a.len() == 0,
    {
        LinkedListAllocator { free_list: 0, heap_start: 0, heap_size: 0, initialized: false, heap: Vec::new() }
    }

    fn hdr_ok(&self, a: usize) -> (r: bool)
        requires
            self.wf(),
        ensures
            r == hdr_in(self.heap@, self.heap_start as int, a as int),
    {
        a >= self.heap_start && a - self.heap_start <= self.heap_size && self.heap_size - (a
            - self.heap_start) >= HEADER_SIZE
    }

    fn rd64(&self, a: usize, field: usize) -> (r: u64)
        requires
            self.wf(),
            hdr_in(self.heap@, self.heap_start as int, a as int),
            field <= 32,
        ensures
            r == get64(self.heap@, a - self.heap_start + field),
    {
        proof {
            reveal(get64);
        }
        read_u64_le(self.heap.as_slice(), a - self.heap_start + field)
    }

    fn rd_free(&self, a: usize) -> (r: bool)
        requires
            self.wf(),
            hdr_in(self.heap@, self.heap_start as int, a as int),
        ensures
            r == ffree(self.heap@, self.heap_start as int, a as int),
    {
        self.heap[a - self.heap_start + OFF_FREE] != 0
    }

    fn wr64(&mut self, a: usize, field: usize, v: u64)
        requires
            old(self).wf(),
            hdr_in(old(self).heap@, old(self).heap_start as int, a as int),
            field <= 32,
        ensures
            final(self).wf(),
            final(self).heap@ == put64(old(self).heap@, a - old(self).heap_start + field, v),
            final(self).free_list == old(self).free_list,
            final(self).heap_start == old(self).heap_start,
            final(self).heap_size == old(self).heap_size,
            final(self).initialized == old(self).initialized,
    {
        let o = a - self.heap_start + field;
        write_u64(&mut self.heap, o, v);
    }

    fn wr_free(&mut self, a: usize, free: bool)
        requires
            old(self).wf(),
            hdr_in(old(self).heap@, old(self).heap_start as int, a as int),
        ensures
            final(self).wf(),
            final(self).heap@ == put8(old(self).heap@, a - old(self).heap_start + 8, if free {
                1u8
            } else {
                0u8
            }),
            final(self).free_list == old(self).free_list,
            final(self).heap_start == old(self).heap_start,
            final(self).heap_size == old(self).heap_size,
            final(self).initialized == old(self).initialized,
    {
        let o = a - self.heap_start + OFF_FREE;
        self.heap.set(o, if free { 1 } else { 0 });
    }

    fn wr_header(&mut self, a: usize, size: u64, free: bool)
        requires
            old(self).wf(),
            hdr_in(old(self).heap@, old(self).heap_start as int, a as int),
        ensures
            final(self).wf(),
            final(self).heap@ == put_header(old(self).heap@, a - old(self).heap_start, size, free),
            final(self).free_list == old(self).free_list,
            final(self).heap_start == old(self).heap_start,
            final(self).heap_size == old(self).heap_size,
            final(self).initialized == old(self).initialized,
    {
        self.wr64(a, OFF_SIZE, size);
        self.wr_free(a, free);
        self.wr64(a, OFF_MAGIC, BLOCK_MAGIC);
        self.wr64(a, OFF_PREV, 0);
        self.wr64(a, OFF_NEXT, 0);
    }

    /// Take over the heap `[heap_start, heap_start + heap_size)` as one
    /// free block.
    pub fn init(&mut self, heap_start: usize, heap_size: usize)
        requires
            heap_size >= 40,
            heap_start + heap_size <= usize::MAX,
        ensures
            final(self).wf(),
            final(self).ready(),
            final(self).start() == heap_start && final(self).len() == heap_size,
            final(self).head() == heap_start,
            final(self).mem() == put_header(Seq::new(heap_size as nat, |i: int| 0u8), 0, heap_size as u64, true),
            final(self).list_ends(),
            final(self).blocks_end(),
            final(self).used_total() == 0,
            heap_start != 0 ==> final(self).free_total() == heap_size,
    {
        self.heap_start = heap_start;
        self.heap_size = heap_size;
        self.initialized = true;
        self.heap = vec![0u8; heap_size];
        assert(self.heap@ =~= Seq::new(heap_size as nat, |i: int| 0u8));
        self.wr_header(heap_start, heap_size as u64, true);
        self.free_list = heap_start;
        proof {
            let m = self.heap@;
            let s = heap_start as int;
            let e = heap_end(s, heap_size as int);
            lemma_fresh_header(Seq::new(heap_size as nat, |i: int| 0u8), 0, heap_size as u64, true);
            assert(fnext(m, s, s) == 0);
            assert(free_walk_ends(m, s, 0, 1));
            assert(free_walk_ends(m, s, s, 2));
            assert(chain_ends(m, s, e, heap_start, 1));
            let n1 = choose|n: nat| chain_ends(m, s, e, heap_start, n);
            assert(used_bytes(m, s, e, heap_start, n1) == 0);
            let n2 = choose|n: nat| free_walk_ends(m, s, s, n);
            if heap_start != 0 {
                assert(free_bytes(m, s, 0, (n2 - 1) as nat) == 0);
                assert(free_bytes(m, s, heap_start, n2) == heap_size);
            }
        }
    }
}

/// Heap bytes, free list and returned address of an allocation of `size`
/// bytes aligned to `align`, for a heap `m` from `s` with free list `fl`:
/// null and no change when not initialized, when `size` is zero or when no
/// block serves it; else the first block that serves it is taken as
/// `alloc_apply` says, and the payload address returned.
pub open spec fn alloc_outcome(
    m: Seq<u8>,
    s: int,
    fl: usize,
    ready: bool,
    size: usize,
    align: usize,
) -> (Seq<u8>, usize, usize) {
    if !ready || size == 0 {
        (m, fl, 0)
    } else {
        match alloc_search(m, s, fl, 0, size, align, choose|n: nat| free_walk_ends(m, s, fl as int, n)) {
            Search::NotFound => (m, fl, 0),
            Search::Found { cur, prev } => {
                let r = alloc_apply(m, s, fl, cur, prev, aligned_payload(cur, align), size);
                (r.0, r.1, aligned_payload(cur, align))
            },
        }
    }
}

/// A freshly initialised heap at a non-null address serves a request of
/// `size` bytes aligned to `align` exactly when its one block holds the
/// header, the padding and the payload; the payload then starts at the
/// first aligned address past the header.
pub proof fn lemma_fresh_heap_serves(s: usize, len: usize, size: usize, align: usize)
    requires
        s != 0,
        len >= 40,
        s + len <= usize::MAX,
        size != 0,
    ensures
        ({
            let m = put_header(Seq::new(len as nat, |i: int| 0u8), 0, len as u64, true);
            let fits = len >= size + 40 && len >= (aligned_payload(s, align) - s) + size;
            alloc_outcome(m, s as int, s, true, size, align).2 == (if fits {
                aligned_payload(s, align)
            } else {
                0
            })
        }),
{
    let m = put_header(Seq::new(len as nat, |i: int| 0u8), 0, len as u64, true);
    lemma_fresh_header(Seq::new(len as nat, |i: int| 0u8), 0, len as u64, true);
    let n = choose|n: nat| free_walk_ends(m, s as int, s as int, n);
    assert(free_walk_ends(m, s as int, 0, 1));
    assert(free_walk_ends(m, s as int, s as int, 2));
    assert(fnext(m, s as int, s as int) == 0);
    assert(alloc_search(m, s as int, 0, s, size, align, (n - 1) as nat) is NotFound);
}

proof fn lemma_mask_bounds(y: usize, k: usize)
    ensures
        y & !k <= y,
        y - (y & !k) <= k,
        (y & !k) & k == 0,
{
    assert(y & !k <= y && y - (y & !k) <= k) by (bit_vector);
    assert((y & !k) & k == 0) by (bit_vector);
}

/// The alignment that a request for `align` gets: at least 8.
pub open spec fn actual_align(align: usize) -> usize {
    if align < 8 {
        8
    } else {
        align
    }
}

impl LinkedListAllocator {
    /// Allocate `size` bytes aligned to `align` (at least 8): the address
    /// of the payload, or 0 (null) when none can be had.
    #[verifier::rlimit(60)]
    pub fn allocate(&mut self, size: usize, align: usize) -> (r: usize)
        requires
            old(self).wf(),
            old(self).ready() && size != 0 ==> old(self).list_ends(),
            old(self).start() + old(self).len() + size + align + 80 <= usize::MAX,
        ensures
            final(self).wf(),
            final(self).start() == old(self).start() && final(self).len() == old(self).len(),
            final(self).ready() == old(self).ready(),
            r != 0 ==> r & ((actual_align(align) - 1) as usize) == 0,
            r != 0 ==> old(self).start() + 40 <= r && r + size <= old(self).start() + old(self).len(),
            (final(self).mem(), final(self).head(), r) == alloc_outcome(
                old(self).mem(),
                old(self).start() as int,
                old(self).head(),
                old(self).ready(),
                size,
                align,
            ),
    {
        if !self.initialized || size == 0 {
            return 0;
        }
        let ghost m = self.heap@;
        let ghost s = self.heap_start as int;
        let ghost fl = self.free_list;
        let ghost len0 = self.heap_size;
        let ghost n0 = choose|n: nat| free_walk_ends(m, s, fl as int, n);
        let ghost mut k: nat = n0;
        let mut current = self.free_list;
        let mut prev: usize = 0;
        while current != 0
            invariant
                self.wf(),
                self.heap@ == m,
                self.free_list == fl,
                self.heap_start == s,
                self.heap_size == len0,
                self.initialized,
                m == old(self).heap@,
                fl == old(self).free_list,
                s == old(self).heap_start,
                len0 == old(self).heap_size,
                old(self).initialized,
                size != 0,
                self.heap_start + self.heap_size + size + align + 80 <= usize::MAX,
                n0 == choose|n: nat| free_walk_ends(m, s, fl as int, n),
                free_walk_ends(m, s, current as int, k),
                alloc_search(m, s, fl, 0, size, align, n0) == alloc_search(m, s, current, prev, size, align, k),
                prev == 0 || hdr_in(m, s, prev as int),
            decreases k,
        {
            if !self.hdr_ok(current) {
                return 0;
            }
            let next_c = #[verifier::truncate] (self.rd64(current, OFF_NEXT) as usize);
            match self.fit_at(current, size, align) {
                Some((aligned_start, remaining)) => {
                    self.take_block(current, prev, aligned_start, size, remaining);
                    return aligned_start;
                },
                None => {},
            }
            proof {
                assert(!block_fits(m, s, current, size, align));
                k = (k - 1) as nat;
            }
            prev = current;
            current = next_c;
        }
        0
    }

    /// Where the payload of the request would start in the block at `cur`
    /// and the room left after it, if that block serves the request.
    fn fit_at(&self, cur: usize, size: usize, align: usize) -> (r: Option<(usize, u64)>)
        requires
            self.wf(),
            hdr_in(self.heap@, self.heap_start as int, cur as int),
            self.heap_start + self.heap_size + size + align + 80 <= usize::MAX,
        ensures
            r is Some <==> block_fits(self.heap@, self.heap_start as int, cur, size, align),
            r matches Some((a, rem)) ==> {
                &&& a == aligned_payload(cur, align)
                &&& a & ((actual_align(align) - 1) as usize) == 0
                &&& cur + 40 <= a
                &&& a + size <= self.heap_start + self.heap_size
                &&& rem == fsize(self.heap@, self.heap_start as int, cur as int) - (a - cur) - size
            },
    {
        let size_c = self.rd64(cur, OFF_SIZE);
        let free_c = self.rd_free(cur);
        let magic_c = self.rd64(cur, OFF_MAGIC);
        let actual_align = if align < BLOCK_ALIGN { BLOCK_ALIGN } else { align };
        if magic_c != BLOCK_MAGIC || !free_c || size_c < (size + HEADER_SIZE) as u64 {
            return None;
        }
        let payload_start = cur + HEADER_SIZE;
        let aligned_start = (payload_start + actual_align - 1) & !(actual_align - 1);
        proof {
            lemma_mask_bounds((payload_start + actual_align - 1) as usize, (actual_align - 1) as usize);
        }
        let offset = aligned_start - cur;
        if size_c < (offset + size) as u64 {
            return None;
        }
        if size_c > (self.heap_size - (cur - self.heap_start)) as u64 {
            return None;
        }
        Some((aligned_start, size_c - offset as u64 - size as u64))
    }

    /// Mark the block at `cur` in use, unlink it, and free the room left
    /// after the payload as a new block at the head of the list.
    fn take_block(&mut self, cur: usize, prev: usize, aligned: usize, size: usize, remaining: u64)
        requires
            old(self).wf(),
            hdr_in(old(self).heap@, old(self).heap_start as int, cur as int),
            prev == 0 || hdr_in(old(self).heap@, old(self).heap_start as int, prev as int),
            cur < aligned,
            aligned + size <= usize::MAX,
            remaining == fsize(old(self).heap@, old(self).heap_start as int, cur as int) - (aligned - cur) - size,
        ensures
            final(self).wf(),
            final(self).heap_start == old(self).heap_start,
            final(self).heap_size == old(self).heap_size,
            final(self).initialized == old(self).initialized,
            (final(self).heap@, final(self).free_list) == alloc_apply(
                old(self).heap@,
                old(self).heap_start as int,
                old(self).free_list,
                cur,
                prev,
                aligned,
                size,
            ),
    {
        let ghost m = self.heap@;
        let ghost s = self.heap_start as int;
        proof {
            reveal(alloc_apply);
        }
        self.wr_free(cur, false);
        #[verifier::truncate]
        let next1 = self.rd64(cur, OFF_NEXT) as usize;
        if prev != 0 {
            self.wr64(prev, OFF_NEXT, next1 as u64);
        } else {
            self.free_list = next1;
        }
        #[verifier::truncate]
        let n3 = self.rd64(cur, OFF_NEXT) as usize;
        if n3 != 0 && self.hdr_ok(n3) {
            let p = self.rd64(cur, OFF_PREV);
            #[verifier::truncate]
            let pv = p as usize;
            self.wr64(n3, OFF_PREV, pv as u64);
        }
        self.wr64(cur, OFF_PREV, 0);
        self.wr64(cur, OFF_NEXT, 0);
        let nb = aligned + size;
        if remaining >= MIN_BLOCK_SIZE as u64 && self.hdr_ok(nb) {
            self.wr_header(nb, remaining, true);
            self.wr64(nb, OFF_PREV, 0);
            let fl2 = self.free_list;
            self.wr64(nb, OFF_NEXT, fl2 as u64);
            if fl2 != 0 && self.hdr_ok(fl2) {
                self.wr64(fl2, OFF_PREV, nb as u64);
            }
            self.free_list = nb;
        }
    }
}


/// First address past a heap from `s` of `len` bytes.
pub open spec fn heap_end(s: int, len: int) -> int {
    s + len
}

/// The block at `b` is valid: its header lies in the heap and carries the
/// magic value.
pub open spec fn valid_at(m: Seq<u8>, s: int, b: int) -> bool {
    hdr_in(m, s, b) && fmagic(m, s, b) == BLOCK_MAGIC
}

/// `ptr` falls in the block at `b`: at its payload start, or past it and
/// before the block's end.
pub open spec fn covers(m: Seq<u8>, s: int, b: int, ptr: int) -> bool {
    ptr == b + 40 || (b + 40 < ptr && ptr < b + fsize(m, s, b))
}

/// The block after the one at `b`, in address order.
pub open spec fn next_block(m: Seq<u8>, s: int, b: usize) -> usize {
    (b + fsize(m, s, b as int)) as usize
}

/// The walk over the blocks in address order from `b` stops within `n`
/// steps: at the heap's end, at an invalid block, or at a block that
/// reaches the end.
pub open spec fn chain_ends(m: Seq<u8>, s: int, end: int, b: usize, n: nat) -> bool
    decreases n,
{
    n > 0 && (b >= end || !valid_at(m, s, b as int) || b + fsize(m, s, b as int) >= end || chain_ends(
        m,
        s,
        end,
        next_block(m, s, b),
        (n - 1) as nat,
    ))
}

/// Like `chain_ends`, also stopping at the block that holds `ptr`.
pub open spec fn find_ends(m: Seq<u8>, s: int, end: int, b: usize, ptr: usize, n: nat) -> bool
    decreases n,
{
    n > 0 && (b >= end || !valid_at(m, s, b as int) || covers(m, s, b as int, ptr as int) || b + fsize(
        m,
        s,
        b as int,
    ) >= end || find_ends(m, s, end, next_block(m, s, b), ptr, (n - 1) as nat))
}

/// The block that holds `ptr`, searched in address order from `b`.
pub open spec fn find_block(m: Seq<u8>, s: int, end: int, b: usize, ptr: usize, n: nat) -> Option<usize>
    decreases n,
{
    if n == 0 || b >= end || !valid_at(m, s, b as int) {
        None
    } else if covers(m, s, b as int, ptr as int) {
        Some(b)
    } else if b + fsize(m, s, b as int) >= end {
        None
    } else {
        find_block(m, s, end, next_block(m, s, b), ptr, (n - 1) as nat)
    }
}

/// The block at `b` is marked free; the block its next field names, if
/// valid and free, is absorbed: sizes added, its successor taken over.
#[verifier::opaque]
pub open spec fn mem_merge_next(m: Seq<u8>, s: int, b: usize) -> Seq<u8> {
    let o = b - s;
    let m1 = put8(m, o + 8, 1u8);
    let nx = fnext(m1, s, b as int);
    if nx != 0 && valid_at(m1, s, nx as int) && ffree(m1, s, nx as int) {
        let m2 = put64(m1, o, (fsize(m1, s, b as int) + fsize(m1, s, nx as int)) as u64);
        let m3 = put64(m2, o + 32, get64(m2, nx - s + 32));
        let nn = fnext(m3, s, nx as int);
        if nn != 0 && hdr_in(m3, s, nn as int) {
            put64(m3, nn - s + 24, b as u64)
        } else {
            m3
        }
    } else {
        m1
    }
}

/// The merge with the next block adds no more than a size field holds.
pub open spec fn merge_next_fits(m: Seq<u8>, s: int, b: usize) -> bool {
    let m1 = put8(m, b - s + 8, 1u8);
    let nx = fnext(m1, s, b as int);
    (nx != 0 && valid_at(m1, s, nx as int) && ffree(m1, s, nx as int)) ==> fsize(m1, s, b as int) + fsize(
        m1,
        s,
        nx as int,
    ) <= u64::MAX
}

/// The scan from `pb` for the free block that ends where `b` starts stops
/// within `n` steps.
pub open spec fn scan_ends(m: Seq<u8>, s: int, pb: usize, b: usize, n: nat) -> bool
    decreases n,
{
    n > 0 && (pb >= b || !valid_at(m, s, pb as int) || pb + fsize(m, s, pb as int) >= b || scan_ends(
        m,
        s,
        next_block(m, s, pb),
        b,
        (n - 1) as nat,
    ))
}

/// The free block that ends where `b` starts, scanned in address order
/// from `pb`; the scan stops at an invalid block or once past `b`.
pub open spec fn scan_prev(m: Seq<u8>, s: int, pb: usize, b: usize, n: nat) -> Option<usize>
    decreases n,
{
    if n == 0 || pb >= b || !valid_at(m, s, pb as int) {
        None
    } else if pb + fsize(m, s, pb as int) == b && ffree(m, s, pb as int) {
        Some(pb)
    } else if pb + fsize(m, s, pb as int) >= b {
        None
    } else {
        scan_prev(m, s, next_block(m, s, pb), b, (n - 1) as nat)
    }
}

/// The block at `pb` absorbs the block at `b`.
#[verifier::opaque]
pub open spec fn mem_merge_prev(m: Seq<u8>, s: int, pb: usize, b: usize) -> Seq<u8> {
    let m4 = put64(m, pb - s, (fsize(m, s, pb as int) + fsize(m, s, b as int)) as u64);
    let m5 = put64(m4, pb - s + 32, get64(m4, b - s + 32));
    let n = fnext(m5, s, b as int);
    if n != 0 && hdr_in(m5, s, n as int) {
        put64(m5, n - s + 24, pb as u64)
    } else {
        m5
    }
}

/// Heap bytes and free list after putting the block at `blk` at the head
/// of the free list `fl`.
#[verifier::opaque]
pub open spec fn mem_push_free(m: Seq<u8>, s: int, fl: usize, blk: usize) -> (Seq<u8>, usize) {
    let m6 = put64(m, blk - s + 32, fl as u64);
    let m7 = put64(m6, blk - s + 24, 0);
    if fl != 0 && hdr_in(m7, s, fl as int) {
        (put64(m7, fl - s + 24, blk as u64), blk)
    } else {
        (m7, blk)
    }
}

/// The block found for `ptr` in a heap `m` from `st` of `len` bytes.
pub open spec fn dealloc_target(m: Seq<u8>, st: usize, len: int, ptr: usize) -> Option<usize> {
    find_block(m, st as int, heap_end(st as int, len), st, ptr, choose|n: nat| find_ends(m, st as int, heap_end(st as int, len), st, ptr, n))
}

/// The block that the freed block at `b` is merged into, if any, in the
/// heap `m3` after the merge with its next block.
pub open spec fn dealloc_prev(m3: Seq<u8>, st: usize, b: usize) -> Option<usize> {
    scan_prev(m3, st as int, st, b, choose|n: nat| scan_ends(m3, st as int, st, b, n))
}

/// Freeing `ptr` returns: the searches end, and no merge overflows a size.
pub open spec fn dealloc_returns(m: Seq<u8>, st: usize, len: int, ready: bool, ptr: usize) -> bool {
    !ready || ptr == 0 || {
        &&& exists|n: nat| find_ends(m, st as int, heap_end(st as int, len), st, ptr, n)
        &&& match dealloc_target(m, st, len, ptr) {
            None => true,
            Some(b) => {
                let m3 = mem_merge_next(m, st as int, b);
                &&& merge_next_fits(m, st as int, b)
                &&& exists|n: nat| scan_ends(m3, st as int, st, b, n)
                &&& match dealloc_prev(m3, st, b) {
                    None => true,
                    Some(pb) => fsize(m3, st as int, pb as int) + fsize(m3, st as int, b as int) <= u64::MAX,
                }
            },
        }
    }
}

/// Heap bytes and free list after freeing `ptr`: no change when not
/// initialized, for null, or when no block holds `ptr`; else the block is
/// marked free, merged with a free next block and into a free block that
/// ends where it starts, and put at the head of the free list.
pub open spec fn dealloc_outcome(m: Seq<u8>, st: usize, len: int, fl: usize, ready: bool, ptr: usize) -> (
    Seq<u8>,
    usize,
) {
    if !ready || ptr == 0 {
        (m, fl)
    } else {
        match dealloc_target(m, st, len, ptr) {
            None => (m, fl),
            Some(b) => {
                let m3 = mem_merge_next(m, st as int, b);
                match dealloc_prev(m3, st, b) {
                    None => mem_push_free(m3, st as int, fl, b),
                    Some(pb) => mem_push_free(mem_merge_prev(m3, st as int, pb, b), st as int, fl, pb),
                }
            },
        }
    }
}

/// Bytes in blocks in use, over the blocks in address order from `b`.
pub open spec fn used_bytes(m: Seq<u8>, s: int, end: int, b: usize, n: nat) -> int
    decreases n,
{
    if n == 0 || b >= end || !valid_at(m, s, b as int) {
        0
    } else {
        (if ffree(m, s, b as int) {
            0
        } else {
            fsize(m, s, b as int) as int
        }) + (if b + fsize(m, s, b as int) >= end {
            0
        } else {
            used_bytes(m, s, end, next_block(m, s, b), (n - 1) as nat)
        })
    }
}

/// Bytes in valid free blocks, over the free list from `cur`.
pub open spec fn free_bytes(m: Seq<u8>, s: int, cur: usize, n: nat) -> int
    decreases n,
{
    if n == 0 || cur == 0 || !hdr_in(m, s, cur as int) {
        0
    } else {
        (if fmagic(m, s, cur as int) == BLOCK_MAGIC && ffree(m, s, cur as int) {
            fsize(m, s, cur as int) as int
        } else {
            0
        }) + free_bytes(m, s, fnext(m, s, cur as int), (n - 1) as nat)
    }
}

proof fn lemma_used_bytes_nonneg(m: Seq<u8>, s: int, end: int, b: usize, n: nat)
    ensures
        used_bytes(m, s, end, b, n) >= 0,
    decreases n,
{
    if n > 0 && b < end && valid_at(m, s, b as int) && b + fsize(m, s, b as int) < end {
        lemma_used_bytes_nonneg(m, s, end, next_block(m, s, b), (n - 1) as nat);
    }
}

proof fn lemma_free_bytes_nonneg(m: Seq<u8>, s: int, cur: usize, n: nat)
    ensures
        free_bytes(m, s, cur, n) >= 0,
    decreases n,
{
    if n > 0 && cur != 0 && hdr_in(m, s, cur as int) {
        lemma_free_bytes_nonneg(m, s, fnext(m, s, cur as int), (n - 1) as nat);
    }
}

impl LinkedListAllocator {
    fn valid(&self, a: usize) -> (r: bool)
        requires
            self.wf(),
        ensures
            r == valid_at(self.heap@, self.heap_start as int, a as int),
    {
        self.hdr_ok(a) && self.rd64(a, OFF_MAGIC) == BLOCK_MAGIC
    }

    /// The block, in address order from the heap's start, that holds `ptr`.
    fn find_block_of(&self, ptr: usize) -> (r: Option<usize>)
        requires
            self.wf(),
            exists|n: nat|
                find_ends(
                    self.heap@,
                    self.heap_start as int,
                    heap_end(self.heap_start as int, self.heap_size as int),
                    self.heap_start,
                    ptr,
                    n,
                ),
        ensures
            r == dealloc_target(self.heap@, self.heap_start, self.heap_size as int, ptr),
            r matches Some(b) ==> hdr_in(self.heap@, self.heap_start as int, b as int),
    {
        let ghost m = self.heap@;
        let ghost s = self.heap_start as int;
        let end = self.heap_start + self.heap_size;
        let ghost n0 = choose|n: nat| find_ends(m, s, heap_end(s, self.heap_size as int), self.heap_start, ptr, n);
        let ghost mut k: nat = n0;
        let mut block = self.heap_start;
        while block < end
            invariant
                self.wf(),
                self.heap@ == m,
                self.heap_start == s,
                end == self.heap_start + self.heap_size,
                n0 == choose|n: nat| find_ends(m, s, heap_end(s, self.heap_size as int), self.heap_start, ptr, n),
                end == heap_end(s, self.heap_size as int),
                find_ends(m, s, end as int, block, ptr, k),
                find_block(m, s, end as int, self.heap_start, ptr, n0) == find_block(m, s, end as int, block, ptr, k),
            decreases k,
        {
            if !self.valid(block) {
                return None;
            }
            let size_b = self.rd64(block, OFF_SIZE);
            if ptr == block + HEADER_SIZE || (block + HEADER_SIZE < ptr && ((ptr - block) as u64) < size_b) {
                return Some(block);
            }
            if size_b >= (end - block) as u64 {
                return None;
            }
            proof {
                k = (k - 1) as nat;
            }
            block = block + size_b as usize;
        }
        None
    }

    /// Mark the block at `b` free and absorb its next block if that one is
    /// valid and free.
    fn merge_with_next(&mut self, b: usize)
        requires
            old(self).wf(),
            hdr_in(old(self).heap@, old(self).heap_start as int, b as int),
            merge_next_fits(old(self).heap@, old(self).heap_start as int, b),
        ensures
            final(self).wf(),
            final(self).free_list == old(self).free_list,
            final(self).heap_start == old(self).heap_start,
            final(self).heap_size == old(self).heap_size,
            final(self).initialized == old(self).initialized,
            final(self).heap@ == mem_merge_next(old(self).heap@, old(self).heap_start as int, b),
    {
        proof {
            reveal(mem_merge_next);
        }
        self.wr_free(b, true);
        let nx = #[verifier::truncate] (self.rd64(b, OFF_NEXT) as usize);
        if nx != 0 && self.valid(nx) && self.rd_free(nx) {
            let sb = self.rd64(b, OFF_SIZE);
            let sn = self.rd64(nx, OFF_SIZE);
            self.wr64(b, OFF_SIZE, sb + sn);
            let nnv = self.rd64(nx, OFF_NEXT);
            self.wr64(b, OFF_NEXT, nnv);
            let nn = #[verifier::truncate] (self.rd64(nx, OFF_NEXT) as usize);
            if nn != 0 && self.hdr_ok(nn) {
                self.wr64(nn, OFF_PREV, b as u64);
            }
        }
    }

    /// The free block that ends where the block at `b` starts, scanned in
    /// address order from the heap's start.
    fn find_prev_free(&self, b: usize) -> (r: Option<usize>)
        requires
            self.wf(),
            exists|n: nat| scan_ends(self.heap@, self.heap_start as int, self.heap_start, b, n),
        ensures
            r == dealloc_prev(self.heap@, self.heap_start, b),
            r matches Some(pb) ==> hdr_in(self.heap@, self.heap_start as int, pb as int),
    {
        let ghost m = self.heap@;
        let ghost s = self.heap_start as int;
        let ghost n0 = choose|n: nat| scan_ends(m, s, self.heap_start, b, n);
        let ghost mut k: nat = n0;
        let mut pb = self.heap_start;
        while pb < b
            invariant
                self.wf(),
                self.heap@ == m,
                self.heap_start == s,
                n0 == choose|n: nat| scan_ends(m, s, self.heap_start, b, n),
                scan_ends(m, s, pb, b, k),
                scan_prev(m, s, self.heap_start, b, n0) == scan_prev(m, s, pb, b, k),
            decreases k,
        {
            if !self.valid(pb) {
                return None;
            }
            let size_p = self.rd64(pb, OFF_SIZE);
            if size_p >= (b - pb) as u64 {
                if size_p == (b - pb) as u64 && self.rd_free(pb) {
                    return Some(pb);
                }
                return None;
            }
            proof {
                k = (k - 1) as nat;
            }
            pb = pb + size_p as usize;
        }
        None
    }

    /// The block at `pb` absorbs the block at `b`.
    fn merge_into_prev(&mut self, pb: usize, b: usize)
        requires
            old(self).wf(),
            hdr_in(old(self).heap@, old(self).heap_start as int, pb as int),
            hdr_in(old(self).heap@, old(self).heap_start as int, b as int),
            fsize(old(self).heap@, old(self).heap_start as int, pb as int) + fsize(
                old(self).heap@,
                old(self).heap_start as int,
                b as int,
            ) <= u64::MAX,
        ensures
            final(self).wf(),
            final(self).free_list == old(self).free_list,
            final(self).heap_start == old(self).heap_start,
            final(self).heap_size == old(self).heap_size,
            final(self).initialized == old(self).initialized,
            final(self).heap@ == mem_merge_prev(old(self).heap@, old(self).heap_start as int, pb, b),
    {
        proof {
            reveal(mem_merge_prev);
        }
        let sp = self.rd64(pb, OFF_SIZE);
        let sb = self.rd64(b, OFF_SIZE);
        self.wr64(pb, OFF_SIZE, sp + sb);
        let nv = self.rd64(b, OFF_NEXT);
        self.wr64(pb, OFF_NEXT, nv);
        let n = #[verifier::truncate] (self.rd64(b, OFF_NEXT) as usize);
        if n != 0 && self.hdr_ok(n) {
            self.wr64(n, OFF_PREV, pb as u64);
        }
    }

    /// Put the block at `blk` at the head of the free list.
    fn push_free(&mut self, blk: usize)
        requires
            old(self).wf(),
            hdr_in(old(self).heap@, old(self).heap_start as int, blk as int),
        ensures
            final(self).wf(),
            final(self).heap_start == old(self).heap_start,
            final(self).heap_size == old(self).heap_size,
            final(self).initialized == old(self).initialized,
            (final(self).heap@, final(self).free_list) == mem_push_free(
                old(self).heap@,
                old(self).heap_start as int,
                old(self).free_list,
                blk,
            ),
    {
        proof {
            reveal(mem_push_free);
        }
        let fl = self.free_list;
        self.wr64(blk, OFF_NEXT, fl as u64);
        self.wr64(blk, OFF_PREV, 0);
        if fl != 0 && self.hdr_ok(fl) {
            self.wr64(fl, OFF_PREV, blk as u64);
        }
        self.free_list = blk;
    }

    /// Free the allocation at `ptr`. The block that holds it is found by
    /// walking the blocks in address order; it is marked free, merged with
    /// free neighbours, and put at the head of the free list. `size` and
    /// `align` are not used.
    pub fn deallocate(&mut self, ptr: usize, size: usize, align: usize)
        requires
            old(self).wf(),
            dealloc_returns(old(self).mem(), old(self).start(), old(self).len() as int, old(self).ready(), ptr),
        ensures
            final(self).wf(),
            final(self).start() == old(self).start() && final(self).len() == old(self).len(),
            final(self).ready() == old(self).ready(),
            (final(self).mem(), final(self).head()) == dealloc_outcome(
                old(self).mem(),
                old(self).start(),
                old(self).len() as int,
                old(self).head(),
                old(self).ready(),
                ptr,
            ),
    {
        if !self.initialized || ptr == 0 {
            return;
        }
        match self.find_block_of(ptr) {
            None => {},
            Some(b) => {
                self.merge_with_next(b);
                match self.find_prev_free(b) {
                    None => {
                        self.push_free(b);
                    },
                    Some(pb) => {
                        self.merge_into_prev(pb, b);
                        self.push_free(pb);
                    },
                }
            },
        }
    }

    /// Bytes in blocks in use, walking the blocks in address order.
    pub fn usage(&self) -> (r: usize)
        requires
            self.wf(),
            self.ready() ==> self.blocks_end() && self.used_total() <= usize::MAX,
        ensures
            r == (if self.ready() { self.used_total() } else { 0 }),
    {
        if !self.initialized {
            return 0;
        }
        let ghost m = self.heap@;
        let ghost s = self.heap_start as int;
        let end = self.heap_start + self.heap_size;
        let ghost n0 = choose|n: nat| chain_ends(m, s, heap_end(s, self.heap_size as int), self.heap_start, n);
        let ghost total = used_bytes(m, s, end as int, self.heap_start, n0);
        let ghost mut k: nat = n0;
        let mut used: usize = 0;
        let mut block = self.heap_start;
        while block < end
            invariant_except_break
                used + used_bytes(m, s, end as int, block, k) == total,
            invariant
                self.wf(),
                self.heap@ == m,
                self.heap_start == s,
                end == self.heap_start + self.heap_size,
                n0 == choose|n: nat| chain_ends(m, s, heap_end(s, self.heap_size as int), self.heap_start, n),
                total == used_bytes(m, s, end as int, self.heap_start, n0),
                chain_ends(m, s, end as int, block, k),
                total <= usize::MAX,
            ensures
                used == total,
            decreases k,
        {
            if !self.valid(block) {
                break;
            }
            let size_b = self.rd64(block, OFF_SIZE);
            proof {
                if block + size_b < end {
                    lemma_used_bytes_nonneg(m, s, end as int, next_block(m, s, block), (k - 1) as nat);
                }
            }
            if !self.rd_free(block) {
                used = used + size_b as usize;
            }
            if size_b >= (end - block) as u64 {
                break;
            }
            proof {
                k = (k - 1) as nat;
            }
            block = block + size_b as usize;
        }
        used
    }

    /// Total size of the heap.
    pub fn size(&self) -> (r: usize)
        ensures
            r == self.len(),
    {
        self.heap_size
    }

    /// Bytes in valid free blocks, walking the free list.
    pub fn available(&self) -> (r: usize)
        requires
            self.wf(),
            self.ready() ==> self.list_ends() && self.free_total() <= usize::MAX,
        ensures
            r == (if self.ready() { self.free_total() } else { 0 }),
    {
        if !self.initialized {
            return 0;
        }
        let ghost m = self.heap@;
        let ghost s = self.heap_start as int;
        let ghost n0 = choose|n: nat| free_walk_ends(m, s, self.free_list as int, n);
        let ghost total = free_bytes(m, s, self.free_list, n0);
        let ghost mut k: nat = n0;
        let mut sum: usize = 0;
        let mut current = self.free_list;
        while current != 0
            invariant_except_break
                sum + free_bytes(m, s, current, k) == total,
            invariant
                self.wf(),
                self.heap@ == m,
                self.heap_start == s,
                n0 == choose|n: nat| free_walk_ends(m, s, self.free_list as int, n),
                total == free_bytes(m, s, self.free_list, n0),
                free_walk_ends(m, s, current as int, k),
                total <= usize::MAX,
            ensures
                sum == total,
            decreases k,
        {
            if !self.hdr_ok(current) {
                break;
            }
            proof {
                lemma_free_bytes_nonneg(m, s, fnext(m, s, current as int), (k - 1) as nat);
            }
            if self.rd64(current, OFF_MAGIC) == BLOCK_MAGIC && self.rd_free(current) {
                let sz = self.rd64(current, OFF_SIZE);
                sum = sum + sz as usize;
            }
            proof {
                k = (k - 1) as nat;
            }
            current = #[verifier::truncate] (self.rd64(current, OFF_NEXT) as usize);
        }
        sum
    }
}

/// `addr` rounded up to a page boundary.
fn align_page_up(addr: usize) -> (r: usize)
    requires
        addr + PAGE_SIZE - 1 <= usize::MAX,
    ensures
        r % 4096 == 0,
        addr <= r < addr + 4096,
{
    let page_mask: usize = PAGE_SIZE - 1;
    let y = addr + page_mask;
    assert((y & !4095usize) % 4096 == 0 && y & !4095usize <= y && y - (y & !4095usize) <= 4095) by (bit_vector);
    y & !page_mask
}

/// Take over the heap `[heap_start, heap_start + heap_size)` in `allocator`.
pub fn init(allocator: &mut LinkedListAllocator, heap_start: usize, heap_size: usize)
    requires
        heap_size >= 40,
        heap_start + heap_size <= usize::MAX,
    ensures
        final(allocator).wf(),
        final(allocator).ready(),
        final(allocator).start() == heap_start && final(allocator).len() == heap_size,
        final(allocator).head() == heap_start,
        final(allocator).mem() == put_header(Seq::new(heap_size as nat, |i: int| 0u8), 0, heap_size as u64, true),
        final(allocator).list_ends(),
        final(allocator).blocks_end(),
        final(allocator).used_total() == 0,
        heap_start != 0 ==> final(allocator).free_total() == heap_size,
{
    allocator.init(heap_start, heap_size);
}

/// Take over a heap of `size` bytes (rounded up to whole pages) from
/// `start_addr` rounded up to a page boundary; returns the heap's start.
pub fn init_aligned(allocator: &mut LinkedListAllocator, start_addr: usize, size: usize) -> (r: usize)
    requires
        size > 0,
        start_addr + size + 2 * PAGE_SIZE <= usize::MAX,
    ensures
        r % 4096 == 0,
        start_addr <= r < start_addr + 4096,
        final(allocator).wf(),
        final(allocator).ready(),
        final(allocator).start() == r,
        final(allocator).len() % 4096 == 0,
        size <= final(allocator).len() < size + 4096,
        final(allocator).head() == r,
        final(allocator).mem() == put_header(
            Seq::new(final(allocator).len() as nat, |i: int| 0u8),
            0,
            final(allocator).len() as u64,
            true,
        ),
        final(allocator).list_ends(),
        final(allocator).blocks_end(),
        final(allocator).used_total() == 0,
        r != 0 ==> final(allocator).free_total() == final(allocator).len(),
{
    let aligned_start = align_page_up(start_addr);
    let aligned_size = align_page_up(size);
    init(allocator, aligned_start, aligned_size);
    aligned_start
}

/// Allocate `size` bytes aligned to `align` from `allocator`.
pub fn allocate(allocator: &mut LinkedListAllocator, size: usize, align: usize) -> (r: usize)
    requires
        old(allocator).wf(),
        old(allocator).ready() && size != 0 ==> old(allocator).list_ends(),
        old(allocator).start() + old(allocator).len() + size + align + 80 <= usize::MAX,
    ensures
        final(allocator).wf(),
        final(allocator).start() == old(allocator).start() && final(allocator).len() == old(allocator).len(),
        final(allocator).ready() == old(allocator).ready(),
        r != 0 ==> r & ((actual_align(align) - 1) as usize) == 0,
        r != 0 ==> old(allocator).start() + 40 <= r && r + size <= old(allocator).start() + old(
            allocator,
        ).len(),
        (final(allocator).mem(), final(allocator).head(), r) == alloc_outcome(
            old(allocator).mem(),
            old(allocator).start() as int,
            old(allocator).head(),
            old(allocator).ready(),
            size,
            align,
        ),
{
    allocator.allocate(size, align)
}

/// Free the allocation at `ptr` in `allocator`.
pub fn deallocate(allocator: &mut LinkedListAllocator, ptr: usize, size: usize, align: usize)
    requires
        old(allocator).wf(),
        dealloc_returns(
            old(allocator).mem(),
            old(allocator).start(),
            old(allocator).len() as int,
            old(allocator).ready(),
            ptr,
        ),
    ensures
        final(allocator).wf(),
        final(allocator).start() == old(allocator).start() && final(allocator).len() == old(allocator).len(),
        final(allocator).ready() == old(allocator).ready(),
        (final(allocator).mem(), final(allocator).head()) == dealloc_outcome(
            old(allocator).mem(),
            old(allocator).start(),
            old(allocator).len() as int,
            old(allocator).head(),
            old(allocator).ready(),
            ptr,
        ),
{
    allocator.deallocate(ptr, size, align)
}

/// Bytes in use in `allocator`'s heap.
pub fn heap_usage(allocator: &LinkedListAllocator) -> (r: usize)
    requires
        allocator.wf(),
        allocator.ready() ==> allocator.blocks_end() && allocator.used_total() <= usize::MAX,
    ensures
        r == (if allocator.ready() { allocator.used_total() } else { 0 }),
{
    allocator.usage()
}

/// Total size of `allocator`'s heap.
pub fn heap_size(allocator: &LinkedListAllocator) -> (r: usize)
    ensures
        r == allocator.len(),
{
    allocator.size()
}

/// Bytes available in `allocator`'s free blocks.
pub fn heap_available(allocator: &LinkedListAllocator) -> (r: usize)
    requires
        allocator.wf(),
        allocator.ready() ==> allocator.list_ends() && allocator.free_total() <= usize::MAX,
    ensures
        r == (if allocator.ready() { allocator.free_total() } else { 0 }),
{
    allocator.available()
}

/// Writing a header at `o` leaves the value at a disjoint `o2`, and every
/// byte outside the header, as they were.
proof fn lemma_put_header_frame(m: Seq<u8>, o: int, size: u64, free: bool, o2: int)
    requires
        0 <= o,
        o + 40 <= m.len(),
        0 <= o2,
        o2 + 8 <= m.len(),
        o2 + 8 <= o || o + 40 <= o2,
    ensures
        put_header(m, o, size, free).len() == m.len(),
        get64(put_header(m, o, size, free), o2) == get64(m, o2),
        forall|i: int| 0 <= i < m.len() && (i < o || o + 40 <= i) ==> put_header(m, o, size, free)[i] == m[i],
{
    let f: u8 = if free { 1u8 } else { 0u8 };
    let a = put64(m, o, size);
    let b = put8(a, o + 8, f);
    let c = put64(b, o + 16, BLOCK_MAGIC);
    let d = put64(c, o + 24, 0);
    lemma_put64_get(m, o, size, o2);
    lemma_put8_get(a, o + 8, f, o2);
    lemma_put64_get(b, o + 16, BLOCK_MAGIC, o2);
    lemma_put64_get(c, o + 24, 0, o2);
    lemma_put64_get(d, o + 32, 0, o2);
}

/// Law: on a freshly initialised heap at a non-null address, an allocation
/// of a request the heap can serve leaves at least the requested bytes in
/// use; freeing it then returns, and leaves no bytes in use.
pub proof fn lemma_fresh_alloc_then_free_unused(s: usize, len: usize, size: usize, align: usize)
    requires
        s != 0,
        len >= 40,
        size != 0,
        s + len + size + align + 80 <= usize::MAX,
        len >= size + 40,
        len >= (aligned_payload(s, align) - s) + size,
    ensures
        ({
            let m0 = put_header(Seq::new(len as nat, |i: int| 0u8), 0, len as u64, true);
            let a = alloc_outcome(m0, s as int, s, true, size, align);
            let d = dealloc_outcome(a.0, s, len as int, a.1, true, a.2);
            let e = heap_end(s as int, len as int);
            &&& a.2 == aligned_payload(s, align)
            &&& exists|n: nat| chain_ends(a.0, s as int, e, s, n)
            &&& used_bytes(a.0, s as int, e, s, choose|n: nat| chain_ends(a.0, s as int, e, s, n)) >= size
            &&& dealloc_returns(a.0, s, len as int, true, a.2)
            &&& exists|n: nat| chain_ends(d.0, s as int, e, s, n)
            &&& used_bytes(d.0, s as int, e, s, choose|n: nat| chain_ends(d.0, s as int, e, s, n)) == 0
        }),
{
    let z = Seq::new(len as nat, |i: int| 0u8);
    let m0 = put_header(z, 0, len as u64, true);
    let si = s as int;
    let e = heap_end(si, len as int);
    lemma_fresh_heap_serves(s, len, size, align);
    lemma_fresh_header(z, 0, len as u64, true);
    let act = actual_align(align);
    let y = ((s + 40) + act - 1) as usize;
    lemma_mask_bounds(y, (act - 1) as usize);
    let pa = aligned_payload(s, align);
    assert(pa >= s + 40);
    // The allocation: the block at `s` is taken, the rest split off above it.
    let n0 = choose|n: nat| free_walk_ends(m0, si, si, n);
    assert(free_walk_ends(m0, si, 0, 1));
    assert(free_walk_ends(m0, si, si, 2));
    assert(block_fits(m0, si, s, size, align));
    assert(alloc_search(m0, si, s, 0, size, align, n0) == (Search::Found { cur: s, prev: 0 }));
    reveal(alloc_apply);
    let m1 = put8(m0, 8, 0u8);
    lemma_put8_get(m0, 8, 0u8, 0);
    lemma_put8_get(m0, 8, 0u8, 16);
    lemma_put8_get(m0, 8, 0u8, 32);
    assert(fnext(m1, si, si) == 0);
    let m5 = put64(put64(m1, 24, 0), 32, 0);
    lemma_put64_get(m1, 24, 0, 0);
    lemma_put64_get(m1, 24, 0, 16);
    lemma_put64_get(m1, 24, 0, 32);
    lemma_put64_get(put64(m1, 24, 0), 32, 0, 0);
    lemma_put64_get(put64(m1, 24, 0), 32, 0, 16);
    lemma_put64_get(put64(m1, 24, 0), 32, 0, 32);
    let offset = pa - s;
    let remaining = len - offset - size;
    let nb = s + offset + size;
    let r = alloc_apply(m0, si, s, s, 0, pa, size);
    assert(r.0 == alloc_outcome(m0, si, s, true, size, align).0 && r.1 == alloc_outcome(m0, si, s, true, size, align).1);
    let m1a = r.0;
    let fl1 = r.1;
    // What the block at `s` holds after the allocation.
    if remaining >= 40 && hdr_in(m5, si, nb) {
        let o = nb - si;
        let h = put_header(m5, o, remaining as u64, true);
        lemma_put_header_frame(m5, o, remaining as u64, true, 0);
        lemma_put_header_frame(m5, o, remaining as u64, true, 16);
        lemma_put_header_frame(m5, o, remaining as u64, true, 32);
        lemma_put64_get(h, o + 24, 0, 0);
        lemma_put64_get(h, o + 24, 0, 16);
        lemma_put64_get(h, o + 24, 0, 32);
        lemma_put64_get(put64(h, o + 24, 0), o + 32, 0, 0);
        lemma_put64_get(put64(h, o + 24, 0), o + 32, 0, 16);
        lemma_put64_get(put64(h, o + 24, 0), o + 32, 0, 32);
        assert(m1a[8] == 0u8);
        assert(fl1 == nb);
    } else {
        assert(fl1 == 0);
    }
    assert(fsize(m1a, si, si) == len);
    assert(fmagic(m1a, si, si) == BLOCK_MAGIC);
    assert(fnext(m1a, si, si) == 0);
    assert(m1a.len() == len);
    // In use after the allocation: the block at `s`, of the heap's size.
    assert(m1a[8] == 0u8);
    assert(!ffree(m1a, si, si));
    assert(chain_ends(m1a, si, e, s, 1));
    let na = choose|n: nat| chain_ends(m1a, si, e, s, n);
    assert(used_bytes(m1a, si, e, s, na) == len);
    // Freeing it: the block at `s` holds the payload.
    assert(covers(m1a, si, si, pa as int));
    assert(find_ends(m1a, si, e, s, pa, 1));
    let nf = choose|n: nat| find_ends(m1a, si, e, s, pa, n);
    assert(find_block(m1a, si, e, s, pa, nf) == Some(s));
    assert(dealloc_target(m1a, s, len as int, pa) == Some(s));
    reveal(mem_merge_next);
    let m3 = put8(m1a, 8, 1u8);
    lemma_put8_get(m1a, 8, 1u8, 32);
    assert(mem_merge_next(m1a, si, s) == m3);
    assert(merge_next_fits(m1a, si, s));
    assert(scan_ends(m3, si, s, s, 1));
    let ns = choose|n: nat| scan_ends(m3, si, s, s, n);
    assert(dealloc_prev(m3, s, s) is None);
    assert(dealloc_returns(m1a, s, len as int, true, pa));
    // The free list gets the block back; its size, flag and magic stay.
    reveal(mem_push_free);
    lemma_put8_get(m1a, 8, 1u8, 0);
    lemma_put8_get(m1a, 8, 1u8, 16);
    let m6 = put64(m3, 32, fl1 as u64);
    let m7 = put64(m6, 24, 0);
    lemma_put64_get(m3, 32, fl1 as u64, 0);
    lemma_put64_get(m3, 32, fl1 as u64, 16);
    lemma_put64_get(m6, 24, 0, 0);
    lemma_put64_get(m6, 24, 0, 16);
    let d = dealloc_outcome(m1a, s, len as int, fl1, true, pa);
    assert(d == mem_push_free(m3, si, fl1, s));
    if fl1 != 0 && hdr_in(m7, si, fl1 as int) {
        lemma_put64_get(m7, fl1 - si + 24, s as u64, 0);
        lemma_put64_get(m7, fl1 - si + 24, s as u64, 16);
    }
    let m2 = d.0;
    assert(fsize(m2, si, si) == len);
    assert(fmagic(m2, si, si) == BLOCK_MAGIC);
    assert(ffree(m2, si, si));
    assert(chain_ends(m2, si, e, s, 1));
    let nc = choose|n: nat| chain_ends(m2, si, e, s, n);
    assert(used_bytes(m2, si, e, s, nc) == 0);
}

impl LinkedListAllocator {
    /// Whether following the free list from its head ends, at null or at a
    /// block outside the heap, within `len() + 1` steps. When it does, the
    /// free list ends (`list_ends`), as `allocate` and `available` ask.
    pub fn free_list_ends(&self) -> (r: bool)
        requires
            self.wf(),
        ensures
            r == free_walk_ends(self.mem(), self.start() as int, self.head() as int, (self.len() + 1) as nat),
            r ==> self.list_ends(),
    {
        let ghost m = self.heap@;
        let ghost s = self.heap_start as int;
        let mut cur = self.free_list;
        let mut k: usize = self.heap_size;
        loop
            invariant
                self.wf(),
                self.heap@ == m,
                self.heap_start == s,
                free_walk_ends(m, s, self.free_list as int, (self.heap_size + 1) as nat) == free_walk_ends(
                    m,
                    s,
                    cur as int,
                    (k + 1) as nat,
                ),
            decreases k,
        {
            if cur == 0 || !self.hdr_ok(cur) {
                return true;
            }
            if k == 0 {
                assert(!free_walk_ends(m, s, fnext(m, s, cur as int) as int, 0));
                return false;
            }
            cur = #[verifier::truncate] (self.rd64(cur, OFF_NEXT) as usize);
            k = k - 1;
        }
    }

    /// Whether walking the blocks in address order from the heap's start
    /// ends within `len() + 1` steps. When it does, the walk ends
    /// (`blocks_end`), as `usage` asks.
    pub fn blocks_walk_ends(&self) -> (r: bool)
        requires
            self.wf(),
        ensures
            r == chain_ends(
                self.mem(),
                self.start() as int,
                heap_end(self.start() as int, self.len() as int),
                self.start(),
                (self.len() + 1) as nat,
            ),
            r ==> self.blocks_end(),
    {
        let ghost m = self.heap@;
        let ghost s = self.heap_start as int;
        let end = self.heap_start + self.heap_size;
        let mut block = self.heap_start;
        let mut k: usize = self.heap_size;
        loop
            invariant
                self.wf(),
                self.heap@ == m,
                self.heap_start == s,
                end == heap_end(s, self.heap_size as int),
                chain_ends(m, s, end as int, self.heap_start, (self.heap_size + 1) as nat) == chain_ends(
                    m,
                    s,
                    end as int,
                    block,
                    (k + 1) as nat,
                ),
            decreases k,
        {
            if block >= end || !self.valid(block) {
                return true;
            }
            let size_b = self.rd64(block, OFF_SIZE);
            if size_b >= (end - block) as u64 {
                return true;
            }
            if k == 0 {
                assert(!chain_ends(m, s, end as int, next_block(m, s, block), 0));
                return false;
            }
            block = block + size_b as usize;
            k = k - 1;
        }
    }
}

/// Law: on a freshly initialised heap at a non-null address, after an
/// allocation of a request the heap can serve the free list still ends,
/// and a second allocation, when it succeeds, lies wholly past the first
/// payload and the header after it: the two never overlap.
pub proof fn lemma_fresh_two_allocations(
    s: usize,
    len: usize,
    size: usize,
    align: usize,
    size2: usize,
    align2: usize,
)
    requires
        s != 0,
        len >= 40,
        size != 0,
        size2 != 0,
        s + len + size + align + 80 <= usize::MAX,
        s + len + size2 + align2 + 80 <= usize::MAX,
        len >= size + 40,
        len >= (aligned_payload(s, align) - s) + size,
    ensures
        ({
            let m0 = put_header(Seq::new(len as nat, |i: int| 0u8), 0, len as u64, true);
            let a = alloc_outcome(m0, s as int, s, true, size, align);
            let b = alloc_outcome(a.0, s as int, a.1, true, size2, align2);
            &&& exists|n: nat| free_walk_ends(a.0, s as int, a.1 as int, n)
            &&& b.2 != 0 ==> a.2 + size + 40 <= b.2
        }),
{
    let z = Seq::new(len as nat, |i: int| 0u8);
    let m0 = put_header(z, 0, len as u64, true);
    let si = s as int;
    lemma_fresh_heap_serves(s, len, size, align);
    lemma_fresh_header(z, 0, len as u64, true);
    let act = actual_align(align);
    lemma_mask_bounds(((s + 40) + act - 1) as usize, (act - 1) as usize);
    let pa = aligned_payload(s, align);
    let n0 = choose|n: nat| free_walk_ends(m0, si, si, n);
    assert(free_walk_ends(m0, si, 0, 1));
    assert(free_walk_ends(m0, si, si, 2));
    assert(block_fits(m0, si, s, size, align));
    assert(alloc_search(m0, si, s, 0, size, align, n0) == (Search::Found { cur: s, prev: 0 }));
    reveal(alloc_apply);
    let m1 = put8(m0, 8, 0u8);
    lemma_put8_get(m0, 8, 0u8, 32);
    assert(fnext(m1, si, si) == 0);
    let m5 = put64(put64(m1, 24, 0), 32, 0);
    let offset = pa - s;
    let remaining = len - offset - size;
    let nb = s + offset + size;
    let r = alloc_apply(m0, si, s, s, 0, pa, size);
    let a = alloc_outcome(m0, si, s, true, size, align);
    assert(r.0 == a.0 && r.1 == a.1 && a.2 == pa);
    let m1a = r.0;
    let fl1 = r.1;
    if remaining >= 40 && hdr_in(m5, si, nb) {
        let o = nb - si;
        let h = put_header(m5, o, remaining as u64, true);
        lemma_put_header_frame(m5, o, remaining as u64, true, 0);
        lemma_put64_get(put64(h, o + 24, 0), o + 32, 0, o + 32);
        assert(fl1 == nb);
        assert(m1a.len() == len);
        assert(hdr_in(m1a, si, nb as int));
        assert(fnext(m1a, si, nb as int) == 0);
        assert(free_walk_ends(m1a, si, 0, 1));
        assert(free_walk_ends(m1a, si, nb as int, 2));
        // The second search starts at the split block and goes no further.
        let n1 = choose|n: nat| free_walk_ends(m1a, si, fl1 as int, n);
        assert(n1 >= 1);
        let act2 = actual_align(align2);
        lemma_mask_bounds(((nb + 40) + act2 - 1) as usize, (act2 - 1) as usize);
        if block_fits(m1a, si, fl1, size2, align2) {
            assert(alloc_search(m1a, si, fl1, 0, size2, align2, n1) == (Search::Found { cur: fl1, prev: 0 }));
        } else {
            assert(alloc_search(m1a, si, 0, fl1, size2, align2, (n1 - 1) as nat) is NotFound);
            assert(alloc_search(m1a, si, fl1, 0, size2, align2, n1) is NotFound);
        }
    } else {
        assert(fl1 == 0);
        assert(free_walk_ends(m1a, si, 0, 1));
        let n1 = choose|n: nat| free_walk_ends(m1a, si, fl1 as int, n);
        assert(alloc_search(m1a, si, fl1, 0, size2, align2, n1) is NotFound);
    }
}

} // verus!
