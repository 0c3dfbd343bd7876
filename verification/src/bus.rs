//! The memory bus: one contiguous DRAM region mapped at `DRAM_BASE`,
//! accessed byte by byte in little-endian order.

use vstd::prelude::*;

verus! {

/// Width of an address on the bus.
pub type BusSize = u64;

/// First address of the DRAM window, and the reset value of the program counter.
pub const DRAM_BASE: u64 = 0x8000_0000;

/// Whether the `k` bytes starting at `addr` all lie inside a DRAM of `len` bytes.
pub open spec fn in_window(len: nat, addr: u64, k: nat) -> bool {
    DRAM_BASE <= addr && addr - DRAM_BASE + k <= len
}

/// The address of the first byte that an access at `addr` finds outside a
/// DRAM of `len` bytes, for an access that does not lie inside it: `addr`
/// itself, or the end of the window where `addr` is still inside.
pub open spec fn first_unmapped(len: nat, addr: u64) -> u64 {
    if in_window(len, addr, 1) {
        ((DRAM_BASE + len) % 0x1_0000_0000_0000_0000) as u64
    } else {
        addr
    }
}

/// The little-endian value of the two bytes of `mem` at index `i`.
pub open spec fn le16(mem: Seq<u8>, i: int) -> nat {
    mem[i] as nat + 0x100 * (mem[i + 1] as nat)
}

/// The little-endian value of the four bytes of `mem` at index `i`.
pub open spec fn le32(mem: Seq<u8>, i: int) -> nat {
    le16(mem, i) + 0x1_0000 * le16(mem, i + 2)
}

/// The little-endian value of the eight bytes of `mem` at index `i`.
pub open spec fn le64(mem: Seq<u8>, i: int) -> nat {
    le32(mem, i) + 0x1_0000_0000 * le32(mem, i + 4)
}

/// The little-endian value of the `k` bytes of `mem` at index `i`, for `k` in 1, 2, 4, 8.
pub open spec fn read_le(mem: Seq<u8>, i: int, k: nat) -> nat {
    if k == 1 {
        mem[i] as nat
    } else if k == 2 {
        le16(mem, i)
    } else if k == 4 {
        le32(mem, i)
    } else {
        le64(mem, i)
    }
}

/// `mem` with the two bytes at index `i` replaced by the little-endian bytes of `v`.
pub open spec fn put16(mem: Seq<u8>, i: int, v: u16) -> Seq<u8> {
    mem.update(i, (v % 0x100) as u8).update(i + 1, (v / 0x100) as u8)
}

/// `mem` with the four bytes at index `i` replaced by the little-endian bytes of `v`.
pub open spec fn put32(mem: Seq<u8>, i: int, v: u32) -> Seq<u8> {
    put16(put16(mem, i, (v % 0x1_0000) as u16), i + 2, (v / 0x1_0000) as u16)
}

/// `mem` with the eight bytes at index `i` replaced by the little-endian bytes of `v`.
pub open spec fn put64(mem: Seq<u8>, i: int, v: u64) -> Seq<u8> {
    put32(put32(mem, i, (v % 0x1_0000_0000) as u32), i + 4, (v / 0x1_0000_0000) as u32)
}

/// Byte number `n` (0 is the least significant) of the value `v`.
pub open spec fn byte_of(v: nat, n: nat) -> nat {
    if n == 0 {
        v % 0x100
    } else if n == 1 {
        v / 0x100 % 0x100
    } else if n == 2 {
        v / 0x1_0000 % 0x100
    } else if n == 3 {
        v / 0x100_0000 % 0x100
    } else if n == 4 {
        v / 0x1_0000_0000 % 0x100
    } else if n == 5 {
        v / 0x100_0000_0000 % 0x100
    } else if n == 6 {
        v / 0x1_0000_0000_0000 % 0x100
    } else {
        v / 0x100_0000_0000_0000 % 0x100
    }
}

/// The initial part of `old_mem` overwritten by `code`, cut off at the end of the memory.
pub open spec fn with_code(old_mem: Seq<u8>, code: Seq<u8>) -> Seq<u8> {
    Seq::new(
        old_mem.len(),
        |i: int| if i < code.len() { code[i] } else { old_mem[i] },
    )
}

/// Byte-addressable memory that owns the DRAM region.
pub struct Bus {
    dram: Vec<u8>,
}

impl View for Bus {
    type V = Seq<u8>;

    /// The bytes of DRAM; index 0 is the byte at address `DRAM_BASE`.
    closed spec fn view(&self) -> Seq<u8> {
        self.dram@
    }
}

impl Default for Bus {
    /// A bus without any DRAM.
    fn default() -> (bus: Bus)
        ensures
            bus@.len() == 0,
    {
        Bus { dram: Vec::new() }
    }
}

impl Bus {
    /// Whether an access of `k` bytes at `addr` stays inside the DRAM window.
    pub open spec fn maps(&self, addr: u64, k: nat) -> bool {
        in_window(self@.len(), addr, k)
    }

    /// The DRAM is a vector, so its size fits in `usize`.
    pub proof fn lemma_size_fits(&self)
        ensures
            self@.len() <= usize::MAX,
    {
        assert(self.dram.len() == self.dram@.len());
    }

    /// A bus whose DRAM holds `dram_size` zero bytes.
    pub fn new(dram_size: usize) -> (bus: Bus)
        ensures
            bus@.len() == dram_size,
            forall|i: int| 0 <= i < dram_size ==> bus@[i] == 0,
    {
        Bus { dram: vec![0u8; dram_size] }
    }

    /// The number of bytes of DRAM.
    pub fn size(&self) -> (n: usize)
        ensures
            n == self@.len(),
    {
        self.dram.len()
    }

    /// Tells whether an access of `k` bytes at `addr` stays inside the DRAM window.
    pub fn is_mapped(&self, addr: BusSize, k: u8) -> (r: bool)
        ensures
            r == self.maps(addr, k as nat),
    {
        if addr < DRAM_BASE {
            return false;
        }
        let off: u64 = addr - DRAM_BASE;
        let len: usize = self.dram.len();
        if off > len as u64 {
            return false;
        }
        (len as u64) - off >= k as u64
    }

    /// Tells which byte keeps an access of `k` bytes at `addr` from being
    /// served: the first one outside the DRAM window, if there is one.
    pub fn unmapped_byte(&self, addr: BusSize, k: u8) -> (r: Option<u64>)
        ensures
            r == if self.maps(addr, k as nat) {
                None
            } else {
                Some(first_unmapped(self@.len(), addr))
            },
    {
        if self.is_mapped(addr, k) {
            None
        } else if self.is_mapped(addr, 1) {
            Some(DRAM_BASE.wrapping_add(self.dram.len() as u64))
        } else {
            Some(addr)
        }
    }

    /// Copies `value` to the start of DRAM; what does not fit is left out.
    pub fn load_code(&mut self, value: Vec<u8>)
        ensures
            final(self)@ == with_code(old(self)@, value@),
    {
        let n: usize = if value.len() < self.dram.len() {
            value.len()
        } else {
            self.dram.len()
        };
        let mut i: usize = 0;
        while i < n
            invariant
                i <= n,
                n <= value.len(),
                n <= self.dram.len(),
                self.dram.len() == old(self).dram.len(),
                forall|j: int| 0 <= j < i ==> self.dram@[j] == value@[j],
                forall|j: int| i <= j < self.dram.len() ==> self.dram@[j] == old(self).dram@[j],
            decreases n - i,
        {
            self.dram.set(i, value[i]);
            i += 1;
        }
        assert(self.dram@ =~= with_code(old(self).dram@, value@));
    }

    /// Reads the byte at `addr`.
    pub fn load8(&self, addr: BusSize) -> (value: u8)
        requires
            self.maps(addr, 1),
        ensures
            value == self@[addr - DRAM_BASE],
    {
        proof {
            self.lemma_size_fits();
        }
        self.dram[(addr - DRAM_BASE) as usize]
    }

    /// Reads two bytes at `addr`, least significant first.
    pub fn load16(&self, addr: BusSize) -> (value: u16)
        requires
            self.maps(addr, 2),
        ensures
            value == le16(self@, addr - DRAM_BASE),
    {
        proof {
            self.lemma_size_fits();
        }
        self.get16((addr - DRAM_BASE) as usize)
    }

    /// Reads four bytes at `addr`, least significant first.
    pub fn load32(&self, addr: BusSize) -> (value: u32)
        requires
            self.maps(addr, 4),
        ensures
            value == le32(self@, addr - DRAM_BASE),
    {
        proof {
            self.lemma_size_fits();
        }
        self.get32((addr - DRAM_BASE) as usize)
    }

    /// Reads eight bytes at `addr`, least significant first.
    pub fn load64(&self, addr: BusSize) -> (value: u64)
        requires
            self.maps(addr, 8),
        ensures
            value == le64(self@, addr - DRAM_BASE),
    {
        proof {
            self.lemma_size_fits();
        }
        let i: usize = (addr - DRAM_BASE) as usize;
        let lo: u64 = self.get32(i) as u64;
        let hi: u64 = self.get32(i + 4) as u64;
        lo + hi * 0x1_0000_0000
    }

    /// Writes one byte at `addr`.
    pub fn store8(&mut self, addr: BusSize, value: u8)
        requires
            old(self).maps(addr, 1),
        ensures
            final(self)@ == old(self)@.update(addr - DRAM_BASE, value),
    {
        proof {
            self.lemma_size_fits();
        }
        self.dram.set((addr - DRAM_BASE) as usize, value);
    }

    /// Writes the two bytes of `value` at `addr`, least significant first.
    pub fn store16(&mut self, addr: BusSize, value: u16)
        requires
            old(self).maps(addr, 2),
        ensures
            final(self)@ == put16(old(self)@, addr - DRAM_BASE, value),
    {
        proof {
            self.lemma_size_fits();
        }
        self.set16((addr - DRAM_BASE) as usize, value);
    }

    /// Writes the four bytes of `value` at `addr`, least significant first.
    pub fn store32(&mut self, addr: BusSize, value: u32)
        requires
            old(self).maps(addr, 4),
        ensures
            final(self)@ == put32(old(self)@, addr - DRAM_BASE, value),
    {
        proof {
            self.lemma_size_fits();
        }
        self.set32((addr - DRAM_BASE) as usize, value);
    }

    /// Writes the eight bytes of `value` at `addr`, least significant first.
    pub fn store64(&mut self, addr: BusSize, value: u64)
        requires
            old(self).maps(addr, 8),
        ensures
            final(self)@ == put64(old(self)@, addr - DRAM_BASE, value),
    {
        proof {
            self.lemma_size_fits();
        }
        let i: usize = (addr - DRAM_BASE) as usize;
        self.set32(i, (value % 0x1_0000_0000) as u32);
        self.set32(i + 4, (value / 0x1_0000_0000) as u32);
    }

    fn get16(&self, i: usize) -> (value: u16)
        requires
            i + 2 <= self@.len(),
        ensures
            value == le16(self@, i as int),
    {
        proof {
            self.lemma_size_fits();
        }
        let lo: u16 = self.dram[i] as u16;
        let hi: u16 = self.dram[i + 1] as u16;
        lo + hi * 0x100
    }

    fn get32(&self, i: usize) -> (value: u32)
        requires
            i + 4 <= self@.len(),
        ensures
            value == le32(self@, i as int),
    {
        proof {
            self.lemma_size_fits();
        }
        let lo: u32 = self.get16(i) as u32;
        let hi: u32 = self.get16(i + 2) as u32;
        lo + hi * 0x1_0000
    }

    fn set16(&mut self, i: usize, value: u16)
        requires
            i + 2 <= old(self)@.len(),
        ensures
            final(self)@ == put16(old(self)@, i as int, value),
    {
        proof {
            self.lemma_size_fits();
        }
        self.dram.set(i, (value % 0x100) as u8);
        self.dram.set(i + 1, (value / 0x100) as u8);
    }

    fn set32(&mut self, i: usize, value: u32)
        requires
            i + 4 <= old(self)@.len(),
        ensures
            final(self)@ == put32(old(self)@, i as int, value),
    {
        proof {
            self.lemma_size_fits();
        }
        self.set16(i, (value % 0x1_0000) as u16);
        self.set16(i + 2, (value / 0x1_0000) as u16);
    }
}

proof fn lemma_split_quad(v: u32, n: nat)
    requires
        n < 4,
    ensures
        byte_of(v as nat, n) == if n < 2 {
            byte_of((v % 0x1_0000) as nat, n)
        } else {
            byte_of((v / 0x1_0000) as nat, (n - 2) as nat)
        },
{
    let lo = (v % 0x1_0000) as nat;
    let hi = (v / 0x1_0000) as nat;
    assert(v == lo + 0x1_0000 * hi);
    lemma_bytes_of_quad(lo, hi, n);
}

proof fn lemma_split_octet(v: u64, n: nat)
    requires
        n < 8,
    ensures
        byte_of(v as nat, n) == if n < 4 {
            byte_of((v % 0x1_0000_0000) as nat, n)
        } else {
            byte_of((v / 0x1_0000_0000) as nat, (n - 4) as nat)
        },
{
    let lo = (v % 0x1_0000_0000) as nat;
    let hi = (v / 0x1_0000_0000) as nat;
    assert(v == lo + 0x1_0000_0000 * hi);
    lemma_bytes_of_octet(lo, hi, n);
}

/// What two bytes written at index `i` leave at index `j`.
pub proof fn lemma_put16_bytes(mem: Seq<u8>, i: int, v: u16, j: int)
    requires
        0 <= i,
        i + 2 <= mem.len(),
        0 <= j < mem.len(),
    ensures
        put16(mem, i, v).len() == mem.len(),
        put16(mem, i, v)[j] == if i <= j < i + 2 {
            byte_of(v as nat, (j - i) as nat) as u8
        } else {
            mem[j]
        },
{
}

/// What four bytes written at index `i` leave at index `j`.
pub proof fn lemma_put32_bytes(mem: Seq<u8>, i: int, v: u32, j: int)
    requires
        0 <= i,
        i + 4 <= mem.len(),
        0 <= j < mem.len(),
    ensures
        put32(mem, i, v).len() == mem.len(),
        put32(mem, i, v)[j] == if i <= j < i + 4 {
            byte_of(v as nat, (j - i) as nat) as u8
        } else {
            mem[j]
        },
{
    let lo = (v % 0x1_0000) as u16;
    let hi = (v / 0x1_0000) as u16;
    let m1 = put16(mem, i, lo);
    lemma_put16_bytes(mem, i, lo, j);
    lemma_put16_bytes(m1, i + 2, hi, j);
    if i <= j < i + 4 {
        lemma_split_quad(v, (j - i) as nat);
    }
}

/// What eight bytes written at index `i` leave at index `j`.
pub proof fn lemma_put64_bytes(mem: Seq<u8>, i: int, v: u64, j: int)
    requires
        0 <= i,
        i + 8 <= mem.len(),
        0 <= j < mem.len(),
    ensures
        put64(mem, i, v).len() == mem.len(),
        put64(mem, i, v)[j] == if i <= j < i + 8 {
            byte_of(v as nat, (j - i) as nat) as u8
        } else {
            mem[j]
        },
{
    let lo = (v % 0x1_0000_0000) as u32;
    let hi = (v / 0x1_0000_0000) as u32;
    let m1 = put32(mem, i, lo);
    lemma_put32_bytes(mem, i, lo, j);
    lemma_put32_bytes(m1, i + 4, hi, j);
    if i <= j < i + 8 {
        lemma_split_octet(v, (j - i) as nat);
    }
}

/// One byte written at an index reads back from it as the value written.
pub proof fn lemma_round_trip_8(mem: Seq<u8>, i: int, v: u8)
    requires
        0 <= i < mem.len(),
    ensures
        mem.update(i, v).len() == mem.len(),
        mem.update(i, v)[i] == v,
{
}

/// Two bytes written at an index read back from it as the value written.
pub proof fn lemma_round_trip_16(mem: Seq<u8>, i: int, v: u16)
    requires
        0 <= i,
        i + 2 <= mem.len(),
    ensures
        put16(mem, i, v).len() == mem.len(),
        le16(put16(mem, i, v), i) == v,
{
}

/// Four bytes written at an index read back from it as the value written.
pub proof fn lemma_round_trip_32(mem: Seq<u8>, i: int, v: u32)
    requires
        0 <= i,
        i + 4 <= mem.len(),
    ensures
        put32(mem, i, v).len() == mem.len(),
        le32(put32(mem, i, v), i) == v,
{
    let lo = (v % 0x1_0000) as u16;
    let hi = (v / 0x1_0000) as u16;
    let m1 = put16(mem, i, lo);
    let m2 = put16(m1, i + 2, hi);
    lemma_round_trip_16(mem, i, lo);
    lemma_round_trip_16(m1, i + 2, hi);
    lemma_put16_bytes(m1, i + 2, hi, i);
    lemma_put16_bytes(m1, i + 2, hi, i + 1);
    assert(le16(m2, i) == le16(m1, i));
}

/// Eight bytes written at an index read back from it as the value written.
pub proof fn lemma_round_trip_64(mem: Seq<u8>, i: int, v: u64)
    requires
        0 <= i,
        i + 8 <= mem.len(),
    ensures
        put64(mem, i, v).len() == mem.len(),
        le64(put64(mem, i, v), i) == v,
{
    let lo = (v % 0x1_0000_0000) as u32;
    let hi = (v / 0x1_0000_0000) as u32;
    let m1 = put32(mem, i, lo);
    let m2 = put32(m1, i + 4, hi);
    lemma_round_trip_32(mem, i, lo);
    lemma_round_trip_32(m1, i + 4, hi);
    lemma_put32_bytes(m1, i + 4, hi, i);
    lemma_put32_bytes(m1, i + 4, hi, i + 1);
    lemma_put32_bytes(m1, i + 4, hi, i + 2);
    lemma_put32_bytes(m1, i + 4, hi, i + 3);
    assert(le32(m2, i) == le32(m1, i));
}

proof fn lemma_bytes_of_pair(lo: nat, hi: nat, n: nat)
    requires
        lo < 0x100,
        hi < 0x100,
        n < 2,
    ensures
        byte_of(lo + 0x100 * hi, n) == if n == 0 { lo } else { hi },
{
}

proof fn lemma_bytes_of_quad(lo: nat, hi: nat, n: nat)
    requires
        lo < 0x1_0000,
        hi < 0x1_0000,
        n < 4,
    ensures
        byte_of(lo + 0x1_0000 * hi, n) == if n < 2 {
            byte_of(lo, n)
        } else {
            byte_of(hi, (n - 2) as nat)
        },
{
    let v = lo + 0x1_0000 * hi;
    assert(v / 0x1_0000 == hi);
    assert(v / 0x100 == lo / 0x100 + 0x100 * hi);
    assert(v / 0x100_0000 == hi / 0x100);
}

proof fn lemma_bytes_of_octet(lo: nat, hi: nat, n: nat)
    requires
        lo < 0x1_0000_0000,
        hi < 0x1_0000_0000,
        n < 8,
    ensures
        byte_of(lo + 0x1_0000_0000 * hi, n) == if n < 4 {
            byte_of(lo, n)
        } else {
            byte_of(hi, (n - 4) as nat)
        },
{
    let v = lo + 0x1_0000_0000 * hi;
    assert(v / 0x1_0000_0000 == hi);
    assert(v / 0x100 == lo / 0x100 + 0x100_0000 * hi);
    assert(v / 0x1_0000 == lo / 0x1_0000 + 0x1_0000 * hi);
    assert(v / 0x100_0000 == lo / 0x100_0000 + 0x100 * hi);
    assert(v / 0x100_0000_0000 == hi / 0x100);
    assert(v / 0x1_0000_0000_0000 == hi / 0x1_0000);
    assert(v / 0x100_0000_0000_0000 == hi / 0x100_0000);
}

/// The bytes of a little-endian value are the bytes of memory it was read
/// from: byte number `n` of the `k` bytes (1, 2, 4 or 8) read at index `i`
/// is the byte at index `i + n`.
pub proof fn lemma_bytes_of_load(mem: Seq<u8>, i: int, k: nat, n: nat)
    requires
        k == 1 || k == 2 || k == 4 || k == 8,
        n < k,
        0 <= i,
        i + k <= mem.len(),
    ensures
        byte_of(read_le(mem, i, k), n) == mem[i + n],
    decreases k,
{
    if k == 2 {
        lemma_bytes_of_pair(mem[i] as nat, mem[i + 1] as nat, n);
    } else if k == 4 {
        lemma_bytes_of_quad(le16(mem, i), le16(mem, i + 2), n);
        if n < 2 {
            lemma_bytes_of_load(mem, i, 2, n);
        } else {
            lemma_bytes_of_load(mem, i + 2, 2, (n - 2) as nat);
        }
    } else if k == 8 {
        lemma_bytes_of_octet(le32(mem, i), le32(mem, i + 4), n);
        if n < 4 {
            lemma_bytes_of_load(mem, i, 4, n);
        } else {
            lemma_bytes_of_load(mem, i + 4, 4, (n - 4) as nat);
        }
    }
}

/// Writing back the eight bytes that were read from an index leaves the
/// memory as it was.
pub proof fn lemma_load_then_store_64(mem: Seq<u8>, i: int)
    requires
        0 <= i,
        i + 8 <= mem.len(),
    ensures
        le64(mem, i) <= u64::MAX,
        put64(mem, i, le64(mem, i) as u64) == mem,
{
    let v = le64(mem, i) as u64;
    let after = put64(mem, i, v);
    lemma_put64_bytes(mem, i, v, 0);
    assert forall|j: int| 0 <= j < mem.len() implies after[j] == mem[j] by {
        lemma_put64_bytes(mem, i, v, j);
        if i <= j < i + 8 {
            lemma_bytes_of_load(mem, i, 8, (j - i) as nat);
        }
    }
    assert(after =~= mem);
}

/// After one byte `v` is written at index `j`, a read of `k` bytes (2, 4 or
/// 8) at an index `i` whose range covers `j` has `v` as its byte number
/// `j - i`: memory is little-endian, byte by byte.
pub proof fn lemma_byte_in_wider_load(mem: Seq<u8>, i: int, k: nat, j: int, v: u8)
    requires
        k == 2 || k == 4 || k == 8,
        0 <= i <= j < i + k,
        i + k <= mem.len(),
    ensures
        byte_of(read_le(mem.update(j, v), i, k), (j - i) as nat) == v,
{
    lemma_bytes_of_load(mem.update(j, v), i, k, (j - i) as nat);
}

/// An image of four bytes or more, copied to a memory of four bytes or
/// more, puts its first four bytes where the first instruction is fetched.
pub proof fn lemma_code_starts_memory(mem: Seq<u8>, code: Seq<u8>)
    requires
        4 <= mem.len(),
        4 <= code.len(),
    ensures
        le32(with_code(mem, code), 0) == le32(code, 0),
{
}

/// A bus serves exactly the addresses from `DRAM_BASE` up to `DRAM_BASE`
/// plus its size: an access of `k` bytes is mapped at the base and at
/// `k` bytes before the end, and not one byte later.
pub proof fn lemma_window_bounds(len: nat, k: nat)
    requires
        1 <= k <= len,
        DRAM_BASE + len <= u64::MAX,
    ensures
        in_window(len, DRAM_BASE, k),
        in_window(len, (DRAM_BASE + len - k) as u64, k),
        !in_window(len, (DRAM_BASE + len - k + 1) as u64, k),
        !in_window(len, (DRAM_BASE - 1) as u64, k),
{
}

} // verus!
