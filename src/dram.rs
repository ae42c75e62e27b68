use vstd::arithmetic::div_mod::{lemma_div_denominator, lemma_mod_breakdown};
use vstd::prelude::*;

verus! {

/// Address at which main memory starts.
pub const DRAM_BASE: u64 = 0x8000_0000;

/// Capacity of main memory in bytes (128 MiB).
pub const DRAM_SIZE: u64 = 1024 * 1024 * 128;

/// Little-endian value of a byte sequence: the first byte is the least significant.
pub open spec fn le_value(bytes: Seq<u8>) -> nat
    decreases bytes.len(),
{
    if bytes.len() == 0 {
        0
    } else {
        bytes[0] as nat + 256 * le_value(bytes.drop_first())
    }
}

/// The `n` least significant bytes of `v`, least significant first.
pub open spec fn le_bytes(v: nat, n: nat) -> Seq<u8>
    decreases n,
{
    if n == 0 {
        Seq::empty()
    } else {
        seq![(v % 256) as u8] + le_bytes(v / 256, (n - 1) as nat)
    }
}

/// `256` to the power `n`: the number of values that `n` bytes can hold.
pub open spec fn pow256(n: nat) -> nat
    decreases n,
{
    if n == 0 {
        1
    } else {
        256 * pow256((n - 1) as nat)
    }
}

/// An access width, in bits, that memory supports.
pub open spec fn is_width(size: u64) -> bool {
    size == 8 || size == 16 || size == 32 || size == 64
}

/// Whether `size` bits at `addr` lie wholly inside `len` bytes mapped at `DRAM_BASE`.
pub open spec fn in_range(addr: u64, size: u64, len: nat) -> bool {
    DRAM_BASE <= addr && addr - DRAM_BASE + size / 8 <= len
}

/// Whether an access of `size` bits at `addr` succeeds on memory of `len` bytes.
pub open spec fn access_ok(addr: u64, size: u64, len: nat) -> bool {
    is_width(size) && in_range(addr, size, len)
}

/// What a load of `size` bits at `addr` returns: the zero-extended little-endian
/// word found there, or `None` where the access fails.
pub open spec fn mem_load(mem: Seq<u8>, addr: u64, size: u64) -> Option<u64> {
    if access_ok(addr, size, mem.len()) {
        let off = addr - DRAM_BASE;
        Some(le_value(mem.subrange(off, off + size / 8)) as u64)
    } else {
        None
    }
}

/// Memory after a store of the low `size` bits of `value` at `addr`, or `None`
/// where the access fails.
pub open spec fn mem_store(mem: Seq<u8>, addr: u64, size: u64, value: u64) -> Option<Seq<u8>> {
    if access_ok(addr, size, mem.len()) {
        let off = addr - DRAM_BASE;
        let end = off + size / 8;
        Some(mem.subrange(0, off) + le_bytes(value as nat, size as nat / 8) + mem.subrange(
            end,
            mem.len() as int,
        ))
    } else {
        None
    }
}

/// Initial memory contents for an image: the image at offset zero, zeros after it.
pub open spec fn initial_memory(image: Seq<u8>) -> Seq<u8> {
    image + Seq::new((DRAM_SIZE - image.len()) as nat, |i: int| 0u8)
}

/// `256^n` is positive.
pub proof fn lemma_pow256_positive(n: nat)
    ensures
        pow256(n) > 0,
    decreases n,
{
    if n > 0 {
        lemma_pow256_positive((n - 1) as nat);
    }
}

/// Splitting off the first byte of a non-empty window.
pub proof fn lemma_le_value_first(s: Seq<u8>, a: int, b: int)
    requires
        0 <= a < b <= s.len(),
    ensures
        le_value(s.subrange(a, b)) == s[a] as nat + 256 * le_value(s.subrange(a + 1, b)),
{
    assert(s.subrange(a, b).drop_first() =~= s.subrange(a + 1, b));
}

/// The `j`-th byte of `le_bytes(v, n)` is `v / 256^j` reduced modulo 256.
pub proof fn lemma_le_bytes_index(v: nat, n: nat, j: nat)
    requires
        j < n,
    ensures
        le_bytes(v, n).len() == n,
        le_bytes(v, n)[j as int] == ((v / pow256(j)) % 256) as u8,
    decreases n,
{
    lemma_le_bytes_len(v, n);
    let rest = le_bytes(v / 256, (n - 1) as nat);
    assert(le_bytes(v, n) == seq![(v % 256) as u8] + rest);
    if j == 0 {
        assert(pow256(0) == 1);
        assert(v / 1 == v) by (nonlinear_arith);
    } else {
        lemma_le_bytes_index(v / 256, (n - 1) as nat, (j - 1) as nat);
        assert(le_bytes(v, n)[j as int] == rest[j - 1]);
        lemma_pow256_positive((j - 1) as nat);
        lemma_div_denominator(v as int, 256, pow256((j - 1) as nat) as int);
    }
}

/// `le_bytes(v, n)` has `n` bytes.
pub proof fn lemma_le_bytes_len(v: nat, n: nat)
    ensures
        le_bytes(v, n).len() == n,
    decreases n,
{
    if n > 0 {
        lemma_le_bytes_len(v / 256, (n - 1) as nat);
    }
}

/// The little-endian value of the low `n` bytes of `v` is `v` modulo `256^n`.
pub proof fn lemma_le_round_trip(v: nat, n: nat)
    ensures
        le_value(le_bytes(v, n)) == v % (pow256(n)),
    decreases n,
{
    if n == 0 {
        assert(v % 1 == 0) by (nonlinear_arith);
    } else {
        lemma_le_round_trip(v / 256, (n - 1) as nat);
        let rest = le_bytes(v / 256, (n - 1) as nat);
        assert((seq![(v % 256) as u8] + rest).drop_first() =~= rest);
        lemma_pow256_positive((n - 1) as nat);
        lemma_mod_breakdown(v as int, 256, pow256((n - 1) as nat) as int);
    }
}

/// A load that follows a store of the same width at the same address returns
/// the low `size` bits of the stored value, whatever memory held before: memory
/// behaves as a plain byte array, so after any sequence of stores the last one
/// at that address and width decides what is loaded.
pub proof fn lemma_store_then_load(mem: Seq<u8>, addr: u64, size: u64, value: u64)
    requires
        access_ok(addr, size, mem.len()),
    ensures
        mem_store(mem, addr, size, value) is Some,
        mem_load(mem_store(mem, addr, size, value)->Some_0, addr, size) == Some(
            (value as nat % pow256(size as nat / 8)) as u64,
        ),
{
    let off = addr - DRAM_BASE;
    let n = size as nat / 8;
    let stored = mem_store(mem, addr, size, value)->Some_0;
    lemma_le_bytes_len(value as nat, n);
    assert(stored.subrange(off, off + n) =~= le_bytes(value as nat, n));
    lemma_le_round_trip(value as nat, n);
}

/// Storing a 64-bit value and then loading its eight bytes one at a time gives
/// the value's bytes, least significant first: byte `i` is `(v >> 8i) & 0xff`.
pub proof fn lemma_store64_bytes(mem: Seq<u8>, addr: u64, value: u64, i: u64)
    requires
        mem.len() == DRAM_SIZE,
        access_ok(addr, 64, mem.len()),
        i < 8,
    ensures
        mem_load(mem_store(mem, addr, 64, value)->Some_0, (addr + i) as u64, 8) == Some(
            (value >> (8 * i)) & 0xff,
        ),
{
    let off = addr - DRAM_BASE;
    let stored = mem_store(mem, addr, 64, value)->Some_0;
    lemma_le_bytes_index(value as nat, 8, i as nat);
    let byte = stored[off + i];
    assert(byte == le_bytes(value as nat, 8)[i as int]);
    assert(stored.subrange(off + i, off + i + 1).drop_first() =~= Seq::<u8>::empty());
    reveal_with_fuel(le_value, 2);
    assert(le_value(stored.subrange(off + i, off + i + 1)) == byte as nat);
    lemma_byte_is_shift(value, i);
    assert(mem_load(stored, (addr + i) as u64, 8) == Some(byte as nat as u64));
}

/// `(v >> 8i) & 0xff` is `v / 256^i` reduced modulo 256.
proof fn lemma_byte_is_shift(v: u64, i: u64)
    requires
        i < 8,
    ensures
        (v >> (8 * i)) & 0xff == (v as nat / pow256(i as nat)) % 256,
{
    reveal_with_fuel(pow256, 8);
    if i == 0 {
        assert((v >> 0u64) & 0xff == (v / 1) % 256) by (bit_vector);
    } else if i == 1 {
        assert((v >> 8u64) & 0xff == (v / 0x100) % 256) by (bit_vector);
    } else if i == 2 {
        assert((v >> 16u64) & 0xff == (v / 0x1_0000) % 256) by (bit_vector);
    } else if i == 3 {
        assert((v >> 24u64) & 0xff == (v / 0x100_0000) % 256) by (bit_vector);
    } else if i == 4 {
        assert((v >> 32u64) & 0xff == (v / 0x1_0000_0000) % 256) by (bit_vector);
    } else if i == 5 {
        assert((v >> 40u64) & 0xff == (v / 0x100_0000_0000) % 256) by (bit_vector);
    } else if i == 6 {
        assert((v >> 48u64) & 0xff == (v / 0x1_0000_0000_0000) % 256) by (bit_vector);
    } else {
        assert((v >> 56u64) & 0xff == (v / 0x100_0000_0000_0000) % 256) by (bit_vector);
    }
}

/// Main memory: `DRAM_SIZE` bytes mapped at `DRAM_BASE`.
pub struct Dram {
    pub dram: Vec<u8>,
}

impl View for Dram {
    type V = Seq<u8>;

    open spec fn view(&self) -> Seq<u8> {
        self.dram@
    }
}

impl Dram {
    /// Memory always holds exactly `DRAM_SIZE` bytes.
    pub open spec fn wf(&self) -> bool {
        self.dram@.len() == DRAM_SIZE
    }

    /// Memory holding `code` at offset zero and zeros after it.
    pub fn new(code: Vec<u8>) -> (r: Self)
        requires
            code@.len() <= DRAM_SIZE,
        ensures
            r.wf(),
            r@ == initial_memory(code@),
    {
        let mut dram = vec![0u8; DRAM_SIZE as usize];
        assert(dram@ =~= Seq::new(DRAM_SIZE as nat, |i: int| 0u8));
        let mut i: usize = 0;
        while i < code.len()
            invariant
                code@.len() <= DRAM_SIZE,
                dram@.len() == DRAM_SIZE,
                i <= code@.len(),
                forall|j: int| 0 <= j < i ==> dram@[j] == code@[j],
                forall|j: int| i <= j < DRAM_SIZE ==> dram@[j] == 0u8,
            decreases code@.len() - i,
        {
            dram[i] = code[i];
            i = i + 1;
        }
        assert(dram@ =~= initial_memory(code@));
        Dram { dram }
    }

    /// Loads `size` bits at `addr`, zero-extended; fails on an unsupported
    /// width or an access outside memory.
    pub fn load(&self, addr: u64, size: u64) -> (r: Result<u64, ()>)
        requires
            self.wf(),
        ensures
            r is Ok <==> mem_load(self@, addr, size) is Some,
            r is Ok ==> r->Ok_0 == mem_load(self@, addr, size)->Some_0,
    {
        if !(size == 8 || size == 16 || size == 32 || size == 64) {
            return Err(());
        }
        if addr < DRAM_BASE || addr - DRAM_BASE > DRAM_SIZE - size / 8 {
            return Err(());
        }
        let off = (addr - DRAM_BASE) as usize;
        Ok(self.read_le(off, (size / 8) as usize))
    }

    /// Stores the low `size` bits of `value` at `addr`; fails, leaving memory
    /// unchanged, on an unsupported width or an access outside memory.
    pub fn store(&mut self, addr: u64, size: u64, value: u64) -> (r: Result<(), ()>)
        requires
            old(self).wf(),
        ensures
            final(self).wf(),
            r is Ok <==> mem_store(old(self)@, addr, size, value) is Some,
            r is Ok ==> final(self)@ == mem_store(old(self)@, addr, size, value)->Some_0,
            r is Err ==> final(self)@ == old(self)@,
    {
        if !(size == 8 || size == 16 || size == 32 || size == 64) {
            return Err(());
        }
        if addr < DRAM_BASE || addr - DRAM_BASE > DRAM_SIZE - size / 8 {
            return Err(());
        }
        let off = (addr - DRAM_BASE) as usize;
        self.write_le(off, (size / 8) as usize, value);
        Ok(())
    }

    /// The little-endian word of `n` bytes at offset `off`.
    fn read_le(&self, off: usize, n: usize) -> (r: u64)
        requires
            self.wf(),
            1 <= n <= 8,
            off + n <= self@.len(),
        ensures
            r as nat == le_value(self@.subrange(off as int, off + n)),
    {
        let mut r: u64 = 0;
        let mut i: usize = n;
        while i > 0
            invariant
                self.wf(),
                1 <= n <= 8,
                off + n <= self@.len(),
                i <= n,
                r as nat == le_value(self@.subrange(off + i, off + n)),
                r < pow256((n - i) as nat),
            decreases i,
        {
            i = i - 1;
            let b = self.dram[off + i];
            proof {
                lemma_le_value_first(self@, off + i, off + n);
                lemma_pow256_le_7((n - i - 1) as nat);
            }
            r = r * 256 + b as u64;
        }
        r
    }

    /// Writes the `n` low bytes of `value` at offset `off`, least significant first.
    fn write_le(&mut self, off: usize, n: usize, value: u64)
        requires
            old(self).wf(),
            1 <= n <= 8,
            off + n <= old(self)@.len(),
        ensures
            final(self).wf(),
            final(self)@ == old(self)@.subrange(0, off as int) + le_bytes(value as nat, n as nat)
                + old(self)@.subrange(off + n, old(self)@.len() as int),
    {
        let mut x: u64 = value;
        let mut i: usize = 0;
        proof {
            lemma_le_bytes_len(value as nat, n as nat);
            assert(pow256(0) == 1);
            assert(value as nat / 1 == value as nat) by (nonlinear_arith);
        }
        while i < n
            invariant
                1 <= n <= 8,
                old(self).wf(),
                off + n <= old(self)@.len(),
                i <= n,
                self@.len() == old(self)@.len(),
                x as nat == value as nat / pow256(i as nat),
                forall|j: int| 0 <= j < off ==> self@[j] == old(self)@[j],
                forall|j: int| off + n <= j < self@.len() ==> self@[j] == old(self)@[j],
                forall|j: int|
                    0 <= j < i ==> self@[off + j] == le_bytes(value as nat, n as nat)[j],
            decreases n - i,
        {
            proof {
                lemma_le_bytes_index(value as nat, n as nat, i as nat);
                lemma_pow256_positive(i as nat);
                lemma_div_denominator(value as int, pow256(i as nat) as int, 256);
            }
            self.dram[off + i] = (x % 256) as u8;
            x = x / 256;
            i = i + 1;
        }
        assert(self@ =~= old(self)@.subrange(0, off as int) + le_bytes(value as nat, n as nat)
            + old(self)@.subrange(off + n, old(self)@.len() as int));
    }
}

/// `256^k` grows with `k`.
proof fn lemma_pow256_monotonic(a: nat, b: nat)
    requires
        a <= b,
    ensures
        pow256(a) <= pow256(b),
    decreases b,
{
    if a < b {
        lemma_pow256_monotonic(a, (b - 1) as nat);
    }
}

/// A word of at most seven bytes, shifted up by one byte, still fits in 64 bits.
proof fn lemma_pow256_le_7(k: nat)
    requires
        k <= 7,
    ensures
        pow256(k) * 256 <= 0x1_0000_0000_0000_0000,
{
    reveal_with_fuel(pow256, 8);
    lemma_pow256_monotonic(k, 7);
}

} // verus!
