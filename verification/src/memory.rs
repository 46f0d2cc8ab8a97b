//! Addresses in the target process and the typed reads made through them.
//!
//! The bytes themselves come from a reader closure `Fn(addr, len) -> Option<Vec<u8>>`
//! supplied by the caller (the platform layer that talks to the operating
//! system). Nothing is assumed of what the reader returns: every contract here
//! says what holds for whatever the reader answered.

use vstd::prelude::*;

verus! {

/// Number of distinct 64-bit addresses.
pub open spec fn modulus64() -> int {
    0x1_0000_0000_0000_0000
}

/// `x` reduced into the 64-bit address space (two's-complement wrapping).
pub open spec fn wrap64(x: int) -> u64 {
    (x % modulus64()) as u64
}

/// Little-endian value of a byte sequence.
pub open spec fn le_value(s: Seq<u8>) -> nat
    decreases s.len(),
{
    if s.len() == 0 {
        0
    } else {
        s[0] as nat + 256 * le_value(s.drop_first())
    }
}

/// What a read of `n` bytes turns into: the little-endian value when exactly
/// `n` bytes came back, zero on any failure (the `Default` of an integer).
pub open spec fn value_or_zero(raw: Option<Vec<u8>>, n: usize) -> nat {
    match raw {
        Some(b) => if b@.len() == n { le_value(b@) } else { 0 },
        None => 0,
    }
}

/// What a checked read of `n` bytes gives: the bytes when exactly `n` came back.
pub open spec fn exact_bytes(raw: Option<Vec<u8>>, n: usize) -> Option<Seq<u8>> {
    match raw {
        Some(b) => if b@.len() == n { Some(b@) } else { None },
        None => None,
    }
}

/// The reader may be called on any address and length.
pub open spec fn reader_ok<R: Fn(u64, usize) -> Option<Vec<u8>>>(r: &R) -> bool {
    forall|a: u64, n: usize| call_requires(*r, (a, n))
}

/// `v` is a value that reading `n` bytes at `addr` may produce: zero at the
/// null address (no read is made), else the decoded answer of one call of
/// the reader, zero when that call failed or came back short.
pub open spec fn reads_le<R: Fn(u64, usize) -> Option<Vec<u8>>>(
    r: &R,
    addr: u64,
    n: usize,
    v: nat,
) -> bool {
    if addr == 0 {
        v == 0
    } else {
        exists|raw: Option<Vec<u8>>| #[trigger]
            call_ensures(*r, (addr, n), raw) && v == value_or_zero(raw, n)
    }
}

/// The 32-bit two's-complement pattern of `x`.
pub open spec fn bits_i32(x: i32) -> nat {
    if x >= 0 {
        x as nat
    } else {
        (x + 0x1_0000_0000) as nat
    }
}

/// `x` is a value that a read of an `i32` at `addr` may produce.
pub open spec fn reads_i32<R: Fn(u64, usize) -> Option<Vec<u8>>>(r: &R, addr: u64, x: i32) -> bool {
    reads_le(r, addr, 4, bits_i32(x))
}

/// An address in the target process, bound to the reader of that process.
pub struct Handle<'p, R> where R: Fn(u64, usize) -> Option<Vec<u8>> {
    pub proc: &'p R,
    pub addr: u64,
}

impl<'p, R> Clone for Handle<'p, R> where R: Fn(u64, usize) -> Option<Vec<u8>> {
    fn clone(&self) -> (r: Self)
        ensures
            r == *self,
    {
        Handle { proc: self.proc, addr: self.addr }
    }
}

impl<'p, R> Copy for Handle<'p, R> where R: Fn(u64, usize) -> Option<Vec<u8>> {

}

/// Decode the little-endian bytes `b[start .. end]`, at most eight.
pub(crate) fn decode_le_range(b: &[u8], start: usize, end: usize) -> (v: u64)
    requires
        start <= end <= b@.len(),
        end - start <= 8,
    ensures
        v as nat == le_value(b@.subrange(start as int, end as int)),
{
    let mut v: u64 = 0;
    let mut i: usize = end;
    proof {
        lemma_le_value_bound(b@.subrange(i as int, end as int));
        assert(b@.subrange(end as int, end as int) =~= Seq::<u8>::empty());
    }
    while i > start
        invariant
            start <= i <= end <= b@.len(),
            end - start <= 8,
            v as nat == le_value(b@.subrange(i as int, end as int)),
            (v as nat) < pow256((end - i) as nat),
        decreases i,
    {
        let ghost tail = b@.subrange(i as int, end as int);
        i = i - 1;
        let ghost next = b@.subrange(i as int, end as int);
        proof {
            assert(next.drop_first() =~= tail);
            assert(next[0] == b@[i as int]);
            lemma_pow256_small((end - i - 1) as nat);
        }
        v = v * 256 + b[i] as u64;
        proof {
            lemma_pow256_step((end - i - 1) as nat);
        }
    }
    v
}

/// 256 to the power `k`.
pub open spec fn pow256(k: nat) -> nat
    decreases k,
{
    if k == 0 {
        1
    } else {
        256 * pow256((k - 1) as nat)
    }
}

proof fn lemma_pow256_small(k: nat)
    requires
        k < 8,
    ensures
        pow256(k) <= 0x100_0000_0000_0000,
{
    reveal_with_fuel(pow256, 8);
    assert(pow256(0) == 1);
    assert(pow256(1) == 0x100);
    assert(pow256(2) == 0x1_0000);
    assert(pow256(3) == 0x100_0000);
    assert(pow256(4) == 0x1_0000_0000);
    assert(pow256(5) == 0x100_0000_0000);
    assert(pow256(6) == 0x1_0000_0000_0000);
    assert(pow256(7) == 0x100_0000_0000_0000);
}

proof fn lemma_pow256_pos(k: nat)
    ensures
        pow256(k) >= 1,
    decreases k,
{
    if k > 0 {
        lemma_pow256_pos((k - 1) as nat);
    }
}

proof fn lemma_pow256_step(k: nat)
    ensures
        pow256(k + 1) == 256 * pow256(k),
{
}

pub(crate) proof fn lemma_le_value_bound(s: Seq<u8>)
    ensures
        le_value(s) < pow256(s.len()),
    decreases s.len(),
{
    if s.len() > 0 {
        lemma_le_value_bound(s.drop_first());
    }
}

impl<'p, R> Handle<'p, R> where R: Fn(u64, usize) -> Option<Vec<u8>> {
    /// A handle on `addr`, read through `proc`.
    pub fn new(proc: &'p R, addr: u64) -> (h: Self)
        ensures
            h.proc == proc,
            h.addr == addr,
    {
        Handle { proc, addr }
    }

    /// Raw 64-bit address.
    pub fn addr(self) -> (a: u64)
        ensures
            a == self.addr,
    {
        self.addr
    }

    pub fn is_null(self) -> (b: bool)
        ensures
            b == (self.addr == 0),
    {
        self.addr == 0
    }

    /// `self + offset`, wrapping.
    pub fn add(self, offset: i64) -> (h: Self)
        ensures
            h.proc == self.proc,
            h.addr == wrap64(self.addr + offset),
    {
        let a = self.addr.wrapping_add_signed(offset);
        Handle { proc: self.proc, addr: a }
    }

    /// `self - offset`, wrapping.
    pub fn sub(self, offset: i64) -> (h: Self)
        ensures
            h.proc == self.proc,
            h.addr == wrap64(self.addr - offset),
    {
        let neg: i64 = if offset == i64::MIN { offset } else { -offset };
        assert(wrap64(self.addr + neg) == wrap64(self.addr - offset));
        self.add(neg)
    }

    /// Read `n` bytes here. `None` at the null address, when the read fails,
    /// or when fewer than `n` bytes came back.
    pub fn read_bytes(self, n: usize) -> (res: Option<Vec<u8>>)
        requires
            reader_ok(self.proc),
        ensures
            self.addr == 0 ==> res is None,
            self.addr != 0 ==> exists|raw: Option<Vec<u8>>| #[trigger]
                call_ensures(*self.proc, (self.addr, n), raw) && (match res {
                    Some(v) => exact_bytes(raw, n) == Some(v@),
                    None => exact_bytes(raw, n) is None,
                }),
    {
        if self.addr == 0 {
            return None;
        }
        let raw = (self.proc)(self.addr, n);
        let ghost g = raw;
        match raw {
            Some(v) => {
                if v.len() == n {
                    Some(v)
                } else {
                    None
                }
            },
            None => None,
        }
    }

    /// Read `n` little-endian bytes as an unsigned value, zero on failure.
    fn read_le_or_zero(self, n: usize) -> (v: u64)
        requires
            reader_ok(self.proc),
            1 <= n <= 8,
        ensures
            reads_le(self.proc, self.addr, n, v as nat),
    {
        if self.addr == 0 {
            return 0;
        }
        let raw = (self.proc)(self.addr, n);
        let ghost g = raw;
        let v = match &raw {
            Some(b) => {
                if b.len() == n {
                    proof {
                        assert(b@.subrange(0, b@.len() as int) =~= b@);
                    }
                    decode_le_range(b.as_slice(), 0, b.len())
                } else {
                    0
                }
            },
            None => 0,
        };
        assert(call_ensures(*self.proc, (self.addr, n), g) && v as nat == value_or_zero(g, n));
        v
    }

    /// Read a `u8`, zero on failure.
    pub fn read_or_u8(self) -> (v: u8)
        requires
            reader_ok(self.proc),
        ensures
            reads_le(self.proc, self.addr, 1, v as nat),
    {
        let x = self.read_le_or_zero(1);
        proof {
            lemma_reads_bound(self.proc, self.addr, 1, x as nat);
            reveal_with_fuel(pow256, 5);
        }
        x as u8
    }

    /// Read a little-endian `u16`, zero on failure.
    pub fn read_or_u16(self) -> (v: u16)
        requires
            reader_ok(self.proc),
        ensures
            reads_le(self.proc, self.addr, 2, v as nat),
    {
        let x = self.read_le_or_zero(2);
        proof {
            lemma_reads_bound(self.proc, self.addr, 2, x as nat);
            reveal_with_fuel(pow256, 5);
        }
        x as u16
    }

    /// Read a little-endian `u32`, zero on failure.
    pub fn read_or_u32(self) -> (v: u32)
        requires
            reader_ok(self.proc),
        ensures
            reads_le(self.proc, self.addr, 4, v as nat),
    {
        let x = self.read_le_or_zero(4);
        proof {
            lemma_reads_bound(self.proc, self.addr, 4, x as nat);
            reveal_with_fuel(pow256, 5);
        }
        x as u32
    }

    /// Read a little-endian two's-complement `i32`, zero on failure.
    pub fn read_or_i32(self) -> (v: i32)
        requires
            reader_ok(self.proc),
        ensures
            reads_i32(self.proc, self.addr, v),
    {
        let x = self.read_or_u32();
        if x < 0x8000_0000 {
            x as i32
        } else {
            let y = (x - 0x8000_0000) as i32;
            y - 0x7fff_ffff - 1
        }
    }

    /// Read a little-endian `u64`, zero on failure.
    pub fn read_or_u64(self) -> (v: u64)
        requires
            reader_ok(self.proc),
        ensures
            reads_le(self.proc, self.addr, 8, v as nat),
    {
        self.read_le_or_zero(8)
    }

    /// Follow the 64-bit pointer stored here; the null handle when the read fails.
    pub fn deref(self) -> (h: Self)
        requires
            reader_ok(self.proc),
        ensures
            h.proc == self.proc,
            reads_le(self.proc, self.addr, 8, h.addr as nat),
    {
        let a = self.read_or_u64();
        Handle { proc: self.proc, addr: a }
    }

    /// RIP-relative resolve: `self + 4 + *(i32*)self`.
    pub fn rip(self) -> (h: Self)
        requires
            reader_ok(self.proc),
        ensures
            h.proc == self.proc,
            exists|d: i32| #[trigger] reads_i32(self.proc, self.addr, d)
                && h.addr == wrap64(wrap64(self.addr + 4) + d),
    {
        let disp = self.read_or_i32();
        self.add(4).add(disp as i64)
    }
}

/// A value read from `n` bytes fits in `n` bytes.
proof fn lemma_reads_bound<R: Fn(u64, usize) -> Option<Vec<u8>>>(r: &R, addr: u64, n: usize, v: nat)
    requires
        reads_le(r, addr, n, v),
    ensures
        v < pow256(n as nat),
{
    lemma_pow256_pos(n as nat);
    if addr != 0 {
        let raw = choose|raw: Option<Vec<u8>>| #[trigger]
            call_ensures(*r, (addr, n), raw) && v == value_or_zero(raw, n);
        match raw {
            Some(b) => {
                if b@.len() == n {
                    lemma_le_value_bound(b@);
                }
            },
            None => {},
        }
    }
}

/// Going back by an offset undoes going forward by it.
pub proof fn sub_undoes_add(a: u64, o: i64)
    ensures
        wrap64(wrap64(a + o) - o) == a,
{
    let m = modulus64();
    let x = a + o;
    assert(wrap64(x) as int == x % m);
    assert((x % m - o) % m == a) by {
        vstd::arithmetic::div_mod::lemma_add_mod_noop(x, -o, m);
        vstd::arithmetic::div_mod::lemma_mod_twice(x, m);
        assert(x - o == a);
        vstd::arithmetic::div_mod::lemma_small_mod(a as nat, m as nat);
        vstd::arithmetic::div_mod::lemma_add_mod_noop(x % m, -o, m);
    }
}

} // verus!
