//! The search for a usable handle to the game held by another process: the
//! decisions it makes on the system handle table and on the donor's memory.
//!
//! The table is the buffer the system fills for the handle-information
//! query (64-bit layout): a 4-byte entry count, then 24-byte entries holding
//! the owner's process id (2 bytes at 0), the handle value (2 bytes at 6) and
//! the granted access (4 bytes at 16). The donor's memory is walked region by
//! region and scanned in 8-byte little-endian words.

use vstd::prelude::*;

use crate::memory::{decode_le_range, lemma_le_value_bound, le_value, pow256, wrap64};

verus! {

/// Size of the table's entry count, which the entries follow.
pub const TABLE_HEADER_LEN: usize = 4;

/// Size of one table entry.
pub const TABLE_ENTRY_LEN: usize = 24;

/// Size of the table buffer before the first query.
pub const TABLE_INITIAL_LEN: usize = 0x10_0000;

/// Query status: the buffer was too small for the table.
pub const STATUS_INFO_LENGTH_MISMATCH: u32 = 0xC000_0004;

/// Region state of committed memory.
pub const MEM_COMMIT: u32 = 0x1000;

/// Protection bits of memory that cannot be read.
pub const PAGE_NOACCESS: u32 = 0x01;

/// Protection bit of a guard page.
pub const PAGE_GUARD: u32 = 0x100;

/// One entry of the system handle table.
#[derive(Clone, Copy, Debug, PartialEq, Eq, Structural)]
pub struct HandleEntry {
    /// Process holding the handle.
    pub pid: u16,
    /// The handle's value in that process.
    pub handle_value: u16,
    /// Access rights the handle was granted.
    pub granted_access: u32,
}

/// The little-endian value of the `n` bytes of `buf` at `at`.
pub open spec fn le_at(buf: Seq<u8>, at: int, n: int) -> nat {
    le_value(buf.subrange(at, at + n))
}

/// Number of entries read from a table buffer: its count, as far as whole
/// entries of the buffer reach.
pub open spec fn entry_count(buf: Seq<u8>) -> nat {
    if buf.len() < TABLE_HEADER_LEN {
        0
    } else {
        let fit = ((buf.len() - TABLE_HEADER_LEN) / TABLE_ENTRY_LEN as int) as nat;
        if le_at(buf, 0, 4) < fit {
            le_at(buf, 0, 4)
        } else {
            fit
        }
    }
}

/// Entry `k` of a table buffer.
pub open spec fn entry_at(buf: Seq<u8>, k: int) -> HandleEntry {
    let base = TABLE_HEADER_LEN + TABLE_ENTRY_LEN * k;
    HandleEntry {
        pid: le_at(buf, base, 2) as u16,
        handle_value: le_at(buf, base + 6, 2) as u16,
        granted_access: le_at(buf, base + 16, 4) as u32,
    }
}

/// The entries of a filled table buffer, in table order.
pub fn handle_entries(buf: &[u8]) -> (es: Vec<HandleEntry>)
    ensures
        es@.len() == entry_count(buf@),
        forall|k: int| 0 <= k < es@.len() ==> #[trigger] es@[k] == entry_at(buf@, k),
{
    let mut es: Vec<HandleEntry> = Vec::new();
    if buf.len() < TABLE_HEADER_LEN {
        return es;
    }
    let count = decode_le_range(buf, 0, 4);
    let fit = (buf.len() - TABLE_HEADER_LEN) / TABLE_ENTRY_LEN;
    let n: usize = if count < fit as u64 {
        count as usize
    } else {
        fit
    };
    assert(n as nat == entry_count(buf@));
    let blen = buf.len();
    assert(TABLE_ENTRY_LEN * n <= blen - TABLE_HEADER_LEN) by (nonlinear_arith)
        requires
            n <= (blen - TABLE_HEADER_LEN) / (TABLE_ENTRY_LEN as int),
            blen >= TABLE_HEADER_LEN,
    ;
    let mut k: usize = 0;
    while k < n
        invariant
            n == entry_count(buf@),
            blen == buf@.len(),
            TABLE_HEADER_LEN + TABLE_ENTRY_LEN * n <= blen,
            k <= n,
            es@.len() == k,
            forall|j: int| 0 <= j < k ==> #[trigger] es@[j] == entry_at(buf@, j),
        decreases n - k,
    {
        assert(TABLE_ENTRY_LEN * k + TABLE_ENTRY_LEN <= TABLE_ENTRY_LEN * n) by (nonlinear_arith)
            requires
                k < n,
        ;
        let base = TABLE_HEADER_LEN + TABLE_ENTRY_LEN * k;
        let pid = decode_le_range(buf, base, base + 2);
        let hv = decode_le_range(buf, base + 6, base + 8);
        let ga = decode_le_range(buf, base + 16, base + 20);
        proof {
            lemma_le_value_bound(buf@.subrange(base as int, base + 2));
            lemma_le_value_bound(buf@.subrange(base + 6, base + 8));
            lemma_le_value_bound(buf@.subrange(base + 16, base + 20));
            reveal_with_fuel(pow256, 5);
        }
        let e = HandleEntry { pid: pid as u16, handle_value: hv as u16, granted_access: ga as u32 };
        assert(e == entry_at(buf@, k as int));
        es.push(e);
        k += 1;
    }
    es
}

/// A handle granted `granted` covers every right of `mask`.
pub open spec fn grants(granted: u32, mask: u32) -> bool {
    granted & mask == mask
}

/// The entries whose handles cover `access_mask`, in table order: the
/// donors worth trying.
pub fn donor_entries(entries: &Vec<HandleEntry>, access_mask: u32) -> (d: Vec<HandleEntry>)
    ensures
        d@ == entries@.filter(|e: HandleEntry| grants(e.granted_access, access_mask)),
{
    let ghost pred = |e: HandleEntry| grants(e.granted_access, access_mask);
    let mut d: Vec<HandleEntry> = Vec::new();
    let mut k: usize = 0;
    assert(entries@.subrange(0, 0).filter(pred) =~= Seq::<HandleEntry>::empty());
    while k < entries.len()
        invariant
            pred == (|e: HandleEntry| grants(e.granted_access, access_mask)),
            k <= entries.len(),
            d@ == entries@.subrange(0, k as int).filter(pred),
        decreases entries.len() - k,
    {
        let e = entries[k];
        proof {
            assert(entries@.subrange(0, k + 1) =~= entries@.subrange(0, k as int).push(e));
            entries@.subrange(0, k as int).lemma_filter_push(e, pred);
        }
        if e.granted_access & access_mask == access_mask {
            d.push(e);
        }
        k += 1;
    }
    assert(entries@.subrange(0, entries.len() as int) =~= entries@);
    d
}

/// What to do after a table query.
#[derive(Clone, Copy, Debug, PartialEq, Eq, Structural)]
pub enum TableQuery {
    /// Query again with a buffer of this many bytes.
    Grow(usize),
    /// The query failed with this status.
    Failed(u32),
    /// The buffer holds the table.
    Ready,
}

/// The next step after a table query that returned `status` and asked for
/// `needed` bytes, with a buffer of `len` bytes: on a length mismatch the
/// buffer grows to twice its length, or to what was asked plus a margin
/// when that is more.
pub fn table_query_step(status: i32, len: usize, needed: u32) -> (q: TableQuery)
    requires
        len * 2 <= usize::MAX,
        needed + 4096 <= usize::MAX,
    ensures
        q == (if status as u32 == STATUS_INFO_LENGTH_MISMATCH {
            TableQuery::Grow(
                if len * 2 >= needed + 4096 {
                    (len * 2) as usize
                } else {
                    (needed + 4096) as usize
                },
            )
        } else if status != 0 {
            TableQuery::Failed(status as u32)
        } else {
            TableQuery::Ready
        }),
{
    if status as u32 == STATUS_INFO_LENGTH_MISMATCH {
        let doubled = len * 2;
        let asked = needed as usize + 4096;
        TableQuery::Grow(
            if doubled >= asked {
                doubled
            } else {
                asked
            },
        )
    } else if status != 0 {
        TableQuery::Failed(status as u32)
    } else {
        TableQuery::Ready
    }
}

/// A region whose memory is scanned: committed, and neither a guard page
/// nor inaccessible.
pub open spec fn scannable(state: u32, protect: u32) -> bool {
    state == MEM_COMMIT && protect & (PAGE_GUARD | PAGE_NOACCESS) == 0
}

/// Whether a region with this state and protection is scanned.
pub fn region_scannable(state: u32, protect: u32) -> (b: bool)
    ensures
        b == scannable(state, protect),
{
    state == MEM_COMMIT && protect & (PAGE_GUARD | PAGE_NOACCESS) == 0
}

/// Start of the region after the one at `address` of `size` bytes, when the
/// walk goes on: the walk stops once the next start would wrap around to or
/// below `address`.
pub fn next_region(address: u64, size: u64) -> (n: Option<u64>)
    ensures
        n == (if wrap64(address + size) > address {
            Some(wrap64(address + size))
        } else {
            None::<u64>
        }),
{
    let next = address.wrapping_add(size);
    assert(next == wrap64(address + size));
    if next <= address {
        None
    } else {
        Some(next)
    }
}

/// The 8-byte little-endian word `i` of `bytes`.
pub open spec fn word_at(bytes: Seq<u8>, i: int) -> nat {
    le_at(bytes, 8 * i, 8)
}

/// Byte offsets of the whole words among the first `n` of `bytes` that
/// equal `needle`, in order.
pub open spec fn needle_offsets(bytes: Seq<u8>, needle: u64, n: nat) -> Seq<int>
    decreases n,
{
    if n == 0 {
        Seq::empty()
    } else {
        let before = needle_offsets(bytes, needle, (n - 1) as nat);
        if word_at(bytes, n - 1) == needle {
            before.push(8 * (n - 1))
        } else {
            before
        }
    }
}

/// Byte offsets, in order, of the words of `bytes` that hold `needle`: the
/// slots of a region read from the donor that may hold the handle.
pub fn find_word(bytes: &[u8], needle: u64) -> (offs: Vec<usize>)
    ensures
        offs@.map_values(|o: usize| o as int) == needle_offsets(bytes@, needle, bytes@.len() / 8),
{
    let blen = bytes.len();
    let words = blen / 8;
    let mut offs: Vec<usize> = Vec::new();
    let mut i: usize = 0;
    while i < words
        invariant
            blen == bytes@.len(),
            words == blen / 8,
            i <= words,
            offs@.map_values(|o: usize| o as int) == needle_offsets(bytes@, needle, i as nat),
        decreases words - i,
    {
        assert(8 * i + 8 <= blen) by (nonlinear_arith)
            requires
                i < words,
                words == blen / 8,
        ;
        let w = decode_le_range(bytes, 8 * i, 8 * i + 8);
        if w == needle {
            let ghost before = offs@;
            offs.push(8 * i);
            assert(offs@.map_values(|o: usize| o as int) =~= before.map_values(|o: usize| o as int).push(
                8 * i,
            ));
        }
        i += 1;
    }
    offs
}

/// Whether `check` may be called on every entry.
pub open spec fn check_ok<F: Fn(HandleEntry) -> bool>(check: &F) -> bool {
    forall|e: HandleEntry| call_requires(*check, (e,))
}

/// The donor search over the table: the entries covering `access_mask` are
/// tried in table order with `check` (whether the entry's handle, taken
/// into this process, is a handle to the game), and the first that passes
/// is the donor. `None` when none passes. Each entry is tried at most once;
/// of an entry that was tried and passed over, `false` is what the check
/// answered.
pub fn find_donor<F: Fn(HandleEntry) -> bool>(entries: &Vec<HandleEntry>, access_mask: u32, check: &F) -> (r: Option<usize>)
    requires
        check_ok(check),
    ensures
        match r {
            Some(i) => {
                &&& i < entries@.len()
                &&& grants(entries@[i as int].granted_access, access_mask)
                &&& call_ensures(*check, (entries@[i as int],), true)
                &&& forall|k: int|
                    0 <= k < i && grants(#[trigger] entries@[k].granted_access, access_mask)
                        ==> call_ensures(*check, (entries@[k],), false)
            },
            None => forall|k: int|
                0 <= k < entries@.len() && grants(#[trigger] entries@[k].granted_access, access_mask)
                    ==> call_ensures(*check, (entries@[k],), false),
        },
{
    let mut i: usize = 0;
    while i < entries.len()
        invariant
            check_ok(check),
            i <= entries@.len(),
            forall|k: int|
                0 <= k < i && grants(#[trigger] entries@[k].granted_access, access_mask)
                    ==> call_ensures(*check, (entries@[k],), false),
        decreases entries.len() - i,
    {
        let e = entries[i];
        if e.granted_access & access_mask == access_mask {
            if check(e) {
                return Some(i);
            }
        }
        i += 1;
    }
    None
}

/// One region of the donor's memory as the system describes it.
#[derive(Clone, Copy, Debug, PartialEq, Eq, Structural)]
pub struct Region {
    pub size: u64,
    pub state: u32,
    pub protect: u32,
}

/// Where the region walk goes after one region.
#[derive(Clone, Copy, Debug, PartialEq, Eq, Structural)]
pub enum RegionStep {
    /// The handle was found in the slot at this address.
    Found(u64),
    /// Go on with the region at this address.
    Next(u64),
    /// The walk is over.
    Done,
}

/// Where the walk goes on after the region at `address` of `size` bytes.
pub open spec fn after_region(address: u64, size: u64) -> RegionStep {
    if wrap64(address + size) > address {
        RegionStep::Next(wrap64(address + size))
    } else {
        RegionStep::Done
    }
}

/// Whether `check` may be called on every slot address.
pub open spec fn slot_check_ok<F: Fn(u64) -> bool>(check: &F) -> bool {
    forall|a: u64| call_requires(*check, (a,))
}

/// Addresses of the slots of the region at `address` that hold `needle`,
/// in order: none unless the region is scannable and was read.
pub open spec fn region_slots(address: u64, region: Region, bytes: Option<Vec<u8>>, needle: u64) -> Seq<u64> {
    match bytes {
        Some(b) => if scannable(region.state, region.protect) {
            needle_offsets(b@, needle, b@.len() / 8).map_values(|o: int| (address + o) as u64)
        } else {
            Seq::empty()
        },
        None => Seq::empty(),
    }
}

/// One step of the walk over the donor's memory, for the region at
/// `address`: `bytes` is what was read of it (`None` when it was not read or
/// the read failed). In a scannable region that was read, the slots holding
/// `needle` are tried in address order with `check` (whether the handle in
/// that slot, taken into this process, is a handle to the game), and the
/// first that passes is the answer; otherwise the walk goes on to the next
/// region, or ends when the next start would wrap around.
pub fn scan_region<F: Fn(u64) -> bool>(
    address: u64,
    region: Region,
    bytes: &Option<Vec<u8>>,
    needle: u64,
    check: &F,
) -> (r: RegionStep)
    requires
        slot_check_ok(check),
        bytes matches Some(b) ==> address + b@.len() <= u64::MAX,
    ensures
        ({
            let slots = region_slots(address, region, *bytes, needle);
            match r {
                RegionStep::Found(a) => exists|k: int|
                    0 <= k < slots.len() && a == #[trigger] slots[k] && call_ensures(*check, (a,), true)
                        && forall|j: int| 0 <= j < k ==> call_ensures(*check, (#[trigger] slots[j],), false),
                _ => {
                    &&& r == after_region(address, region.size)
                    &&& forall|j: int| 0 <= j < slots.len() ==> call_ensures(*check, (#[trigger] slots[j],), false)
                },
            }
        }),
{
    let ghost slots = region_slots(address, region, *bytes, needle);
    if region_scannable(region.state, region.protect) {
        if let Some(b) = bytes {
            let offs = find_word(b.as_slice(), needle);
            let ghost offv = needle_offsets(b@, needle, b@.len() / 8);
            proof {
                lemma_offsets_in_bytes(b@, needle, b@.len() / 8);
                assert(8 * (b@.len() / 8) <= b@.len()) by (nonlinear_arith);
            }
            let mut k: usize = 0;
            while k < offs.len()
                invariant
                    slot_check_ok(check),
                    offs@.map_values(|o: usize| o as int) == offv,
                    slots == offv.map_values(|o: int| (address + o) as u64),
                    slots == region_slots(address, region, *bytes, needle),
                    forall|j: int| 0 <= j < offv.len() ==> 0 <= #[trigger] offv[j] && offv[j] + 8 <= b@.len(),
                    address + b@.len() <= u64::MAX,
                    k <= offs@.len(),
                    forall|j: int| 0 <= j < k ==> call_ensures(*check, (#[trigger] slots[j],), false),
                decreases offs.len() - k,
            {
                assert(offv[k as int] == offs@[k as int] as int);
                let a = address + offs[k] as u64;
                assert(a == slots[k as int]);
                if check(a) {
                    assert(0 <= k < slots.len() && a == slots[k as int]);
                    return RegionStep::Found(a);
                }
                k += 1;
            }
        }
    }
    match next_region(address, region.size) {
        Some(n) => RegionStep::Next(n),
        None => RegionStep::Done,
    }
}

/// The slots found lie inside the bytes scanned.
proof fn lemma_offsets_in_bytes(bytes: Seq<u8>, needle: u64, n: nat)
    requires
        8 * n <= bytes.len(),
    ensures
        forall|j: int|
            0 <= j < needle_offsets(bytes, needle, n).len() ==> 0 <= #[trigger] needle_offsets(
                bytes,
                needle,
                n,
            )[j] && needle_offsets(bytes, needle, n)[j] + 8 <= 8 * n,
    decreases n,
{
    if n > 0 {
        lemma_offsets_in_bytes(bytes, needle, (n - 1) as nat);
        let before = needle_offsets(bytes, needle, (n - 1) as nat);
        let cur = needle_offsets(bytes, needle, n);
        assert forall|j: int| 0 <= j < cur.len() implies 0 <= #[trigger] cur[j] && cur[j] + 8 <= 8 * n by {
            if j < before.len() {
                assert(cur[j] == before[j]);
            }
        }
    }
}

} // verus!
