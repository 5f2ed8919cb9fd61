//! The hierarchical address-space model: regions of addressable cells,
//! leasable composite spaces, and the fixed 32-bit memory map built from
//! them.

use std::collections::HashMap;
use vstd::prelude::*;

verus! {

broadcast use vstd::std_specs::hash::group_hash_axioms;

/// Unique identifier for a location in an address space.
pub type Address = u64;

/// Bits referenced by a single `Address` (u8 for byte-addressable
/// systems).
pub type Cell = u8;

/// Useful representation for the size of a segment of addressable space.
pub type CellCount = u64;

// ---------------------------------------------------------------------------
// Region data types
// ---------------------------------------------------------------------------

/// Sparse random-access memory over an inclusive address range: cells are
/// materialized on first write and unwritten cells read as zero.
pub struct RandomAccessMemory {
    pub start: Address,
    pub end: Address,
    pub cells: HashMap<Address, Cell>,
}

/// Read-only memory anchored at `start`: a fixed array of cells, possibly
/// shorter than the span; addresses past the data are absent.
pub struct ReadOnlyMemory {
    pub start: Address,
    pub end: Address,
    pub cells: Vec<Cell>,
}

/// A composite region owning a sequence of leased subregions.
pub struct AddressSpace {
    pub start: Address,
    pub end: Address,
    pub mapped_regions: Vec<MemRegion>,
}

/// One leasable region: a leaf memory or a nested address space.
pub enum MemRegion {
    Ram(RandomAccessMemory),
    Rom(ReadOnlyMemory),
    Space(AddressSpace),
}

// ---------------------------------------------------------------------------
// The specification model: bounds, cell reads, writability
// ---------------------------------------------------------------------------

/// Lowest address of a region.
pub open spec fn spec_region_start(r: MemRegion) -> Address {
    match r {
        MemRegion::Ram(m) => m.start,
        MemRegion::Rom(m) => m.start,
        MemRegion::Space(s) => s.start,
    }
}

/// Highest address of a region.
pub open spec fn spec_region_end(r: MemRegion) -> Address {
    match r {
        MemRegion::Ram(m) => m.end,
        MemRegion::Rom(m) => m.end,
        MemRegion::Space(s) => s.end,
    }
}

/// Whether `addr` lies between a region's start and end.
pub open spec fn spec_region_contains(r: MemRegion, addr: Address) -> bool {
    spec_region_start(r) <= addr <= spec_region_end(r)
}

/// The overlap test: either endpoint of `b` inside `a`.  The check is
/// asymmetric and incomplete: `b` may strictly contain `a` without either
/// of `b`'s endpoints lying inside `a`, and is then not flagged.  This is
/// a known limitation, kept deliberately rather than silently replaced by
/// true interval intersection.
pub open spec fn spec_overlaps(a: MemRegion, b: MemRegion) -> bool {
    spec_region_contains(a, spec_region_start(b)) || spec_region_contains(a, spec_region_end(b))
}

/// The cell a region yields for `addr`: for sparse memory, a materialized
/// cell or the zero default inside the range; for read-only memory, the
/// backing data inside the range; for a space, whatever the first leased
/// subregion claiming `addr` yields.
pub open spec fn spec_region_get(r: MemRegion, addr: Address) -> Option<Cell>
    decreases r,
{
    match r {
        MemRegion::Ram(m) => if m.start <= addr <= m.end {
            if m.cells@.contains_key(addr) {
                Some(m.cells@[addr])
            } else {
                Some(0)
            }
        } else {
            None
        },
        MemRegion::Rom(m) => if m.start <= addr <= m.end && addr - m.start < m.cells@.len() {
            Some(m.cells@[addr - m.start])
        } else {
            None
        },
        MemRegion::Space(s) => spec_seq_get(s.mapped_regions@, addr),
    }
}

/// First-match delegation over a sequence of leased subregions.
pub open spec fn spec_seq_get(subs: Seq<MemRegion>, addr: Address) -> Option<Cell>
    decreases subs,
{
    if subs.len() == 0 {
        None
    } else if spec_region_contains(subs[0], addr) {
        spec_region_get(subs[0], addr)
    } else {
        spec_seq_get(subs.subrange(1, subs.len() as int), addr)
    }
}

/// Whether a write to `addr` can succeed: sparse memory accepts any
/// in-range address, read-only memory none, and a space delegates to the
/// first leased subregion claiming the address.
pub open spec fn spec_region_writable(r: MemRegion, addr: Address) -> bool
    decreases r,
{
    match r {
        MemRegion::Ram(m) => m.start <= addr <= m.end,
        MemRegion::Rom(_) => false,
        MemRegion::Space(s) => spec_seq_writable(s.mapped_regions@, addr),
    }
}

/// First-match writability over a sequence of leased subregions.
pub open spec fn spec_seq_writable(subs: Seq<MemRegion>, addr: Address) -> bool
    decreases subs,
{
    if subs.len() == 0 {
        false
    } else if spec_region_contains(subs[0], addr) {
        spec_region_writable(subs[0], addr)
    } else {
        spec_seq_writable(subs.subrange(1, subs.len() as int), addr)
    }
}

/// Index of the first leased subregion whose bounds contain `addr`.
pub open spec fn spec_subregion_at(subs: Seq<MemRegion>, addr: Address) -> Option<int>
    decreases subs.len(),
{
    if subs.len() == 0 {
        None
    } else if spec_region_contains(subs[0], addr) {
        Some(0)
    } else {
        match spec_subregion_at(subs.subrange(1, subs.len() as int), addr) {
            Some(i) => Some(i + 1),
            None => None,
        }
    }
}

/// Well-formedness: ordered bounds; for read-only memory, data no longer
/// than the span; for a space, well-formed subregions that sit inside its
/// bounds and pairwise pass the overlap check in lease order.
pub open spec fn spec_region_wf(r: MemRegion) -> bool
    decreases r,
{
    match r {
        MemRegion::Ram(m) => m.start <= m.end,
        MemRegion::Rom(m) => m.start <= m.end && m.cells@.len() <= m.end - m.start + 1,
        MemRegion::Space(s) => spec_space_wf(s),
    }
}

/// Well-formedness of a composite space.
pub open spec fn spec_space_wf(s: AddressSpace) -> bool
    decreases s,
{
    &&& s.start <= s.end
    &&& forall|i: int|
        0 <= i < s.mapped_regions@.len() ==> spec_region_wf(#[trigger] s.mapped_regions@[i])
    &&& forall|i: int|
        0 <= i < s.mapped_regions@.len() ==> {
            &&& s.start <= spec_region_start(#[trigger] s.mapped_regions@[i])
            &&& spec_region_end(s.mapped_regions@[i]) <= s.end
        }
    &&& forall|i: int, j: int|
        0 <= i < j < s.mapped_regions@.len() ==> !spec_overlaps(
            #[trigger] s.mapped_regions@[i],
            #[trigger] s.mapped_regions@[j],
        )
}

// ---------------------------------------------------------------------------
// First-match lemmas over the leased sequence
// ---------------------------------------------------------------------------

/// Reads, writability and the claiming subregion all follow the first
/// leased subregion whose bounds contain the address.
pub proof fn lemma_seq_via_at(subs: Seq<MemRegion>, addr: Address)
    ensures
        spec_seq_get(subs, addr) == (match spec_subregion_at(subs, addr) {
            Some(j) => spec_region_get(subs[j], addr),
            None => None::<Cell>,
        }),
        spec_seq_writable(subs, addr) == (match spec_subregion_at(subs, addr) {
            Some(j) => spec_region_writable(subs[j], addr),
            None => false,
        }),
        match spec_subregion_at(subs, addr) {
            Some(j) => 0 <= j < subs.len() && spec_region_contains(subs[j], addr) && forall|k: int|
                0 <= k < j ==> !spec_region_contains(#[trigger] subs[k], addr),
            None => forall|k: int|
                0 <= k < subs.len() ==> !spec_region_contains(#[trigger] subs[k], addr),
        },
    decreases subs.len(),
{
    if subs.len() > 0 && !spec_region_contains(subs[0], addr) {
        let tail = subs.subrange(1, subs.len() as int);
        lemma_seq_via_at(tail, addr);
        assert forall|k: int| 0 <= k < tail.len() implies tail[k] == subs[k + 1] by {}
        match spec_subregion_at(tail, addr) {
            Some(j) => {
                assert(spec_subregion_at(subs, addr) == Some(j + 1));
                assert(subs[j + 1] == tail[j]);
                assert forall|k: int| 0 <= k < j + 1 implies !spec_region_contains(
                    #[trigger] subs[k],
                    addr,
                ) by {
                    if k > 0 {
                        assert(subs[k] == tail[k - 1]);
                    }
                }
            },
            None => {
                assert forall|k: int| 0 <= k < subs.len() implies !spec_region_contains(
                    #[trigger] subs[k],
                    addr,
                ) by {
                    if k > 0 {
                        assert(subs[k] == tail[k - 1]);
                    }
                }
            },
        }
    }
}

/// A first-match scan that has passed `i` elements without a claim reads
/// on from the suffix.
proof fn lemma_seq_suffix_step(subs: Seq<MemRegion>, addr: Address, i: int)
    requires
        0 <= i < subs.len(),
        !spec_region_contains(subs[i], addr),
    ensures
        spec_seq_get(subs.subrange(i, subs.len() as int), addr) == spec_seq_get(
            subs.subrange(i + 1, subs.len() as int),
            addr,
        ),
        spec_seq_writable(subs.subrange(i, subs.len() as int), addr) == spec_seq_writable(
            subs.subrange(i + 1, subs.len() as int),
            addr,
        ),
        spec_subregion_at(subs.subrange(i, subs.len() as int), addr) is Some
            <==> spec_subregion_at(subs.subrange(i + 1, subs.len() as int), addr) is Some,
{
    let n = subs.len() as int;
    let t = subs.subrange(i, n);
    assert(t[0] == subs[i]);
    assert(t.subrange(1, t.len() as int) =~= subs.subrange(i + 1, n));
}

/// A first-match scan stopping at a claiming element `i` delegates to it.
proof fn lemma_seq_suffix_hit(subs: Seq<MemRegion>, addr: Address, i: int)
    requires
        0 <= i < subs.len(),
        spec_region_contains(subs[i], addr),
    ensures
        spec_seq_get(subs.subrange(i, subs.len() as int), addr) == spec_region_get(subs[i], addr),
        spec_seq_writable(subs.subrange(i, subs.len() as int), addr) == spec_region_writable(
            subs[i],
            addr,
        ),
{
    let t = subs.subrange(i, subs.len() as int);
    assert(t[0] == subs[i]);
}

/// Replacing one leased subregion by another with the same bounds leaves
/// the first-match index of every address unchanged.
proof fn lemma_subregion_at_update(subs: Seq<MemRegion>, i: int, nsub: MemRegion, addr: Address)
    requires
        0 <= i < subs.len(),
        spec_region_start(nsub) == spec_region_start(subs[i]),
        spec_region_end(nsub) == spec_region_end(subs[i]),
    ensures
        spec_subregion_at(subs.update(i, nsub), addr) == spec_subregion_at(subs, addr),
    decreases subs.len(),
{
    let upd = subs.update(i, nsub);
    assert(upd.len() == subs.len());
    if i == 0 {
        assert(spec_region_contains(upd[0], addr) == spec_region_contains(subs[0], addr));
        assert(upd.subrange(1, upd.len() as int) =~= subs.subrange(1, subs.len() as int));
    } else {
        assert(upd[0] == subs[0]);
        let tail = subs.subrange(1, subs.len() as int);
        assert(upd.subrange(1, upd.len() as int) =~= tail.update(i - 1, nsub));
        lemma_subregion_at_update(tail, i - 1, nsub, addr);
    }
}

// ---------------------------------------------------------------------------
// The addressable and region capabilities
// ---------------------------------------------------------------------------

/// A trait for looking up cells associated with an address.
pub trait Addressable {
    /// The cell held at `addr`, if the address is mapped.
    spec fn spec_get(&self, addr: Address) -> Option<Cell>;

    /// Whether a store to `addr` can succeed.
    spec fn spec_writable(&self, addr: Address) -> bool;

    /// Lookup the cell at a particular address.
    fn get(&self, addr: Address) -> (r: Option<Cell>)
        ensures
            r == self.spec_get(addr),
    ;

    /// Store `val` at `addr`.  Fails, changing nothing, where the address
    /// is unmapped or read-only; this is the mutable access of the model,
    /// and in sparse memory it is what materializes a cell.
    fn set(&mut self, addr: Address, val: Cell) -> (r: bool)
        ensures
            r == old(self).spec_writable(addr),
            forall|a: Address|
                final(self).spec_get(a) == (if r && a == addr {
                    Some(val)
                } else {
                    old(self).spec_get(a)
                }),
            forall|a: Address| final(self).spec_writable(a) == old(self).spec_writable(a),
    ;
}

/// The bounds of a contiguous span of addresses.  A trait of its own,
/// because a trait method cannot be generic over the trait it belongs to:
/// `Region`'s comparison methods take any bounded region.
pub trait Bounded {
    /// Lowest address in the region.
    spec fn spec_start(&self) -> Address;

    /// Highest address in the region.
    spec fn spec_end(&self) -> Address;

    fn start(&self) -> (r: Address)
        ensures
            r == self.spec_start(),
    ;

    fn end(&self) -> (r: Address)
        ensures
            r == self.spec_end(),
    ;
}

/// A trait describing a contiguous region of addressable space.
pub trait Region: Addressable + Bounded {

    /// Number of addressable cells that fit in the region.
    fn size(&self) -> (r: CellCount)
        requires
            self.spec_start() <= self.spec_end(),
            self.spec_end() - self.spec_start() < 0xffff_ffff_ffff_ffffu64,
        ensures
            r == self.spec_end() - self.spec_start() + 1,
    {
        self.end() - self.start() + 1
    }

    /// Check if an address is between the region's start and end address.
    fn contains_address(&self, addr: &Address) -> (r: bool)
        ensures
            r == (self.spec_start() <= *addr <= self.spec_end()),
    {
        *addr >= self.start() && *addr <= self.end()
    }

    /// Check if another region is fully contained by this one.
    fn contains_region<R: Bounded>(&self, region: &R) -> (r: bool)
        ensures
            r == (self.spec_start() <= region.spec_start() <= self.spec_end()
                && self.spec_start() <= region.spec_end() <= self.spec_end()),
    ;

    /// Check if another region overlaps this one: either endpoint of the
    /// other region inside this one.  The check is asymmetric (see
    /// `spec_overlaps`).
    fn overlaps_region<R: Bounded>(&self, region: &R) -> (r: bool)
        ensures
            r == (self.spec_start() <= region.spec_start() <= self.spec_end()
                || self.spec_start() <= region.spec_end() <= self.spec_end()),
    ;

    /// Store `data` cell by cell from `addr` upward.  The range must sit
    /// inside the region and every cell of it must be writable: a write
    /// that would fail part-way is a logic error and is ruled out up
    /// front.
    fn write_cells(&mut self, data: Vec<Cell>, addr: Address)
        requires
            data@.len() >= 1,
            old(self).spec_start() <= addr,
            addr + data@.len() - 1 <= old(self).spec_end(),
            forall|k: int| 0 <= k < data@.len() ==> old(self).spec_writable(#[trigger] ((addr + k) as Address)),
        ensures
            forall|a: Address|
                final(self).spec_get(a) == (if addr <= a < addr + data@.len() {
                    Some(data@[a - addr])
                } else {
                    old(self).spec_get(a)
                }),
            forall|a: Address| final(self).spec_writable(a) == old(self).spec_writable(a),
    {
        let mut k: usize = 0;
        while k < data.len()
            invariant
                k <= data@.len(),
                addr + data@.len() - 1 <= 0xffff_ffff_ffff_ffffu64,
                forall|j: int|
                    0 <= j < data@.len() ==> old(self).spec_writable(
                        #[trigger] ((addr + j) as Address),
                    ),
                forall|a: Address|
                    self.spec_get(a) == (if addr <= a < addr + k {
                        Some(data@[a - addr])
                    } else {
                        old(self).spec_get(a)
                    }),
                forall|a: Address| self.spec_writable(a) == old(self).spec_writable(a),
            decreases data@.len() - k,
        {
            let _ok = self.set(addr + k as u64, data[k]);
            k = k + 1;
        }
    }

    /// Read the inclusive range `[low, high]`, or `None` as soon as any
    /// cell in the range is unmapped, discarding partial results.
    fn read_cells(&self, low: Address, high: Address) -> (r: Option<Vec<Cell>>)
        requires
            low <= high,
            high - low < usize::MAX,
        ensures
            match r {
                Some(v) => v@.len() == high - low + 1 && forall|k: int|
                    0 <= k <= high - low ==> Some(#[trigger] v@[k]) == self.spec_get(
                        (low + k) as Address,
                    ),
                None => exists|a: Address| low <= a <= high && self.spec_get(a) is None,
            },
    {
        let size = high - low + 1;
        let mut ret: Vec<Cell> = Vec::new();
        let mut k: usize = 0;
        while (k as u64) < size
            invariant
                low <= high,
                high - low < usize::MAX,
                size == high - low + 1,
                k as int <= size,
                ret@.len() == k,
                forall|j: int|
                    0 <= j < k ==> Some(#[trigger] ret@[j]) == self.spec_get((low + j) as Address),
            decreases size - k,
        {
            let a = low + k as u64;
            match self.get(a) {
                Some(cell) => ret.push(cell),
                None => {
                    proof {
                        assert(low <= a <= high && self.spec_get(a) is None);
                    }
                    return None;
                },
            }
            k = k + 1;
        }
        Some(ret)
    }
}

// ---------------------------------------------------------------------------
// Executable region access
// ---------------------------------------------------------------------------

fn region_start_of(r: &MemRegion) -> (a: Address)
    ensures
        a == spec_region_start(*r),
{
    match r {
        MemRegion::Ram(m) => m.start,
        MemRegion::Rom(m) => m.start,
        MemRegion::Space(s) => s.start,
    }
}

fn region_end_of(r: &MemRegion) -> (a: Address)
    ensures
        a == spec_region_end(*r),
{
    match r {
        MemRegion::Ram(m) => m.end,
        MemRegion::Rom(m) => m.end,
        MemRegion::Space(s) => s.end,
    }
}

/// The recursive cell lookup behind `Addressable::get`.
fn region_get(r: &MemRegion, addr: Address) -> (res: Option<Cell>)
    ensures
        res == spec_region_get(*r, addr),
    decreases *r,
{
    match r {
        MemRegion::Ram(m) => {
            if m.start <= addr && addr <= m.end {
                match m.cells.get(&addr) {
                    Some(c) => Some(*c),
                    None => Some(0),
                }
            } else {
                None
            }
        },
        MemRegion::Rom(m) => {
            if m.start <= addr && addr <= m.end {
                let index = addr - m.start;
                if index < m.cells.len() as u64 {
                    Some(m.cells[index as usize])
                } else {
                    None
                }
            } else {
                None
            }
        },
        MemRegion::Space(s) => space_get(s, addr),
    }
}

/// The linear first-match scan behind a space's cell lookup.
fn space_get(s: &AddressSpace, addr: Address) -> (res: Option<Cell>)
    ensures
        res == spec_seq_get(s.mapped_regions@, addr),
    decreases *s,
{
    let ghost subs = s.mapped_regions@;
    let n = s.mapped_regions.len();
    proof {
        assert(subs.subrange(0, n as int) =~= subs);
    }
    let mut i: usize = 0;
    while i < n
        invariant
            n == subs.len(),
            i <= n,
            subs == s.mapped_regions@,
            spec_seq_get(subs.subrange(i as int, n as int), addr) == spec_seq_get(subs, addr),
        decreases n - i,
    {
        let sub = &s.mapped_regions[i];
        if region_start_of(sub) <= addr && addr <= region_end_of(sub) {
            proof {
                lemma_seq_suffix_hit(subs, addr, i as int);
            }
            return region_get(sub, addr);
        }
        proof {
            lemma_seq_suffix_step(subs, addr, i as int);
        }
        i = i + 1;
    }
    None
}

/// The recursive store behind `Addressable::set`.
fn region_set(r: &mut MemRegion, addr: Address, val: Cell) -> (res: bool)
    ensures
        res == spec_region_writable(*old(r), addr),
        spec_region_start(*final(r)) == spec_region_start(*old(r)),
        spec_region_end(*final(r)) == spec_region_end(*old(r)),
        forall|a: Address|
            spec_region_get(*final(r), a) == (if res && a == addr {
                Some(val)
            } else {
                spec_region_get(*old(r), a)
            }),
        forall|a: Address| spec_region_writable(*final(r), a) == spec_region_writable(*old(r), a),
        spec_region_wf(*old(r)) ==> spec_region_wf(*final(r)),
    decreases *old(r),
{
    let mut tmp = MemRegion::Rom(ReadOnlyMemory { start: 0, end: 0, cells: Vec::new() });
    core::mem::swap(r, &mut tmp);
    match tmp {
        MemRegion::Ram(m) => {
            let mut m = m;
            let res = if m.start <= addr && addr <= m.end {
                m.cells.insert(addr, val);
                true
            } else {
                false
            };
            *r = MemRegion::Ram(m);
            res
        },
        MemRegion::Rom(m) => {
            *r = MemRegion::Rom(m);
            false
        },
        MemRegion::Space(s) => {
            let mut s = s;
            let res = space_set(&mut s, addr, val);
            *r = MemRegion::Space(s);
            proof {
                let s0 = old(r)->Space_0;
                assert(*old(r) == MemRegion::Space(s0));
                assert forall|a: Address|
                    spec_region_get(*r, a) == (if res && a == addr {
                        Some(val)
                    } else {
                        spec_region_get(*old(r), a)
                    }) by {
                    assert(spec_region_get(MemRegion::Space(s), a) == spec_seq_get(
                        s.mapped_regions@,
                        a,
                    ));
                    assert(spec_region_get(MemRegion::Space(s0), a) == spec_seq_get(
                        s0.mapped_regions@,
                        a,
                    ));
                }
                assert forall|a: Address|
                    spec_region_writable(*r, a) == spec_region_writable(*old(r), a) by {
                    assert(spec_region_writable(MemRegion::Space(s), a) == spec_seq_writable(
                        s.mapped_regions@,
                        a,
                    ));
                    assert(spec_region_writable(MemRegion::Space(s0), a) == spec_seq_writable(
                        s0.mapped_regions@,
                        a,
                    ));
                }
            }
            res
        },
    }
}

/// The linear first-match store behind a space's `set`.
fn space_set(s: &mut AddressSpace, addr: Address, val: Cell) -> (res: bool)
    ensures
        res == spec_seq_writable(old(s).mapped_regions@, addr),
        final(s).start == old(s).start,
        final(s).end == old(s).end,
        final(s).mapped_regions@.len() == old(s).mapped_regions@.len(),
        forall|a: Address|
            spec_seq_get(final(s).mapped_regions@, a) == (if res && a == addr {
                Some(val)
            } else {
                spec_seq_get(old(s).mapped_regions@, a)
            }),
        forall|a: Address|
            spec_seq_writable(final(s).mapped_regions@, a) == spec_seq_writable(
                old(s).mapped_regions@,
                a,
            ),
        spec_space_wf(*old(s)) ==> spec_space_wf(*final(s)),
    decreases *old(s),
{
    let ghost subs = old(s).mapped_regions@;
    let n = s.mapped_regions.len();
    let mut i: usize = 0;
    while i < n
        invariant
            n == subs.len(),
            i <= n,
            *s == *old(s),
            subs == s.mapped_regions@,
            forall|k: int| 0 <= k < i ==> !spec_region_contains(#[trigger] subs[k], addr),
        decreases n - i,
    {
        let sub_start = region_start_of(&s.mapped_regions[i]);
        let sub_end = region_end_of(&s.mapped_regions[i]);
        if sub_start <= addr && addr <= sub_end {
            let ghost osub = subs[i as int];
            let target = &mut s.mapped_regions[i];
            let res = region_set(target, addr, val);
            proof {
                let nsub = *final(target);
                let nsubs = s.mapped_regions@;
                assert(nsubs =~= subs.update(i as int, nsub));
                lemma_seq_via_at(subs, addr);
                lemma_seq_via_at(nsubs, addr);
                assert(spec_subregion_at(subs, addr) == Some(i as int));
                lemma_subregion_at_update(subs, i as int, nsub, addr);
                assert(spec_subregion_at(nsubs, addr) == Some(i as int));
                assert forall|a: Address|
                    spec_seq_get(nsubs, a) == (if res && a == addr {
                        Some(val)
                    } else {
                        spec_seq_get(subs, a)
                    }) by {
                    lemma_seq_via_at(subs, a);
                    lemma_seq_via_at(nsubs, a);
                    lemma_subregion_at_update(subs, i as int, nsub, a);
                }
                assert forall|a: Address|
                    spec_seq_writable(nsubs, a) == spec_seq_writable(subs, a) by {
                    lemma_seq_via_at(subs, a);
                    lemma_seq_via_at(nsubs, a);
                    lemma_subregion_at_update(subs, i as int, nsub, a);
                }
                assert(spec_space_wf(*old(s)) ==> spec_space_wf(*s)) by {
                    if spec_space_wf(*old(s)) {
                        assert forall|k: int|
                            0 <= k < nsubs.len() implies spec_region_wf(#[trigger] nsubs[k]) by {
                            if k != i as int {
                                assert(nsubs[k] == subs[k]);
                            }
                        }
                        assert forall|k: int, l: int|
                            0 <= k < l < nsubs.len() implies !spec_overlaps(
                            #[trigger] nsubs[k],
                            #[trigger] nsubs[l],
                        ) by {
                            assert(spec_region_start(nsubs[k]) == spec_region_start(subs[k])
                                && spec_region_end(nsubs[k]) == spec_region_end(subs[k]));
                            assert(spec_region_start(nsubs[l]) == spec_region_start(subs[l])
                                && spec_region_end(nsubs[l]) == spec_region_end(subs[l]));
                            assert(!spec_overlaps(subs[k], subs[l]));
                        }
                    }
                }
            }
            return res;
        }
        i = i + 1;
    }
    proof {
        lemma_seq_via_at(subs, addr);
    }
    false
}

// ---------------------------------------------------------------------------
// Trait implementations for the region types
// ---------------------------------------------------------------------------

impl Addressable for RandomAccessMemory {
    open spec fn spec_get(&self, addr: Address) -> Option<Cell> {
        spec_region_get(MemRegion::Ram(*self), addr)
    }

    open spec fn spec_writable(&self, addr: Address) -> bool {
        spec_region_writable(MemRegion::Ram(*self), addr)
    }

    fn get(&self, addr: Address) -> (r: Option<Cell>) {
        if self.start <= addr && addr <= self.end {
            match self.cells.get(&addr) {
                Some(c) => Some(*c),
                None => Some(0),
            }
        } else {
            None
        }
    }

    fn set(&mut self, addr: Address, val: Cell) -> (r: bool)
        ensures
            final(self).start == old(self).start,
            final(self).end == old(self).end,
            final(self).cells@ == (if r {
                old(self).cells@.insert(addr, val)
            } else {
                old(self).cells@
            }),
    {
        if self.start <= addr && addr <= self.end {
            self.cells.insert(addr, val);
            true
        } else {
            false
        }
    }
}

impl Bounded for RandomAccessMemory {
    open spec fn spec_start(&self) -> Address {
        self.start
    }

    open spec fn spec_end(&self) -> Address {
        self.end
    }

    fn start(&self) -> (r: Address) {
        self.start
    }

    fn end(&self) -> (r: Address) {
        self.end
    }
}

impl Region for RandomAccessMemory {
    fn contains_region<R: Bounded>(&self, region: &R) -> (r: bool) {
        self.contains_address(&region.start()) && self.contains_address(&region.end())
    }

    fn overlaps_region<R: Bounded>(&self, region: &R) -> (r: bool) {
        self.contains_address(&region.start()) || self.contains_address(&region.end())
    }
}

impl Addressable for ReadOnlyMemory {
    open spec fn spec_get(&self, addr: Address) -> Option<Cell> {
        spec_region_get(MemRegion::Rom(*self), addr)
    }

    open spec fn spec_writable(&self, addr: Address) -> bool {
        false
    }

    fn get(&self, addr: Address) -> (r: Option<Cell>) {
        if self.start <= addr && addr <= self.end {
            let index = addr - self.start;
            if index < self.cells.len() as u64 {
                Some(self.cells[index as usize])
            } else {
                None
            }
        } else {
            None
        }
    }

    /// Mutable access to read-only memory always fails.
    fn set(&mut self, addr: Address, val: Cell) -> (r: bool)
        ensures
            *final(self) == *old(self),
    {
        false
    }
}

impl Bounded for ReadOnlyMemory {
    open spec fn spec_start(&self) -> Address {
        self.start
    }

    open spec fn spec_end(&self) -> Address {
        self.end
    }

    fn start(&self) -> (r: Address) {
        self.start
    }

    fn end(&self) -> (r: Address) {
        self.end
    }
}

impl Region for ReadOnlyMemory {
    fn contains_region<R: Bounded>(&self, region: &R) -> (r: bool) {
        self.contains_address(&region.start()) && self.contains_address(&region.end())
    }

    fn overlaps_region<R: Bounded>(&self, region: &R) -> (r: bool) {
        self.contains_address(&region.start()) || self.contains_address(&region.end())
    }
}

impl Addressable for MemRegion {
    open spec fn spec_get(&self, addr: Address) -> Option<Cell> {
        spec_region_get(*self, addr)
    }

    open spec fn spec_writable(&self, addr: Address) -> bool {
        spec_region_writable(*self, addr)
    }

    fn get(&self, addr: Address) -> (r: Option<Cell>) {
        region_get(self, addr)
    }

    fn set(&mut self, addr: Address, val: Cell) -> (r: bool)
        ensures
            spec_region_start(*final(self)) == spec_region_start(*old(self)),
            spec_region_end(*final(self)) == spec_region_end(*old(self)),
            spec_region_wf(*old(self)) ==> spec_region_wf(*final(self)),
    {
        region_set(self, addr, val)
    }
}

impl Bounded for MemRegion {
    open spec fn spec_start(&self) -> Address {
        spec_region_start(*self)
    }

    open spec fn spec_end(&self) -> Address {
        spec_region_end(*self)
    }

    fn start(&self) -> (r: Address) {
        region_start_of(self)
    }

    fn end(&self) -> (r: Address) {
        region_end_of(self)
    }
}

impl Region for MemRegion {
    fn contains_region<R: Bounded>(&self, region: &R) -> (r: bool) {
        self.contains_address(&region.start()) && self.contains_address(&region.end())
    }

    fn overlaps_region<R: Bounded>(&self, region: &R) -> (r: bool) {
        self.contains_address(&region.start()) || self.contains_address(&region.end())
    }
}

impl Addressable for AddressSpace {
    open spec fn spec_get(&self, addr: Address) -> Option<Cell> {
        spec_seq_get(self.mapped_regions@, addr)
    }

    open spec fn spec_writable(&self, addr: Address) -> bool {
        spec_seq_writable(self.mapped_regions@, addr)
    }

    fn get(&self, addr: Address) -> (r: Option<Cell>) {
        space_get(self, addr)
    }

    fn set(&mut self, addr: Address, val: Cell) -> (r: bool)
        ensures
            final(self).start == old(self).start,
            final(self).end == old(self).end,
            final(self).mapped_regions@.len() == old(self).mapped_regions@.len(),
            spec_space_wf(*old(self)) ==> spec_space_wf(*final(self)),
    {
        space_set(self, addr, val)
    }
}

impl Bounded for AddressSpace {
    open spec fn spec_start(&self) -> Address {
        self.start
    }

    open spec fn spec_end(&self) -> Address {
        self.end
    }

    fn start(&self) -> (r: Address) {
        self.start
    }

    fn end(&self) -> (r: Address) {
        self.end
    }
}

impl Region for AddressSpace {
    fn contains_region<R: Bounded>(&self, region: &R) -> (r: bool) {
        self.contains_address(&region.start()) && self.contains_address(&region.end())
    }

    fn overlaps_region<R: Bounded>(&self, region: &R) -> (r: bool) {
        self.contains_address(&region.start()) || self.contains_address(&region.end())
    }
}

// ---------------------------------------------------------------------------
// Constructors
// ---------------------------------------------------------------------------

impl RandomAccessMemory {
    /// Sparse memory over the inclusive range bounded by `a` and `b`, with
    /// no cell materialized yet.
    pub fn new(a: Address, b: Address) -> (m: RandomAccessMemory)
        ensures
            m.start == (if a <= b { a } else { b }),
            m.end == (if a <= b { b } else { a }),
            m.cells@ == Map::<Address, Cell>::empty(),
            spec_region_wf(MemRegion::Ram(m)),
    {
        let (low, high) = if a <= b { (a, b) } else { (b, a) };
        RandomAccessMemory { start: low, end: high, cells: HashMap::new() }
    }
}

impl ReadOnlyMemory {
    /// Read-only memory over the inclusive range bounded by `a` and `b`,
    /// filled from `data`, which must fit in the span; the rest of the span
    /// is absent.
    pub fn new(a: Address, b: Address, data: Vec<Cell>) -> (m: ReadOnlyMemory)
        requires
            data@.len() <= (if a <= b { b - a } else { a - b }) + 1,
        ensures
            m.start == (if a <= b { a } else { b }),
            m.end == (if a <= b { b } else { a }),
            m.cells@ == data@,
            spec_region_wf(MemRegion::Rom(m)),
    {
        let (low, high) = if a <= b { (a, b) } else { (b, a) };
        ReadOnlyMemory { start: low, end: high, cells: data }
    }
}

impl AddressSpace {
    /// The full 32-bit span with nothing leased.
    pub fn new() -> (s: AddressSpace)
        ensures
            s.start == 0,
            s.end == 0xffffffffu64,
            s.mapped_regions@ == Seq::<MemRegion>::empty(),
            spec_space_wf(s),
    {
        AddressSpace { start: 0x00000000, end: 0xffffffff, mapped_regions: Vec::new() }
    }

    /// An empty space over the inclusive range bounded by `a` and `b`.
    pub fn from_range(a: Address, b: Address) -> (s: AddressSpace)
        ensures
            s.start == (if a <= b { a } else { b }),
            s.end == (if a <= b { b } else { a }),
            s.mapped_regions@ == Seq::<MemRegion>::empty(),
            spec_space_wf(s),
    {
        let (low, high) = if a <= b { (a, b) } else { (b, a) };
        AddressSpace { start: low, end: high, mapped_regions: Vec::new() }
    }
}

// ---------------------------------------------------------------------------
// Leasing
// ---------------------------------------------------------------------------

/// Availability of the span `[c_start, c_end]` for lease in a region with
/// bounds `[start, end]` and subregions `leased`: full containment, and no
/// overlap (as the asymmetric check sees it) with anything leased.
pub open spec fn spec_available(
    start: Address,
    end: Address,
    leased: Seq<MemRegion>,
    c_start: Address,
    c_end: Address,
) -> bool {
    &&& start <= c_start <= end
    &&& start <= c_end <= end
    &&& forall|i: int|
        0 <= i < leased.len() ==> !(spec_region_contains(#[trigger] leased[i], c_start)
            || spec_region_contains(leased[i], c_end))
}

/// A trait for a region of addressable space that can lease control over
/// its subregions.
pub trait LeasableRegion: Region {
    /// The leased subregions, in lease order.
    spec fn spec_leased(&self) -> Seq<MemRegion>;

    /// Check if a candidate's region is available for lease, meaning it is
    /// fully contained by this region and does not overlap with any of the
    /// currently leased subregions.
    fn available_for_lease<R: Bounded>(&self, candidate: &R) -> (r: bool)
        ensures
            r == spec_available(
                self.spec_start(),
                self.spec_end(),
                self.spec_leased(),
                candidate.spec_start(),
                candidate.spec_end(),
            ),
    ;

    /// Try to lease a subregion to a candidate region.  Only succeeds if
    /// `available_for_lease` is true; ownership of the candidate then
    /// transfers to this region and its index among the leased subregions
    /// is handed back.  On failure the candidate is returned unconsumed.
    fn lease(&mut self, candidate: MemRegion) -> (r: Result<usize, MemRegion>)
        ensures
            match r {
                Ok(i) => {
                    &&& spec_available(
                        old(self).spec_start(),
                        old(self).spec_end(),
                        old(self).spec_leased(),
                        spec_region_start(candidate),
                        spec_region_end(candidate),
                    )
                    &&& i == old(self).spec_leased().len()
                    &&& final(self).spec_leased() == old(self).spec_leased().push(candidate)
                    &&& final(self).spec_start() == old(self).spec_start()
                    &&& final(self).spec_end() == old(self).spec_end()
                },
                Err(c) => {
                    &&& c == candidate
                    &&& final(self).spec_leased() == old(self).spec_leased()
                    &&& final(self).spec_start() == old(self).spec_start()
                    &&& final(self).spec_end() == old(self).spec_end()
                    &&& !spec_available(
                        old(self).spec_start(),
                        old(self).spec_end(),
                        old(self).spec_leased(),
                        spec_region_start(candidate),
                        spec_region_end(candidate),
                    )
                },
            },
    ;

    fn leased_subregions(&self) -> (r: &Vec<MemRegion>)
        ensures
            r@ == self.spec_leased(),
    ;

    /// The first leased subregion whose bounds contain `addr`, if any.
    fn leased_subregion_at(&self, addr: Address) -> (r: Option<&MemRegion>)
        ensures
            match spec_subregion_at(self.spec_leased(), addr) {
                Some(j) => r is Some && *r->Some_0 == self.spec_leased()[j],
                None => r is None,
            },
    ;
}

impl LeasableRegion for AddressSpace {
    open spec fn spec_leased(&self) -> Seq<MemRegion> {
        self.mapped_regions@
    }

    fn available_for_lease<R: Bounded>(&self, candidate: &R) -> (r: bool) {
        if !self.contains_region(candidate) {
            return false;
        }
        let n = self.mapped_regions.len();
        let mut i: usize = 0;
        while i < n
            invariant
                n == self.mapped_regions@.len(),
                i <= n,
                forall|k: int|
                    0 <= k < i ==> !(spec_region_contains(
                        #[trigger] self.mapped_regions@[k],
                        candidate.spec_start(),
                    ) || spec_region_contains(self.mapped_regions@[k], candidate.spec_end())),
            decreases n - i,
        {
            if self.mapped_regions[i].overlaps_region(candidate) {
                return false;
            }
            i = i + 1;
        }
        true
    }

    fn lease(&mut self, candidate: MemRegion) -> (r: Result<usize, MemRegion>)
        ensures
            r is Err ==> *final(self) == *old(self),
            (r is Ok && spec_space_wf(*old(self)) && spec_region_wf(candidate)
                && spec_region_start(candidate) <= spec_region_end(candidate)) ==> spec_space_wf(
                *final(self),
            ),
    {
        let ghost s0 = *self;
        if self.available_for_lease(&candidate) {
            let i = self.mapped_regions.len();
            self.mapped_regions.push(candidate);
            proof {
                if spec_space_wf(s0) && spec_region_wf(candidate) && spec_region_start(candidate)
                    <= spec_region_end(candidate) {
                    lemma_lease_preserves_wf(s0, *self, candidate);
                }
            }
            Ok(i)
        } else {
            Err(candidate)
        }
    }

    fn leased_subregions(&self) -> (r: &Vec<MemRegion>) {
        &self.mapped_regions
    }

    fn leased_subregion_at(&self, addr: Address) -> (r: Option<&MemRegion>) {
        let ghost subs = self.mapped_regions@;
        proof {
            lemma_seq_via_at(subs, addr);
        }
        let n = self.mapped_regions.len();
        let mut i: usize = 0;
        while i < n
            invariant
                n == subs.len(),
                subs == self.mapped_regions@,
                i <= n,
                forall|k: int| 0 <= k < i ==> !spec_region_contains(#[trigger] subs[k], addr),
            decreases n - i,
        {
            let sub = &self.mapped_regions[i];
            if region_start_of(sub) <= addr && addr <= region_end_of(sub) {
                proof {
                    lemma_seq_via_at(subs, addr);
                    match spec_subregion_at(subs, addr) {
                        Some(j) => {
                            if j < i as int {
                                assert(!spec_region_contains(subs[j], addr));
                            }
                            if j > i as int {
                                assert(!spec_region_contains(subs[i as int], addr));
                            }
                            assert(j == i as int);
                        },
                        None => {
                            assert(!spec_region_contains(subs[i as int], addr));
                        },
                    }
                }
                return Some(sub);
            }
            i = i + 1;
        }
        proof {
            lemma_seq_via_at(subs, addr);
            if spec_subregion_at(subs, addr) is Some {
                let j = spec_subregion_at(subs, addr)->Some_0;
                assert(!spec_region_contains(subs[j], addr));
            }
        }
        None
    }
}

// ---------------------------------------------------------------------------
// Leasing laws
// ---------------------------------------------------------------------------

/// An address claimed by nothing yet resolves to a newly pushed subregion
/// that claims it.
proof fn lemma_subregion_at_push_last(subs: Seq<MemRegion>, c: MemRegion, a: Address)
    requires
        forall|k: int| 0 <= k < subs.len() ==> !spec_region_contains(#[trigger] subs[k], a),
        spec_region_contains(c, a),
    ensures
        spec_subregion_at(subs.push(c), a) == Some(subs.len() as int),
        spec_seq_get(subs.push(c), a) == spec_region_get(c, a),
    decreases subs.len(),
{
    let p = subs.push(c);
    if subs.len() == 0 {
        assert(p[0] == c);
    } else {
        assert(p[0] == subs[0]);
        assert(!spec_region_contains(p[0], a));
        let tail = subs.subrange(1, subs.len() as int);
        assert(p.subrange(1, p.len() as int) =~= tail.push(c));
        assert forall|k: int| 0 <= k < tail.len() implies !spec_region_contains(
            #[trigger] tail[k],
            a,
        ) by {
            assert(tail[k] == subs[k + 1]);
        }
        lemma_subregion_at_push_last(tail, c, a);
    }
}

/// The leasing law for disjoint candidates: a candidate whose span lies
/// inside the bounds and shares no address with any leased subregion is
/// available for lease, and after the lease every address inside it
/// resolves to it, for claims and for reads.
pub proof fn lemma_lease_disjoint_succeeds(s: AddressSpace, c: MemRegion)
    requires
        s.start <= spec_region_start(c),
        spec_region_end(c) <= s.end,
        spec_region_start(c) <= spec_region_end(c),
        forall|i: int|
            0 <= i < s.mapped_regions@.len() ==> (spec_region_end(#[trigger] s.mapped_regions@[i])
                < spec_region_start(c) || spec_region_end(c) < spec_region_start(
                s.mapped_regions@[i],
            )),
    ensures
        spec_available(s.start, s.end, s.mapped_regions@, spec_region_start(c), spec_region_end(c)),
        forall|a: Address|
            spec_region_contains(c, a) ==> spec_subregion_at(s.mapped_regions@.push(c), a)
                == Some(s.mapped_regions@.len() as int),
        forall|a: Address|
            spec_region_contains(c, a) ==> spec_seq_get(s.mapped_regions@.push(c), a)
                == spec_region_get(c, a),
{
    let subs = s.mapped_regions@;
    assert forall|a: Address| spec_region_contains(c, a) implies spec_subregion_at(
        subs.push(c),
        a,
    ) == Some(subs.len() as int) && spec_seq_get(subs.push(c), a) == spec_region_get(c, a) by {
        assert forall|k: int| 0 <= k < subs.len() implies !spec_region_contains(
            #[trigger] subs[k],
            a,
        ) by {}
        lemma_subregion_at_push_last(subs, c, a);
    }
}

/// A successful lease of a well-formed candidate keeps the space well
/// formed.
pub proof fn lemma_lease_preserves_wf(s0: AddressSpace, s1: AddressSpace, c: MemRegion)
    requires
        spec_space_wf(s0),
        spec_region_wf(c),
        spec_region_start(c) <= spec_region_end(c),
        spec_available(s0.start, s0.end, s0.mapped_regions@, spec_region_start(c), spec_region_end(c)),
        s1.start == s0.start,
        s1.end == s0.end,
        s1.mapped_regions@ == s0.mapped_regions@.push(c),
    ensures
        spec_space_wf(s1),
{
    let subs = s0.mapped_regions@;
    let n = subs.len() as int;
    let p = s1.mapped_regions@;
    assert forall|i: int| 0 <= i < p.len() implies spec_region_wf(#[trigger] p[i]) by {
        if i < n {
            assert(p[i] == subs[i]);
        } else {
            assert(p[i] == c);
        }
    }
    assert forall|i: int|
        0 <= i < p.len() implies s1.start <= spec_region_start(#[trigger] p[i])
        && spec_region_end(p[i]) <= s1.end by {
        if i < n {
            assert(p[i] == subs[i]);
        } else {
            assert(p[i] == c);
        }
    }
    assert forall|i: int, j: int| 0 <= i < j < p.len() implies !spec_overlaps(
        #[trigger] p[i],
        #[trigger] p[j],
    ) by {
        if j < n {
            assert(p[i] == subs[i] && p[j] == subs[j]);
        } else {
            assert(p[i] == subs[i] && p[j] == c);
            assert(!(spec_region_contains(subs[i], spec_region_start(c))
                || spec_region_contains(subs[i], spec_region_end(c))));
        }
    }
}

/// The rejection law for detected overlaps: a candidate that starts or
/// ends inside some already leased subregion is not available for lease;
/// by `lease`'s contract the failed lease then leaves the leased list
/// unchanged.
pub proof fn lemma_lease_overlap_fails(s: AddressSpace, c: MemRegion, i: int)
    requires
        0 <= i < s.mapped_regions@.len(),
        spec_overlaps(s.mapped_regions@[i], c),
    ensures
        !spec_available(
            s.start,
            s.end,
            s.mapped_regions@,
            spec_region_start(c),
            spec_region_end(c),
        ),
{
}

/// The bounds law: a candidate partly or fully outside a space's bounds is
/// never available for lease, whatever is already leased.
pub proof fn lemma_lease_out_of_bounds_fails(s: AddressSpace, c: MemRegion)
    requires
        !(s.start <= spec_region_start(c) <= s.end && s.start <= spec_region_end(c) <= s.end),
    ensures
        !spec_available(
            s.start,
            s.end,
            s.mapped_regions@,
            spec_region_start(c),
            spec_region_end(c),
        ),
{
}

/// The round-trip law: in any state where `write_cells` has just stored
/// `data` at `addr` (the state its postcondition describes), a value
/// meeting `read_cells`'s postcondition for the written range is exactly
/// `data` again.
pub proof fn lemma_write_read_round_trip(
    s: AddressSpace,
    data: Seq<Cell>,
    addr: Address,
    r: Option<Vec<Cell>>,
)
    requires
        data.len() >= 1,
        addr + data.len() - 1 <= 0xffff_ffff_ffff_ffffu64,
        forall|a: Address|
            addr <= a < addr + data.len() ==> s.spec_get(a) == Some(data[a - addr]),
        match r {
            Some(v) => v@.len() == data.len() && (forall|k: int|
                0 <= k < data.len() ==> Some(#[trigger] v@[k]) == s.spec_get(
                    (addr + k) as Address,
                )),
            None => exists|a: Address| addr <= a <= addr + data.len() - 1 && s.spec_get(a) is None,
        },
    ensures
        r is Some,
        r->Some_0@ == data,
{
    match r {
        Some(v) => {
            assert forall|k: int| 0 <= k < data.len() implies v@[k] == data[k] by {
                let a = (addr + k) as Address;
                assert(s.spec_get(a) == Some(data[a - addr]));
            }
            assert(v@ =~= data);
        },
        None => {
            let a = choose|a: Address|
                addr <= a <= addr + data.len() - 1 && s.spec_get(a) is None;
            assert(s.spec_get(a) == Some(data[a - addr]));
        },
    }
}

// ---------------------------------------------------------------------------
// The 32-bit memory map
// ---------------------------------------------------------------------------

/// The 32-bit memory map splits the span in three: ROM, RAM and I/O below
/// 0x40000000 (holding the boot image at its base), mapped I/O up to
/// 0x7fffffff, and dynamic RAM above.
pub struct MemMap32 {
    pub address_space: AddressSpace,
}

/// The cell the fresh memory map yields at `a`: the boot image at the
/// bottom, nothing up to the end of the mapped-I/O span, and zeroed
/// dynamic RAM above it.
pub open spec fn spec_memmap32_cell(boot: Seq<Cell>, a: Address) -> Option<Cell> {
    if a < boot.len() {
        Some(boot[a as int])
    } else if a <= 0x7fffffffu64 {
        None
    } else if a <= 0xffffffffu64 {
        Some(0)
    } else {
        None
    }
}

/// In a fresh memory map exactly the dynamic RAM accepts writes.
pub open spec fn spec_memmap32_writable(a: Address) -> bool {
    0x80000000u64 <= a <= 0xffffffffu64
}

/// The 32-bit word assembled from the four cells at `addr`, honoring the
/// requested endianness; absent as soon as any of the four is unmapped.
pub open spec fn spec_get32(mm: MemMap32, addr: Address, big_endian: bool) -> Option<u32> {
    let c0 = mm.address_space.spec_get(addr);
    let c1 = mm.address_space.spec_get((addr + 1) as Address);
    let c2 = mm.address_space.spec_get((addr + 2) as Address);
    let c3 = mm.address_space.spec_get((addr + 3) as Address);
    if c0 is Some && c1 is Some && c2 is Some && c3 is Some {
        if big_endian {
            Some(
                (((c0->Some_0 as u32) * 0x1000000) + ((c1->Some_0 as u32) * 0x10000) + ((c2->Some_0
                    as u32) * 0x100) + (c3->Some_0 as u32)) as u32,
            )
        } else {
            Some(
                (((c3->Some_0 as u32) * 0x1000000) + ((c2->Some_0 as u32) * 0x10000) + ((c1->Some_0
                    as u32) * 0x100) + (c0->Some_0 as u32)) as u32,
            )
        }
    } else {
        None
    }
}

impl MemMap32 {
    /// Create a new 32-bit memory map, with the provided boot machine code
    /// loaded into a ROM chip mapped to address 0x00000000.
    pub fn new(boot_code: Vec<Cell>) -> (mm: MemMap32)
        requires
            boot_code@.len() < 0x10000,
        ensures
            mm.address_space.start == 0,
            mm.address_space.end == 0xffffffffu64,
            spec_space_wf(mm.address_space),
            forall|a: Address|
                mm.address_space.spec_get(a) == spec_memmap32_cell(boot_code@, a),
            forall|a: Address| mm.address_space.spec_writable(a) == spec_memmap32_writable(a),
    {
        let ghost boot = boot_code@;
        let mut rom_ram_io = AddressSpace::from_range(0x00000000, 0x3fffffff);
        let mapped_io = AddressSpace::from_range(0x40000000, 0x7fffffff);
        let dram = RandomAccessMemory::new(0x80000000, 0xffffffff);

        let boot_rom = ReadOnlyMemory::new(0x00000000, 0x0000ffff, boot_code);
        let ghost romv = MemRegion::Rom(boot_rom);
        let lease_rom = rom_ram_io.lease(MemRegion::Rom(boot_rom));
        proof {
            assert(lease_rom is Ok);
        }

        let ghost r1 = rom_ram_io;
        let mut map = AddressSpace::from_range(0x00000000, 0xffffffff);
        let lease1 = map.lease(MemRegion::Space(rom_ram_io));
        proof {
            assert(lease1 is Ok);
        }
        let lease2 = map.lease(MemRegion::Space(mapped_io));
        proof {
            assert(lease2 is Ok);
        }
        let lease3 = map.lease(MemRegion::Ram(dram));
        proof {
            assert(lease3 is Ok);
        }

        proof {
            let subs = map.mapped_regions@;
            let s1 = MemRegion::Space(r1);
            let s2 = MemRegion::Space(mapped_io);
            let s3 = MemRegion::Ram(dram);
            assert(subs =~= Seq::<MemRegion>::empty().push(s1).push(s2).push(s3));
            assert(subs.len() == 3 && subs[0] == s1 && subs[1] == s2 && subs[2] == s3);
            let t1 = subs.subrange(1, 3);
            assert(t1.len() == 2 && t1[0] == s2 && t1[1] == s3);
            let t2 = t1.subrange(1, 2);
            assert(t2 =~= subs.subrange(2, 3));
            assert(t2.len() == 1 && t2[0] == s3);
            let t3 = t2.subrange(1, 1);
            assert(t3.len() == 0);
            let inner = r1.mapped_regions@;
            assert(inner.len() == 1 && inner[0] == romv);
            let i1 = inner.subrange(1, 1);
            assert(i1.len() == 0);

            assert forall|a: Address|
                spec_seq_get(subs, a) == spec_memmap32_cell(boot, a) by {
                assert(t1.subrange(1, t1.len() as int) =~= t2);
                assert(t2.subrange(1, t2.len() as int) =~= t3);
                assert(inner.subrange(1, inner.len() as int) =~= i1);
                if a <= 0x3fffffffu64 {
                    assert(spec_region_contains(s1, a));
                    assert(spec_seq_get(subs, a) == spec_region_get(s1, a));
                    assert(spec_region_get(s1, a) == spec_seq_get(inner, a));
                    if a <= 0xffffu64 {
                        assert(spec_seq_get(inner, a) == spec_region_get(romv, a));
                    } else {
                        assert(spec_seq_get(inner, a) == spec_seq_get(i1, a));
                    }
                } else if a <= 0x7fffffffu64 {
                    assert(spec_seq_get(subs, a) == spec_seq_get(t1, a));
                    assert(spec_seq_get(t1, a) == spec_region_get(s2, a));
                    assert(spec_region_get(s2, a) == spec_seq_get(mapped_io.mapped_regions@, a));
                } else if a <= 0xffffffffu64 {
                    assert(spec_seq_get(subs, a) == spec_seq_get(t1, a));
                    assert(spec_seq_get(t1, a) == spec_seq_get(t2, a));
                    assert(spec_seq_get(t2, a) == spec_region_get(s3, a));
                } else {
                    assert(spec_seq_get(subs, a) == spec_seq_get(t1, a));
                    assert(spec_seq_get(t1, a) == spec_seq_get(t2, a));
                    assert(spec_seq_get(t2, a) == spec_seq_get(t3, a));
                }
            }
            assert forall|a: Address|
                spec_seq_writable(subs, a) == spec_memmap32_writable(a) by {
                assert(t1.subrange(1, t1.len() as int) =~= t2);
                assert(t2.subrange(1, t2.len() as int) =~= t3);
                assert(inner.subrange(1, inner.len() as int) =~= i1);
                if a <= 0x3fffffffu64 {
                    assert(spec_region_contains(s1, a));
                    assert(spec_seq_writable(subs, a) == spec_region_writable(s1, a));
                    assert(spec_region_writable(s1, a) == spec_seq_writable(inner, a));
                    if a <= 0xffffu64 {
                        assert(spec_seq_writable(inner, a) == spec_region_writable(romv, a));
                    } else {
                        assert(spec_seq_writable(inner, a) == spec_seq_writable(i1, a));
                    }
                } else if a <= 0x7fffffffu64 {
                    assert(spec_seq_writable(subs, a) == spec_seq_writable(t1, a));
                    assert(spec_seq_writable(t1, a) == spec_region_writable(s2, a));
                } else if a <= 0xffffffffu64 {
                    assert(spec_seq_writable(subs, a) == spec_seq_writable(t1, a));
                    assert(spec_seq_writable(t1, a) == spec_seq_writable(t2, a));
                    assert(spec_seq_writable(t2, a) == spec_region_writable(s3, a));
                } else {
                    assert(spec_seq_writable(subs, a) == spec_seq_writable(t1, a));
                    assert(spec_seq_writable(t1, a) == spec_seq_writable(t2, a));
                    assert(spec_seq_writable(t2, a) == spec_seq_writable(t3, a));
                }
            }
        }
        MemMap32 { address_space: map }
    }

    /// Read four consecutive cells from `addr` and assemble them into one
    /// 32-bit word, honoring the requested endianness; absent if any of
    /// the four cells is unmapped.
    pub fn get32(&self, addr: Address, big_endian: bool) -> (r: Option<u32>)
        requires
            addr + 3 <= 0xffff_ffff_ffff_ffffu64,
        ensures
            r == spec_get32(*self, addr, big_endian),
    {
        match self.address_space.read_cells(addr, addr + 3) {
            None => {
                proof {
                    let a = choose|a: Address|
                        addr <= a <= addr + 3 && self.address_space.spec_get(a) is None;
                    assert(a == addr || a == (addr + 1) as Address || a == (addr + 2) as Address
                        || a == (addr + 3) as Address);
                }
                None
            },
            Some(cells) => {
                if big_endian {
                    Some(
                        (cells[0] as u32) * 0x1000000 + (cells[1] as u32) * 0x10000 + (cells[2]
                            as u32) * 0x100 + (cells[3] as u32),
                    )
                } else {
                    Some(
                        (cells[3] as u32) * 0x1000000 + (cells[2] as u32) * 0x10000 + (cells[1]
                            as u32) * 0x100 + (cells[0] as u32),
                    )
                }
            },
        }
    }
}

} // verus!
