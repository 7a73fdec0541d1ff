//! A double-ended bootstrap allocator.
//!
//! One contiguous memory region serves two arenas at once: byte allocations
//! grow forward from the bottom of the region, page allocations grow backward
//! from the top, and the gap between the two cursors is the memory still free.
//! Byte allocations are reclaimed in bulk when the last live one is released;
//! page allocations are never released.

use vstd::prelude::*;

verus! {

/// Failure conditions reported by the allocator.
#[derive(Clone, Copy, PartialEq, Eq, Structural)]
pub enum AllocError {
    /// The request would make the two arenas collide, or the region cannot grow.
    NoMemory,
    /// The computed allocation address was zero.
    InvalidParam,
}

/// Mathematical model of an allocator: the bounds of the managed region, the
/// two cursors, the number of live byte allocations, and the page size.
pub ghost struct RegionModel {
    pub start: int,
    pub end: int,
    pub bytes_start: int,
    pub b_pos: int,
    pub p_pos: int,
    pub count: int,
    pub page_size: int,
}

/// `pos` rounded up to the nearest multiple of `align`.
pub open spec fn align_up(pos: int, align: int) -> int
    recommends
        1 <= align,
        0 <= pos,
{
    ((pos + align - 1) / align) * align
}

/// `pos` rounded down to the nearest multiple of `align`.
pub open spec fn align_down(pos: int, align: int) -> int
    recommends
        1 <= align,
        0 <= pos,
{
    (pos / align) * align
}

/// Rounding up moves `pos` forward by less than `align` and lands on a
/// multiple of `align`.
pub proof fn lemma_align_up(pos: int, align: int)
    requires
        1 <= align,
        0 <= pos,
    ensures
        pos <= align_up(pos, align) < pos + align,
        align_up(pos, align) % align == 0,
{
    let x = pos + align - 1;
    vstd::arithmetic::div_mod::lemma_fundamental_div_mod(x, align);
    vstd::arithmetic::div_mod::lemma_mod_division_less_than_divisor(x, align);
    assert(align * (x / align) == (x / align) * align) by (nonlinear_arith);
    vstd::arithmetic::div_mod::lemma_mod_multiples_basic(x / align, align);
}

/// Rounding down moves `pos` backward by less than `align` and lands on a
/// multiple of `align`.
pub proof fn lemma_align_down(pos: int, align: int)
    requires
        1 <= align,
        0 <= pos,
    ensures
        pos - align < align_down(pos, align) <= pos,
        align_down(pos, align) % align == 0,
        0 <= align_down(pos, align),
{
    vstd::arithmetic::div_mod::lemma_fundamental_div_mod(pos, align);
    vstd::arithmetic::div_mod::lemma_mod_division_less_than_divisor(pos, align);
    assert(align * (pos / align) == (pos / align) * align) by (nonlinear_arith);
    vstd::arithmetic::div_mod::lemma_mod_multiples_basic(pos / align, align);
}

impl RegionModel {
    /// The shared invariant of the two arenas: the cursors stay inside the
    /// region and never cross, so the arenas never overlap.
    pub open spec fn inv(self) -> bool {
        self.start <= self.bytes_start && self.bytes_start <= self.b_pos && self.b_pos
            <= self.p_pos && self.p_pos <= self.end
    }

    /// State after `init(start, size)`: the region is `[start, start + size)`
    /// and both arenas are empty.
    pub open spec fn init_step(self, start: int, size: int) -> RegionModel {
        RegionModel {
            start,
            end: start + size,
            bytes_start: start,
            b_pos: start,
            p_pos: start + size,
            count: 0,
            page_size: self.page_size,
        }
    }

    /// State and result of a byte allocation of `size` bytes at alignment
    /// `align`: the byte cursor, rounded up to `align`, advances by `size`
    /// unless that would cross the page cursor. A failed request, whether for
    /// exhaustion or for a zero aligned address, changes nothing.
    pub open spec fn alloc_step(self, size: int, align: int) -> (RegionModel, Result<
        int,
        AllocError,
    >) {
        let aligned_pos = align_up(self.b_pos, align);
        let new_pos = aligned_pos + size;
        if new_pos > self.p_pos {
            (self, Err(AllocError::NoMemory))
        } else if aligned_pos == 0 {
            (self, Err(AllocError::InvalidParam))
        } else {
            (RegionModel { b_pos: new_pos, count: self.count + 1, ..self }, Ok(aligned_pos))
        }
    }

    /// State after a byte deallocation: the live count drops by one, and when
    /// it reaches zero the whole byte arena is reclaimed at once; releasing
    /// with no allocation outstanding changes nothing.
    pub open spec fn dealloc_step(self) -> RegionModel {
        if self.count > 1 {
            RegionModel { count: self.count - 1, ..self }
        } else if self.count == 1 {
            RegionModel { count: 0, b_pos: self.bytes_start, ..self }
        } else {
            self
        }
    }

    /// State and result of a page allocation: the page cursor retreats by
    /// `num_pages` pages and is rounded down to `align`, unless that would
    /// cross the byte cursor.
    pub open spec fn alloc_pages_step(self, num_pages: int, align: int) -> (RegionModel, Result<
        int,
        AllocError,
    >) {
        let aligned_pos = align_down(self.p_pos - num_pages * self.page_size, align);
        if aligned_pos < self.b_pos {
            (self, Err(AllocError::NoMemory))
        } else {
            (RegionModel { p_pos: aligned_pos, ..self }, Ok(aligned_pos))
        }
    }

    /// Size of the whole managed region.
    pub open spec fn total_bytes(self) -> int {
        if self.end > self.start {
            self.end - self.start
        } else {
            0
        }
    }

    /// Bytes consumed by the byte arena plus bytes consumed by the page arena.
    pub open spec fn used_bytes(self) -> int {
        (if self.b_pos > self.bytes_start {
            self.b_pos - self.bytes_start
        } else {
            0
        }) + (self.end - self.p_pos)
    }

    /// Size of the free gap between the two cursors.
    pub open spec fn available_bytes(self) -> int {
        if self.p_pos > self.b_pos {
            self.p_pos - self.b_pos
        } else {
            0
        }
    }

    /// Whole pages in the managed region.
    pub open spec fn total_pages(self) -> int {
        if self.end > self.start {
            (self.end - self.start) / self.page_size
        } else {
            0
        }
    }

    /// Whole pages consumed by the page arena.
    pub open spec fn used_pages(self) -> int {
        if self.end > self.p_pos {
            (self.end - self.p_pos) / self.page_size
        } else {
            0
        }
    }

    /// Whole pages that still fit in the free gap.
    pub open spec fn available_pages(self) -> int {
        if self.p_pos > self.b_pos {
            (self.p_pos - self.b_pos) / self.page_size
        } else {
            0
        }
    }
}

/// `align` is a power of two (and in particular positive).
pub open spec fn is_power_of_two(n: int) -> bool
    decreases n,
{
    if n <= 0 {
        false
    } else if n == 1 {
        true
    } else {
        n % 2 == 0 && is_power_of_two(n / 2)
    }
}

/// A power of two is at least one.
pub proof fn lemma_pow2_pos(n: int)
    requires
        is_power_of_two(n),
    ensures
        n >= 1,
{
}

/// The concrete outcome of an operation agrees with the model-level outcome.
pub open spec fn result_agrees(r: Result<usize, AllocError>, m: Result<int, AllocError>) -> bool {
    match (r, m) {
        (Ok(a), Ok(b)) => a as int == b,
        (Err(a), Err(b)) => a == b,
        _ => false,
    }
}

/// A double-ended bootstrap allocator over one contiguous region:
///
/// ```text
/// [ bytes-used | free gap | pages-used ]
/// start       b_pos      p_pos       end
/// ```
///
/// Byte allocations advance `b_pos` forward; page allocations (of `SIZE`-byte
/// pages) retreat `p_pos` backward. `count` tracks live byte allocations and,
/// on reaching zero, releases the whole byte arena at once; the page arena is
/// never released.
pub struct EarlyAllocator<const SIZE: usize> {
    start: usize,
    end: usize,
    b_pos: usize,
    p_pos: usize,
    count: usize,
    bytes_start: usize,
}

impl<const SIZE: usize> View for EarlyAllocator<SIZE> {
    type V = RegionModel;

    closed spec fn view(&self) -> RegionModel {
        RegionModel {
            start: self.start as int,
            end: self.end as int,
            bytes_start: self.bytes_start as int,
            b_pos: self.b_pos as int,
            p_pos: self.p_pos as int,
            count: self.count as int,
            page_size: SIZE as int,
        }
    }
}

impl<const SIZE: usize> EarlyAllocator<SIZE> {
    /// The model's page size is the `SIZE` parameter, in every state.
    pub proof fn lemma_page_size(&self)
        ensures
            self@.page_size == SIZE as int,
    {
    }

    /// A fresh, uninitialized allocator: every field is zero until `init`
    /// fixes the managed region.
    pub fn new() -> (r: Self)
        ensures
            r@ == (RegionModel {
                start: 0,
                end: 0,
                bytes_start: 0,
                b_pos: 0,
                p_pos: 0,
                count: 0,
                page_size: SIZE as int,
            }),
            r@.inv(),
    {
        Self { start: 0, end: 0, b_pos: 0, p_pos: 0, count: 0, bytes_start: 0 }
    }

    /// Fix the managed region to `[start, start + size)` and empty both
    /// arenas. Must be the first operation on a fresh instance; calling it
    /// again discards all outstanding allocations.
    pub fn init(&mut self, start: usize, size: usize)
        requires
            start + size <= usize::MAX,
        ensures
            final(self)@ == old(self)@.init_step(start as int, size as int),
            final(self)@.inv(),
    {
        self.start = start;
        self.end = start + size;
        self.b_pos = start;
        self.p_pos = self.end;
        self.count = 0;
        self.bytes_start = start;
    }

    /// The region is fixed at `init`; growing it afterwards is always
    /// refused, and the state is untouched.
    pub fn add_memory(&mut self, _start: usize, _size: usize) -> (r: Result<(), AllocError>)
        ensures
            final(self)@ == old(self)@,
            old(self)@.inv() ==> final(self)@.inv(),
            r == Result::<(), AllocError>::Err(AllocError::NoMemory),
    {
        Err(AllocError::NoMemory)
    }

    /// Allocate `size` bytes at alignment `align` (a power of two) from the
    /// forward byte arena. The byte cursor is rounded up to `align` and the
    /// rounded address is returned; the request is refused with `NoMemory`
    /// exactly when the allocation would reach past the page cursor, and with
    /// `InvalidParam` in the degenerate case of a zero aligned address
    /// (possible only when the region starts at address zero). A failed
    /// request changes nothing.
    pub fn allocate(&mut self, size: usize, align: usize) -> (r: Result<usize, AllocError>)
        requires
            old(self)@.inv(),
            is_power_of_two(align as int),
            old(self)@.b_pos + align - 1 + size <= usize::MAX,
            old(self)@.count < usize::MAX,
        ensures
            final(self)@ == old(self)@.alloc_step(size as int, align as int).0,
            result_agrees(r, old(self)@.alloc_step(size as int, align as int).1),
            r is Ok <==> (align_up(old(self)@.b_pos, align as int) + size <= old(self)@.p_pos
                && align_up(old(self)@.b_pos, align as int) != 0),
            r is Ok ==> r->Ok_0 as int == align_up(old(self)@.b_pos, align as int),
            final(self)@.inv(),
            final(self)@.p_pos == old(self)@.p_pos,
    {
        proof {
            lemma_pow2_pos(align as int);
            lemma_align_up(self.b_pos as int, align as int);
        }
        let aligned_pos: usize = (self.b_pos + (align - 1)) / align * align;
        let new_pos: usize = aligned_pos + size;
        if new_pos > self.p_pos {
            return Err(AllocError::NoMemory);
        }
        if aligned_pos == 0 {
            return Err(AllocError::InvalidParam);
        }
        self.b_pos = new_pos;
        self.count = self.count + 1;
        Ok(aligned_pos)
    }

    /// Release one byte allocation. The address and layout of the original
    /// allocation are not tracked, so they are not taken here: the live count
    /// drops by one, and only when it reaches zero is the whole byte arena
    /// reclaimed, in one step. Releasing with no allocation outstanding is a
    /// no-op.
    pub fn deallocate(&mut self, _pos: usize, _size: usize, _align: usize)
        ensures
            final(self)@ == old(self)@.dealloc_step(),
            old(self)@.inv() ==> final(self)@.inv(),
            final(self)@.p_pos == old(self)@.p_pos,
    {
        if self.count > 0 {
            self.count = self.count - 1;
            if self.count == 0 {
                self.b_pos = self.bytes_start;
            }
        }
    }

    /// Allocate `num_pages` pages of `SIZE` bytes at alignment `align_pow2`
    /// (a power of two) from the backward page arena. The page cursor
    /// retreats by the total size and is rounded down to `align_pow2`; the
    /// rounded address is returned, and the request is refused with
    /// `NoMemory`, and nothing changes, exactly when that address would fall
    /// below the byte cursor.
    pub fn allocate_pages(&mut self, num_pages: usize, align_pow2: usize) -> (r: Result<
        usize,
        AllocError,
    >)
        requires
            old(self)@.inv(),
            is_power_of_two(align_pow2 as int),
            num_pages * SIZE <= old(self)@.p_pos,
        ensures
            final(self)@ == old(self)@.alloc_pages_step(num_pages as int, align_pow2 as int).0,
            result_agrees(r, old(self)@.alloc_pages_step(num_pages as int, align_pow2 as int).1),
            r is Ok <==> align_down(old(self)@.p_pos - num_pages * SIZE, align_pow2 as int) >= old(
                self,
            )@.b_pos,
            final(self)@.inv(),
            final(self)@.p_pos <= old(self)@.p_pos,
            final(self)@.b_pos == old(self)@.b_pos,
    {
        proof {
            lemma_pow2_pos(align_pow2 as int);
        }
        let total_size: usize = num_pages * SIZE;
        proof {
            lemma_align_down((self.p_pos - total_size) as int, align_pow2 as int);
        }
        let aligned_pos: usize = (self.p_pos - total_size) / align_pow2 * align_pow2;
        if aligned_pos < self.b_pos {
            return Err(AllocError::NoMemory);
        }
        self.p_pos = aligned_pos;
        Ok(aligned_pos)
    }

    /// Page allocations are permanent for the life of the allocator:
    /// releasing them is a no-op, whatever is passed.
    pub fn deallocate_pages(&mut self, _pos: usize, _num_pages: usize)
        ensures
            final(self)@ == old(self)@,
            old(self)@.inv() ==> final(self)@.inv(),
    {
    }

    /// Size of the whole managed region; fixed by `init` alone.
    pub fn total_bytes(&self) -> (r: usize)
        ensures
            r == self@.total_bytes(),
    {
        if self.end > self.start {
            self.end - self.start
        } else {
            0
        }
    }

    /// Bytes consumed so far: the byte arena since `bytes_start` plus the
    /// page arena since `end` (alignment padding included).
    pub fn used_bytes(&self) -> (r: usize)
        requires
            self@.inv(),
        ensures
            r == self@.used_bytes(),
    {
        if self.b_pos > self.bytes_start {
            self.b_pos - self.bytes_start + (self.end - self.p_pos)
        } else {
            self.end - self.p_pos
        }
    }

    /// Size of the free gap between the two cursors.
    pub fn available_bytes(&self) -> (r: usize)
        ensures
            r == self@.available_bytes(),
    {
        if self.p_pos > self.b_pos {
            self.p_pos - self.b_pos
        } else {
            0
        }
    }

    /// Whole pages in the managed region; fixed by `init` alone.
    pub fn total_pages(&self) -> (r: usize)
        requires
            SIZE >= 1,
        ensures
            r == self@.total_pages(),
    {
        if self.end > self.start {
            (self.end - self.start) / SIZE
        } else {
            0
        }
    }

    /// Whole pages consumed by the page arena.
    pub fn used_pages(&self) -> (r: usize)
        requires
            SIZE >= 1,
        ensures
            r == self@.used_pages(),
    {
        if self.end > self.p_pos {
            (self.end - self.p_pos) / SIZE
        } else {
            0
        }
    }

    /// Whole pages that still fit in the free gap.
    pub fn available_pages(&self) -> (r: usize)
        requires
            SIZE >= 1,
        ensures
            r == self@.available_pages(),
    {
        if self.p_pos > self.b_pos {
            (self.p_pos - self.b_pos) / SIZE
        } else {
            0
        }
    }
}

/// The model after `k` consecutive byte deallocations.
pub open spec fn deallocs(s: RegionModel, k: nat) -> RegionModel
    decreases k,
{
    if k == 0 {
        s
    } else {
        deallocs(s, (k - 1) as nat).dealloc_step()
    }
}

/// Bulk reclaim. From a state with `k` live byte allocations (each successful
/// `allocate` adds exactly one), `j <= k` deallocations leave `k - j` of them
/// live; as long as some remain the byte cursor does not move, and the `k`-th
/// deallocation resets it to `bytes_start`, making the whole span up to the
/// page cursor available again. Deallocations never touch the rest of the
/// state.
pub proof fn lemma_bulk_reclaim(s: RegionModel, k: nat, j: nat)
    requires
        s.count == k,
        j <= k,
    ensures
        deallocs(s, j).count == k - j,
        j < k ==> deallocs(s, j).b_pos == s.b_pos,
        j == k && k > 0 ==> deallocs(s, j).b_pos == s.bytes_start,
        j == k && k > 0 && s.inv() ==> deallocs(s, j).available_bytes() == s.p_pos
            - s.bytes_start,
        deallocs(s, j).bytes_start == s.bytes_start,
        deallocs(s, j).p_pos == s.p_pos,
        deallocs(s, j).start == s.start,
        deallocs(s, j).end == s.end,
        deallocs(s, j).page_size == s.page_size,
    decreases j,
{
    if j > 0 {
        lemma_bulk_reclaim(s, k, (j - 1) as nat);
    }
}

/// Byte-arena boundary. A byte request whose aligned end lands exactly on the
/// page cursor is granted and leaves no gap; a request one byte larger is
/// refused with `NoMemory` and changes nothing.
pub proof fn lemma_byte_boundary(s: RegionModel, size: int, align: int)
    requires
        s.inv(),
        is_power_of_two(align),
        0 <= size,
        0 < s.b_pos,
        align_up(s.b_pos, align) + size == s.p_pos,
    ensures
        s.alloc_step(size, align).1 == Ok::<int, AllocError>(align_up(s.b_pos, align)),
        s.alloc_step(size, align).0.b_pos == s.p_pos,
        s.alloc_step(size + 1, align).1 == Err::<int, AllocError>(AllocError::NoMemory),
        s.alloc_step(size + 1, align).0 == s,
{
    lemma_pow2_pos(align);
    lemma_align_up(s.b_pos, align);
}

/// Page-arena boundary. A page request whose aligned start lands exactly on
/// the byte cursor is granted and leaves no gap; when the alignment does not
/// exceed the page size, asking for one page more is refused with `NoMemory`
/// and changes nothing.
pub proof fn lemma_page_boundary(s: RegionModel, num_pages: int, align: int)
    requires
        s.inv(),
        is_power_of_two(align),
        0 <= num_pages,
        align <= s.page_size,
        (num_pages + 1) * s.page_size <= s.p_pos,
        align_down(s.p_pos - num_pages * s.page_size, align) == s.b_pos,
    ensures
        s.alloc_pages_step(num_pages, align).1 == Ok::<int, AllocError>(s.b_pos),
        s.alloc_pages_step(num_pages, align).0.p_pos == s.b_pos,
        s.alloc_pages_step(num_pages + 1, align).1 == Err::<int, AllocError>(
            AllocError::NoMemory,
        ),
        s.alloc_pages_step(num_pages + 1, align).0 == s,
{
    lemma_pow2_pos(align);
    assert((num_pages + 1) * s.page_size == num_pages * s.page_size + s.page_size)
        by (nonlinear_arith);
    let x = s.p_pos - num_pages * s.page_size;
    lemma_align_down(x, align);
    lemma_align_down(x - s.page_size, align);
}

/// Idempotent accounting. `total_bytes` and `total_pages` depend only on
/// `init`: no byte or page allocation and no deallocation changes either,
/// whatever its arguments and whatever its outcome.
pub proof fn lemma_totals_fixed(s: RegionModel, size: int, align: int, num_pages: int)
    ensures
        s.alloc_step(size, align).0.total_bytes() == s.total_bytes(),
        s.alloc_step(size, align).0.total_pages() == s.total_pages(),
        s.dealloc_step().total_bytes() == s.total_bytes(),
        s.dealloc_step().total_pages() == s.total_pages(),
        s.alloc_pages_step(num_pages, align).0.total_bytes() == s.total_bytes(),
        s.alloc_pages_step(num_pages, align).0.total_pages() == s.total_pages(),
{
}

} // verus!
