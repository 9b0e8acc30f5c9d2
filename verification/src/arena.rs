//! Per-query scratch space: a bump allocator over one device buffer, and a
//! stub that takes a fresh buffer for every request.

use vstd::arithmetic::power2::is_pow2;
use vstd::prelude::*;

use crate::bridge;
use crate::bridge::{goes_by_address, host_bytes, Ingest};
use crate::error::{BufferError, EngineError};

verus! {

/// The alignment in bytes of every region handed out by [`BumpArena`].
pub const ARENA_ALIGN: usize = 16;

/// A region of the backing buffer.
#[derive(Debug, Clone, Copy, PartialEq, Eq, Structural)]
pub struct ArenaView {
    pub offset: usize,
    pub len: usize,
}

impl ArenaView {
    /// One past the last byte of the region.
    pub open spec fn end(self) -> int {
        self.offset + self.len
    }
}

/// A bump allocator over a backing buffer of `capacity` bytes, of which those
/// before `cursor` are taken.
#[derive(Debug, PartialEq, Eq, Structural)]
pub struct BumpArena {
    capacity: usize,
    cursor: usize,
}

/// The first multiple of the arena's alignment at or after `cursor`.
pub open spec fn aligned_start(cursor: int) -> int {
    (cursor + ARENA_ALIGN - 1) / (ARENA_ALIGN as int) * ARENA_ALIGN
}

impl BumpArena {
    pub closed spec fn spec_capacity(self) -> int {
        self.capacity as int
    }

    pub closed spec fn spec_used(self) -> int {
        self.cursor as int
    }

    /// What is taken lies inside the backing buffer.
    #[verifier::type_invariant]
    pub open spec fn wf(self) -> bool {
        0 <= self.spec_used() <= self.spec_capacity() <= usize::MAX
    }

    /// A region of `bytes` bytes fits behind what is taken.
    pub open spec fn fits(self, bytes: int) -> bool {
        &&& bytes > 0
        &&& self.spec_used() + ARENA_ALIGN - 1 <= usize::MAX
        &&& aligned_start(self.spec_used()) + bytes <= self.spec_capacity()
    }

    /// An arena over a fresh backing buffer; there is no empty one.
    pub fn with_capacity(bytes: usize) -> (r: Result<Self, BufferError>)
        ensures
            match r {
                Ok(a) => bytes > 0 && a.spec_capacity() == bytes && a.spec_used() == 0,
                Err(e) => bytes == 0 && e == (BufferError::AllocationFailed { bytes: 0 }),
            },
    {
        match bridge::check_allocation(bytes) {
            Ok(_) => Ok(BumpArena { capacity: bytes, cursor: 0 }),
            Err(e) => Err(e),
        }
    }

    /// Where a region of `bytes` bytes would go.
    pub fn place(&self, bytes: usize) -> (r: Result<ArenaView, BufferError>)
        ensures
            match r {
                Ok(v) => self.fits(bytes as int) && v.len == bytes && v.offset == aligned_start(
                    self.spec_used(),
                ),
                Err(e) => !self.fits(bytes as int) && e == (BufferError::AllocationFailed {
                    bytes,
                }),
            },
    {
        if bytes == 0 {
            return Err(BufferError::AllocationFailed { bytes: 0 });
        }
        let bumped: usize = match self.cursor.checked_add(ARENA_ALIGN - 1) {
            Some(b) => b,
            None => return Err(BufferError::AllocationFailed { bytes }),
        };
        let offset: usize = bumped / ARENA_ALIGN * ARENA_ALIGN;
        match offset.checked_add(bytes) {
            Some(end) => if end > self.capacity {
                Err(BufferError::AllocationFailed { bytes })
            } else {
                Ok(ArenaView { offset, len: bytes })
            },
            None => Err(BufferError::AllocationFailed { bytes }),
        }
    }

    /// Takes a region that [`BumpArena::place`] gave.
    pub fn commit(&mut self, view: ArenaView)
        requires
            old(self).fits(view.len as int),
            view.offset == aligned_start(old(self).spec_used()),
        ensures
            final(self).spec_capacity() == old(self).spec_capacity(),
            final(self).spec_used() == view.end(),
    {
        self.cursor = view.offset + view.len;
    }

    /// Hands out an aligned region of `bytes` bytes. When it does not fit, or
    /// is empty, nothing is taken.
    pub fn allocate(&mut self, bytes: usize) -> (r: Result<ArenaView, BufferError>)
        ensures
            final(self).spec_capacity() == old(self).spec_capacity(),
            match r {
                Ok(v) => {
                    &&& old(self).fits(bytes as int)
                    &&& v.len == bytes
                    &&& v.offset == aligned_start(old(self).spec_used())
                    &&& final(self).spec_used() == v.end()
                },
                Err(e) => {
                    &&& !old(self).fits(bytes as int)
                    &&& e == (BufferError::AllocationFailed { bytes })
                    &&& final(self).spec_used() == old(self).spec_used()
                },
            },
    {
        match self.place(bytes) {
            Ok(view) => {
                self.commit(view);
                Ok(view)
            },
            Err(e) => Err(e),
        }
    }

    /// The size of the backing buffer.
    pub fn capacity(&self) -> (r: usize)
        ensures
            r == self.spec_capacity(),
    {
        self.capacity
    }

    /// The bytes taken so far, padding included: never more than there are.
    pub fn used(&self) -> (r: usize)
        ensures
            r == self.spec_used(),
            r <= self.spec_capacity(),
    {
        proof {
            use_type_invariant(self);
        }
        self.cursor
    }
}

/// The effect of a successful allocation, as [`BumpArena::allocate`] states it.
pub open spec fn allocates(before: BumpArena, bytes: usize, after: BumpArena, v: ArenaView) -> bool {
    &&& after.spec_capacity() == before.spec_capacity()
    &&& before.fits(bytes as int)
    &&& v.len == bytes
    &&& v.offset == aligned_start(before.spec_used())
    &&& after.spec_used() == v.end()
}

/// Every region is aligned, has the length asked for, lies inside the backing
/// buffer and behind everything taken before it.
pub proof fn regions_are_aligned_and_inside(
    before: BumpArena,
    bytes: usize,
    after: BumpArena,
    v: ArenaView,
)
    requires
        allocates(before, bytes, after, v),
    ensures
        v.offset % ARENA_ALIGN == 0,
        v.end() <= before.spec_capacity(),
        before.spec_used() <= v.offset,
        v.offset < before.spec_used() + ARENA_ALIGN,
{
}

/// Two regions of one arena never overlap, whatever was allocated in between.
pub proof fn regions_are_disjoint(
    a0: BumpArena,
    n: usize,
    a1: BumpArena,
    v: ArenaView,
    b0: BumpArena,
    m: usize,
    b1: BumpArena,
    w: ArenaView,
)
    requires
        allocates(a0, n, a1, v),
        a1.spec_used() <= b0.spec_used(),
        allocates(b0, m, b1, w),
    ensures
        v.end() <= w.offset,
        v.offset != w.offset,
{
}

/// A scratch region taken from a fresh host buffer, where it lies, and the way
/// it takes to the device.
pub struct Reservation {
    pub buffer: arrow_buffer::Buffer,
    pub ingest: Ingest,
}

/// Scratch space that is taken region by region and given back at once.
pub trait ScratchArena: Send {
    /// A region of `bytes` bytes.
    fn reserve(&mut self, bytes: usize) -> Result<Reservation, EngineError>;

    /// Gives back every region.
    fn reset(&mut self);
}

/// An arena that serves every request with a fresh buffer.
#[derive(Debug)]
pub struct StubArena {
    page: usize,
}

impl StubArena {
    #[verifier::type_invariant]
    spec fn page_is_pow2(self) -> bool {
        is_pow2(self.page as int)
    }

    /// An arena on a machine with pages of `page` bytes.
    pub fn new(page: usize) -> (r: Self)
        requires
            is_pow2(page as int),
        ensures
            r.spec_page() == page,
    {
        StubArena { page }
    }

    /// The page size of the machine.
    pub closed spec fn spec_page(self) -> int {
        self.page as int
    }
}

impl ScratchArena for StubArena {
    /// A fresh region of `bytes` zeros; an empty one is refused.
    fn reserve(&mut self, bytes: usize) -> (r: Result<Reservation, EngineError>)
        ensures
            *final(self) == *old(self),
            match r {
                Ok(res) => bytes > 0 && host_bytes(res.buffer) == Seq::new(
                    bytes as nat,
                    |i: int| 0u8,
                ) && goes_by_address(res.ingest, bytes as nat, old(self).spec_page()),
                Err(e) => bytes == 0 && e == EngineError::Buffer(
                    BufferError::AllocationFailed { bytes: 0 },
                ),
            },
    {
        proof {
            use_type_invariant(&*self);
        }
        let buffer: arrow_buffer::Buffer = bridge::zeroed(bytes);
        match bridge::from_arrow(&buffer, self.page) {
            Ok(ingest) => Ok(Reservation { buffer, ingest }),
            Err(e) => Err(EngineError::from(e)),
        }
    }

    /// Nothing is kept between requests.
    fn reset(&mut self)
        ensures
            *final(self) == *old(self),
    {
    }
}

/// A region is refused only when there is none: where an aligned region of the
/// length lies between what is used and the end, the arena has room for it, and
/// places it no later.
pub proof fn regions_are_found_where_there_are_any(arena: BumpArena, offset: int, bytes: usize)
    requires
        bytes > 0,
        offset % 16 == 0,
        arena.spec_used() <= offset,
        offset + bytes <= arena.spec_capacity(),
        arena.spec_used() + 15 <= usize::MAX,
    ensures
        arena.fits(bytes as int),
        aligned_start(arena.spec_used()) <= offset,
        aligned_start(arena.spec_used()) % 16 == 0,
        arena.spec_used() <= aligned_start(arena.spec_used()),
{
}

} // verus!
