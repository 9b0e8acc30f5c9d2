//! A reusable staging buffer for kernel inputs: reallocated only when a larger
//! input arrives.

use vstd::prelude::*;

use crate::error::BufferError;

verus! {

/// What staging an input asks of the device.
#[derive(Debug, Clone, Copy, PartialEq, Eq, Structural)]
pub enum StageStep {
    /// The buffer at hand is large enough.
    Reuse,
    /// A buffer of this many bytes has to be allocated first.
    Allocate { bytes: usize },
}

/// One growable buffer, known by its capacity; none before the first input.
#[derive(Debug, Clone, Copy, PartialEq, Eq, Structural)]
pub struct StagingPool {
    pub capacity: Option<usize>,
}

impl StagingPool {
    /// The capacity in bytes, zero when nothing is allocated yet.
    pub open spec fn room(self) -> int {
        match self.capacity {
            Some(c) => c as int,
            None => 0,
        }
    }

    /// A pool with nothing allocated.
    pub fn new() -> (r: Self)
        ensures
            r.capacity is None,
    {
        StagingPool { capacity: None }
    }

    /// What it takes to stage `need` bytes. An empty input is refused.
    pub fn stage(&self, need: usize) -> (r: Result<StageStep, BufferError>)
        ensures
            match r {
                Err(e) => need == 0 && e == (BufferError::AllocationFailed { bytes: 0 }),
                Ok(StageStep::Reuse) => 0 < need && grown(self.room(), need as int) == self.room(),
                Ok(StageStep::Allocate { bytes }) => self.room() < bytes && bytes == need && bytes
                    == grown(self.room(), need as int),
            },
    {
        if need == 0 {
            return Err(BufferError::AllocationFailed { bytes: 0 });
        }
        match self.capacity {
            Some(c) => if c < need {
                Ok(StageStep::Allocate { bytes: need })
            } else {
                Ok(StageStep::Reuse)
            },
            None => Ok(StageStep::Allocate { bytes: need }),
        }
    }

    /// Records that a buffer of `bytes` bytes replaced the one at hand.
    pub fn allocated(&mut self, bytes: usize)
        ensures
            final(self).capacity == Some(bytes),
    {
        self.capacity = Some(bytes);
    }
}

/// The capacity that an input of `need` bytes leaves where there was room for
/// `room`.
pub open spec fn grown(room: int, need: int) -> int {
    if need > room {
        need
    } else {
        room
    }
}

/// The pool after staging inputs of the given sizes in order, each allocation
/// succeeding; empty inputs are refused and change nothing.
pub open spec fn room_after(needs: Seq<usize>) -> int
    decreases needs.len(),
{
    if needs.len() == 0 {
        0
    } else {
        grown(room_after(needs.drop_last()), needs.last() as int)
    }
}

/// The pool holds as much as the largest input staged so far, and no more: it
/// fits every input and equals one of them (or nothing was staged).
pub proof fn pool_is_sized_to_the_largest_input(needs: Seq<usize>)
    ensures
        forall|i: int| 0 <= i < needs.len() ==> #[trigger] needs[i] <= room_after(needs),
        room_after(needs) == 0 || exists|i: int|
            0 <= i < needs.len() && #[trigger] needs[i] == room_after(needs),
    decreases needs.len(),
{
    if needs.len() > 0 {
        let front = needs.drop_last();
        pool_is_sized_to_the_largest_input(front);
        assert forall|i: int| 0 <= i < needs.len() implies #[trigger] needs[i] <= room_after(
            needs,
        ) by {
            if i < front.len() {
                assert(front[i] <= room_after(front));
            }
        }
        if needs.last() > room_after(front) {
            assert(needs[needs.len() - 1] == room_after(needs));
        } else if room_after(front) != 0 {
            let i = choose|i: int| 0 <= i < front.len() && #[trigger] front[i] == room_after(front);
            assert(needs[i] == room_after(needs));
        }
    }
}

/// Copies the input to the front of the buffer and leaves the rest as it is.
pub fn fill_front(buf: &mut [u8], src: &[u8])
    requires
        src@.len() <= old(buf)@.len(),
    ensures
        final(buf)@ == src@ + old(buf)@.skip(src@.len() as int),
{
    let mut i: usize = 0;
    while i < src.len()
        invariant
            i <= src@.len() <= buf@.len(),
            buf@.len() == old(buf)@.len(),
            forall|j: int| 0 <= j < i ==> buf@[j] == src@[j],
            forall|j: int| i <= j < buf@.len() ==> buf@[j] == old(buf)@[j],
        decreases src@.len() - i,
    {
        buf[i] = src[i];
        i = i + 1;
    }
    assert(buf@ =~= src@ + old(buf)@.skip(src@.len() as int));
}

} // verus!
