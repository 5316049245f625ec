//! Frame-rate accounting for video broadcasts.
//!
//! A 32-slot ring buffer indexed by the current second modulo 32: marked
//! (frame-boundary) packets increment the slot of the second they arrive in,
//! and the slots between the last seen second and the current one are zeroed
//! lazily on access, so no sweeping background timer is needed.
use vstd::prelude::*;
use vstd::wrapping::u8_specs;

verus! {

/// Distance from slot `a` forward to slot `b` on the ring, for slots in
/// `[0, 32)`.
pub open spec fn ring_dist(a: int, b: int) -> int {
    if b >= a {
        b - a
    } else {
        b + 32 - a
    }
}

/// The ring after one frame is recorded with the cursor on `index`: the
/// slots strictly between the cursor and the target slot `to` are zeroed,
/// and `to` itself starts fresh at one — unless the cursor already sat
/// there, in which case its count grows by one (wrapping).
pub open spec fn slots_after_frame(index: int, slots: Seq<u8>, to: int) -> Seq<u8> {
    Seq::new(
        32,
        |j: int|
            if j == to {
                if to == index {
                    u8_specs::wrapping_add(slots[j], 1)
                } else {
                    1u8
                }
            } else if 1 <= ring_dist(index, j) && ring_dist(index, j) <= ring_dist(index, to) {
                0u8
            } else {
                slots[j]
            },
    )
}

/// Per-second frame counter ring.
pub struct FpsCounter {
    time_base: u64,
    index: usize,
    counter: Vec<u8>,
}

impl FpsCounter {
    /// The ring always holds 32 slots and points at a valid slot, and the
    /// clock never runs backwards past its base.
    pub open spec fn well_formed(self) -> bool {
        &&& self.slots().len() == 32
        &&& 0 <= self.spec_index() < 32
    }

    /// The second the counter was created in; all later observations must
    /// not lie before it.
    pub closed spec fn spec_time_base(self) -> u64 {
        self.time_base
    }

    /// The slot the clock value `now` falls into; a reading before the
    /// base second counts as the base second.
    pub open spec fn slot_of(self, now: u64) -> int {
        (if now >= self.spec_time_base() {
            now - self.spec_time_base()
        } else {
            0
        }) % 32
    }

    /// The slot last written to.
    pub closed spec fn spec_index(self) -> int {
        self.index as int
    }

    /// The recorded per-slot counts.
    pub closed spec fn slots(self) -> Seq<u8> {
        self.counter@
    }

    /// A fresh counter based at the current second `now`, all slots zero.
    pub fn new(now: u64) -> (r: FpsCounter)
        ensures
            r.well_formed(),
            r.spec_time_base() == now,
            r.spec_index() == 0,
            forall|j: int| 0 <= j < 32 ==> r.slots()[j] == 0u8,
    {
        let mut counter: Vec<u8> = Vec::new();
        let mut i: usize = 0;
        while i < 32
            invariant
                i <= 32,
                counter@.len() == i,
                forall|j: int| 0 <= j < i ==> counter@[j] == 0u8,
            decreases 32 - i,
        {
            counter.push(0);
            i = i + 1;
        }
        FpsCounter { time_base: now, index: 0, counter }
    }

    /// Clears nothing: stale slots are zeroed lazily by `log_frame`, so a
    /// stream stop needs no sweep of the ring.
    pub fn reset(&mut self)
        ensures
            *final(self) == *old(self),
    {
    }

    /// Records one frame boundary at second `now`: slots skipped since the
    /// last recorded frame are zeroed, and the slot of the current second is
    /// incremented (wrapping).  Every other slot keeps its count.
    pub fn log_frame(&mut self, now: u64)
        requires
            old(self).well_formed(),
        ensures
            final(self).well_formed(),
            final(self).spec_time_base() == old(self).spec_time_base(),
            final(self).spec_index() == old(self).slot_of(now),
            final(self).slots() == slots_after_frame(
                old(self).spec_index(),
                old(self).slots(),
                old(self).slot_of(now),
            ),
            final(self).slots()[final(self).spec_index()]
                == (if old(self).slot_of(now) == old(self).spec_index() {
                u8_specs::wrapping_add(old(self).slots()[old(self).spec_index()], 1)
            } else {
                1u8
            }),
            forall|j: int|
                0 <= j < 32 && j != old(self).slot_of(now)
                    && ring_dist(old(self).spec_index(), j)
                    > ring_dist(old(self).spec_index(), old(self).slot_of(now))
                    ==> final(self).slots()[j] == old(self).slots()[j],
            forall|j: int|
                0 <= j < 32 && j != old(self).slot_of(now)
                    && 1 <= ring_dist(old(self).spec_index(), j)
                    && ring_dist(old(self).spec_index(), j)
                    <= ring_dist(old(self).spec_index(), old(self).slot_of(now))
                    ==> final(self).slots()[j] == 0u8,
    {
        let elapsed: u64 = if now >= self.time_base {
            now - self.time_base
        } else {
            0
        };
        let index: usize = (elapsed % 32) as usize;
        let ghost start: int = self.index as int;
        let ghost goal: int = index as int;
        while index != self.index
            invariant
                self.counter@.len() == 32,
                self.index < 32,
                index < 32,
                goal == index as int,
                self.time_base == old(self).time_base,
                0 <= start < 32,
                ring_dist(start, self.index as int) <= ring_dist(start, goal),
                self.index as int != goal
                    ==> ring_dist(start, self.index as int) < ring_dist(start, goal),
                forall|j: int|
                    0 <= j < 32 && 1 <= ring_dist(start, j) <= ring_dist(start, self.index as int)
                        ==> self.counter@[j] == 0u8,
                forall|j: int|
                    0 <= j < 32 && ring_dist(start, j) > ring_dist(start, self.index as int)
                        ==> self.counter@[j] == old(self).counter@[j],
                self.counter@[start] == old(self).counter@[start],
            decreases ring_dist(start, goal) - ring_dist(start, self.index as int),
        {
            self.index = (self.index + 1) % 32;
            let slot = self.index;
            self.counter[slot] = 0;
        }
        let slot = self.index;
        let v = self.counter[slot];
        self.counter[slot] = v.wrapping_add(1);
        proof {
            assert(self.counter@ =~= slots_after_frame(start, old(self).counter@, goal));
        }
    }

    /// The frame count of the previous full second: the slot just before the
    /// one `now` falls into (the current second's slot is still filling).
    pub fn fps(&self, now: u64) -> (r: u8)
        requires
            self.well_formed(),
        ensures
            r == (if self.slot_of(now) == 0 {
                self.slots()[31]
            } else {
                self.slots()[self.slot_of(now) - 1]
            }),
    {
        let elapsed: u64 = if now >= self.time_base {
            now - self.time_base
        } else {
            0
        };
        let index: usize = (elapsed % 32) as usize;
        if index == 0 {
            self.counter[31]
        } else {
            self.counter[index - 1]
        }
    }
}

} // verus!
