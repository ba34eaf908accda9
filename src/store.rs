//! The segment store: a dense table of word segments addressed by 32-bit
//! identifiers, with a stack of abandoned identifiers that allocation reuses
//! most-recently-freed first.
use vstd::prelude::*;
use crate::fault::Fault;

verus! {

/// The abstract contents of a store: one slot per identifier minted so far
/// (`Some` for a live segment, `None` for an abandoned one), and the stack of
/// identifiers waiting for reuse, its top last.
pub struct StoreView {
    pub slots: Seq<Option<Seq<u32>>>,
    pub free: Seq<u32>,
}

/// Number of distinct 32-bit identifiers.
pub open spec fn id_space() -> nat {
    0x1_0000_0000
}

/// `id` names a live segment.
pub open spec fn is_live(v: StoreView, id: int) -> bool {
    0 <= id < v.slots.len() && v.slots[id] is Some
}

/// The words of a live segment.
pub open spec fn words(v: StoreView, id: int) -> Seq<u32> {
    v.slots[id]->Some_0
}

/// The shape every store keeps: segment 0 is live, every identifier fits in
/// 32 bits, and the free stack holds distinct identifiers of abandoned slots.
pub open spec fn well_formed(v: StoreView) -> bool {
    &&& 1 <= v.slots.len() <= id_space()
    &&& is_live(v, 0)
    &&& v.free.no_duplicates()
    &&& forall|k: int|
        0 <= k < v.free.len() ==> #[trigger] v.free[k] < v.slots.len() && !is_live(v, v.free[k] as int)
}

/// A segment of `n` zero words.
pub open spec fn zeros(n: nat) -> Seq<u32> {
    Seq::new(n, |i: int| 0u32)
}

/// Whether an identifier is available for a new segment.
pub open spec fn can_allocate(v: StoreView) -> bool {
    v.free.len() > 0 || v.slots.len() < id_space()
}

/// The identifier the next allocation hands out: the most recently freed one,
/// else the next fresh one.
pub open spec fn next_id(v: StoreView) -> int {
    if v.free.len() > 0 {
        v.free.last() as int
    } else {
        v.slots.len() as int
    }
}

/// The store after allocating a zeroed segment of `n` words.
pub open spec fn allocated(v: StoreView, n: nat) -> StoreView {
    if v.free.len() > 0 {
        StoreView { slots: v.slots.update(v.free.last() as int, Some(zeros(n))), free: v.free.drop_last() }
    } else {
        StoreView { slots: v.slots.push(Some(zeros(n))), free: v.free }
    }
}

/// The store after abandoning segment `id`.
pub open spec fn abandoned(v: StoreView, id: u32) -> StoreView {
    StoreView { slots: v.slots.update(id as int, None), free: v.free.push(id) }
}

/// The store after writing `val` at `off` of segment `id`.
pub open spec fn amended(v: StoreView, id: int, off: int, val: u32) -> StoreView {
    StoreView { slots: v.slots.update(id, Some(words(v, id).update(off, val))), free: v.free }
}

/// The store after segment 0 is replaced by a copy of segment `id`.
pub open spec fn loaded(v: StoreView, id: int) -> StoreView {
    StoreView { slots: v.slots.update(0, v.slots[id]), free: v.free }
}

/// The segment store. `live[i]` tells whether `segments[i]` is in use; an
/// abandoned segment's storage is released.
pub struct SegmentStore {
    segments: Vec<Vec<u32>>,
    live: Vec<bool>,
    free: Vec<u32>,
}

impl View for SegmentStore {
    type V = StoreView;

    closed spec fn view(&self) -> StoreView {
        StoreView {
            slots: Seq::new(
                self.segments@.len(),
                |i: int|
                    if self.live@[i] {
                        Some(self.segments@[i]@)
                    } else {
                        None
                    },
            ),
            free: self.free@,
        }
    }
}

impl SegmentStore {
    /// The internal tables agree in length.
    pub closed spec fn aligned(&self) -> bool {
        self.segments@.len() == self.live@.len()
    }

    /// The invariant every operation preserves.
    pub open spec fn inv(&self) -> bool {
        self.aligned() && well_formed(self@)
    }

    /// A store whose only segment, 0, holds `program`.
    pub fn new(program: Vec<u32>) -> (s: Self)
        ensures
            s.inv(),
            s@.slots =~= seq![Some(program@)],
            s@.free =~= Seq::<u32>::empty(),
    {
        let mut segments: Vec<Vec<u32>> = Vec::new();
        segments.push(program);
        let mut live: Vec<bool> = Vec::new();
        live.push(true);
        let s = SegmentStore { segments, live, free: Vec::new() };
        assert(s@.slots =~= seq![Some(s.segments@[0]@)]);
        s
    }

    /// Whether `id` names a live segment.
    pub fn is_live(&self, id: u32) -> (r: bool)
        requires
            self.inv(),
        ensures
            r == is_live(self@, id as int),
    {
        let i = id as usize;
        i < self.segments.len() && self.live[i]
    }

    /// The word at `off` of segment `id`.
    pub fn get(&self, id: u32, off: u32) -> (r: Result<u32, Fault>)
        requires
            self.inv(),
        ensures
            !is_live(self@, id as int) ==> r == Err::<u32, Fault>(Fault::InvalidSegmentAccess),
            is_live(self@, id as int) && off >= words(self@, id as int).len() ==> r == Err::<
                u32,
                Fault,
            >(Fault::SegmentBoundsViolation),
            is_live(self@, id as int) && off < words(self@, id as int).len() ==> r == Ok::<
                u32,
                Fault,
            >(words(self@, id as int)[off as int]),
    {
        if !self.is_live(id) {
            return Err(Fault::InvalidSegmentAccess);
        }
        let i = id as usize;
        let j = off as usize;
        if j >= self.segments[i].len() {
            Err(Fault::SegmentBoundsViolation)
        } else {
            Ok(self.segments[i][j])
        }
    }

    /// Writes `val` at `off` of segment `id`; on failure nothing changes.
    pub fn set(&mut self, id: u32, off: u32, val: u32) -> (r: Result<(), Fault>)
        requires
            old(self).inv(),
        ensures
            final(self).inv(),
            !is_live(old(self)@, id as int) ==> r == Err::<(), Fault>(Fault::InvalidSegmentAccess),
            is_live(old(self)@, id as int) && off >= words(old(self)@, id as int).len() ==> r
                == Err::<(), Fault>(Fault::SegmentBoundsViolation),
            is_live(old(self)@, id as int) && off < words(old(self)@, id as int).len() ==> r
                == Ok::<(), Fault>(()),
            r is Ok ==> final(self)@ == amended(old(self)@, id as int, off as int, val),
            r is Err ==> final(self)@ == old(self)@,
    {
        if !self.is_live(id) {
            return Err(Fault::InvalidSegmentAccess);
        }
        let i = id as usize;
        let j = off as usize;
        if j >= self.segments[i].len() {
            return Err(Fault::SegmentBoundsViolation);
        }
        self.segments[i][j] = val;
        assert(self@.slots =~= amended(old(self)@, id as int, off as int, val).slots);
        Ok(())
    }

    /// Allocates a zeroed segment of `n` words under the most recently freed
    /// identifier, or under a fresh one when none is free, and returns it.
    pub fn allocate(&mut self, n: u32) -> (r: Result<u32, Fault>)
        requires
            old(self).inv(),
        ensures
            final(self).inv(),
            !can_allocate(old(self)@) ==> r == Err::<u32, Fault>(Fault::SegmentTableFull)
                && final(self)@ == old(self)@,
            can_allocate(old(self)@) ==> r == Ok::<u32, Fault>(next_id(old(self)@) as u32)
                && final(self)@ == allocated(old(self)@, n as nat),
    {
        let ghost v0 = self@;
        let seg: Vec<u32> = vec![0u32; n as usize];
        assert(seg@ =~= zeros(n as nat));
        match self.free.pop() {
            Some(id) => {
                let i = id as usize;
                assert(v0.free[v0.free.len() - 1] == id);
                self.segments.set(i, seg);
                self.live.set(i, true);
                let ghost v = allocated(v0, n as nat);
                assert(self@.slots =~= v.slots);
                assert forall|k: int| 0 <= k < v.free.len() implies #[trigger] v.free[k] < v.slots.len()
                    && !is_live(v, v.free[k] as int) by {
                    assert(v0.free[k] != v0.free[v0.free.len() - 1]);
                    assert(v0.free[k] == v.free[k]);
                }
                Ok(id)
            },
            None => {
                if self.segments.len() > u32::MAX as usize {
                    return Err(Fault::SegmentTableFull);
                }
                let id = self.segments.len() as u32;
                self.segments.push(seg);
                self.live.push(true);
                let ghost v = allocated(v0, n as nat);
                assert(self@.slots =~= v.slots);
                assert forall|k: int| 0 <= k < v.free.len() implies #[trigger] v.free[k] < v.slots.len()
                    && !is_live(v, v.free[k] as int) by {
                    assert(v0.free[k] == v.free[k]);
                }
                Ok(id)
            },
        }
    }

    /// Abandons segment `id`: its storage is released and the identifier is
    /// pushed on the free stack. Segment 0 and identifiers that are not live
    /// are refused, and then nothing changes.
    pub fn abandon(&mut self, id: u32) -> (r: Result<(), Fault>)
        requires
            old(self).inv(),
        ensures
            final(self).inv(),
            id == 0 || !is_live(old(self)@, id as int) ==> r == Err::<(), Fault>(
                Fault::InvalidSegmentAccess,
            ) && final(self)@ == old(self)@,
            id != 0 && is_live(old(self)@, id as int) ==> r == Ok::<(), Fault>(()) && final(self)@
                == abandoned(old(self)@, id),
    {
        if id == 0 || !self.is_live(id) {
            return Err(Fault::InvalidSegmentAccess);
        }
        let ghost v0 = self@;
        let i = id as usize;
        self.segments.set(i, Vec::new());
        self.live.set(i, false);
        self.free.push(id);
        let ghost v = abandoned(v0, id);
        assert(self@.slots =~= v.slots);
        assert forall|k: int| 0 <= k < v.free.len() implies #[trigger] v.free[k] < v.slots.len()
            && !is_live(v, v.free[k] as int) by {
            if k < v0.free.len() {
                assert(v0.free[k] == v.free[k]);
            }
        }
        assert(v.free.no_duplicates()) by {
            assert forall|k: int| 0 <= k < v0.free.len() implies #[trigger] v0.free[k] != id by {}
        }
        Ok(())
    }

    /// Replaces segment 0 by a copy of segment `id`. With `id == 0` nothing is
    /// copied; an `id` that is not live is refused and nothing changes.
    pub fn load_program(&mut self, id: u32) -> (r: Result<(), Fault>)
        requires
            old(self).inv(),
        ensures
            final(self).inv(),
            id == 0 ==> r == Ok::<(), Fault>(()) && final(self)@ == old(self)@,
            id != 0 && !is_live(old(self)@, id as int) ==> r == Err::<(), Fault>(
                Fault::InvalidSegmentAccess,
            ) && final(self)@ == old(self)@,
            id != 0 && is_live(old(self)@, id as int) ==> r == Ok::<(), Fault>(()) && final(self)@
                == loaded(old(self)@, id as int),
    {
        if id == 0 {
            return Ok(());
        }
        if !self.is_live(id) {
            return Err(Fault::InvalidSegmentAccess);
        }
        let ghost v0 = self@;
        let copy = self.segments[id as usize].clone();
        self.segments.set(0, copy);
        let ghost v = loaded(v0, id as int);
        assert(self@.slots =~= v.slots);
        assert forall|k: int| 0 <= k < v.free.len() implies #[trigger] v.free[k] < v.slots.len()
            && !is_live(v, v.free[k] as int) by {
            assert(v0.free[k] != 0);
        }
        Ok(())
    }

    /// The number of words in segment 0.
    pub fn program_len(&self) -> (r: usize)
        requires
            self.inv(),
        ensures
            r == words(self@, 0).len(),
    {
        self.segments[0].len()
    }

    /// The word at `finger` of segment 0.
    pub fn fetch(&self, finger: usize) -> (r: Result<u32, Fault>)
        requires
            self.inv(),
        ensures
            finger >= words(self@, 0).len() ==> r == Err::<u32, Fault>(Fault::SegmentBoundsViolation),
            finger < words(self@, 0).len() ==> r == Ok::<u32, Fault>(words(self@, 0)[finger as int]),
            words(self@, 0).len() <= usize::MAX,
    {
        if finger >= self.segments[0].len() {
            Err(Fault::SegmentBoundsViolation)
        } else {
            Ok(self.segments[0][finger])
        }
    }

    /// The length of segment `id`, if it is live.
    pub fn segment_len(&self, id: u32) -> (r: Option<usize>)
        requires
            self.inv(),
        ensures
            is_live(self@, id as int) ==> r == Some(words(self@, id as int).len() as usize),
            !is_live(self@, id as int) ==> r is None,
    {
        if self.is_live(id) {
            Some(self.segments[id as usize].len())
        } else {
            None
        }
    }
}

/// Identifiers are reused most-recently-freed first: after a segment is
/// allocated and then abandoned, the next allocation gets the same identifier
/// back, and its segment is all zeros at the newly requested length whatever
/// the old segment held.
pub proof fn lemma_lifo_reuse(v: StoreView, n: nat, m: nat)
    requires
        well_formed(v),
        can_allocate(v),
    ensures
        ({
            let id = next_id(v);
            let v1 = allocated(v, n);
            let v2 = abandoned(v1, id as u32);
            &&& 0 < id < id_space()
            &&& is_live(v1, id)
            &&& words(v1, id) == zeros(n)
            &&& can_allocate(v2)
            &&& next_id(v2) == id
            &&& is_live(allocated(v2, m), id)
            &&& words(allocated(v2, m), id) == zeros(m)
        }),
{
    let id = next_id(v);
    if v.free.len() > 0 {
        assert(v.free[v.free.len() - 1] == v.free.last());
        assert(v.free.last() != 0);
    }
    let v1 = allocated(v, n);
    let v2 = abandoned(v1, id as u32);
    assert(v2.free.last() == id as u32);
}

} // verus!
