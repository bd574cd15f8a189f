//! Integer handles for native resources that the host holds in place of
//! pointers.
use vstd::prelude::*;

verus! {

/// One more than the largest slot index a handle can carry.
pub const SLOT_LIMIT: u64 = 0xffff_ffff;

/// Generations run below this bound; a slot whose generation reaches it is
/// retired and never handed out again.
pub const GENERATION_LIMIT: u64 = 0x8000_0000;

/// The handle of slot `i` in generation `g`: the generation in the high 32
/// bits, `i + 1` in the low 32 bits.
pub open spec fn handle_of(i: int, g: int) -> i64 {
    (((g as u64) << 32u64) | ((i + 1) as u64)) as i64
}

/// The slot index that handle `h` carries.
pub open spec fn slot_index(h: i64) -> int {
    ((h as u64) & 0xffff_ffffu64) as int - 1
}

/// The generation that handle `h` carries.
pub open spec fn generation_of(h: i64) -> int {
    ((h as u64) >> 32u64) as int
}

proof fn lemma_handle_fields(g: u64, j: u64)
    requires
        g < 0x8000_0000u64,
        1 <= j <= 0xffff_ffffu64,
    ensures
        ((g << 32u64) | j) & 0xffff_ffffu64 == j,
        ((g << 32u64) | j) >> 32u64 == g,
        0 < ((g << 32u64) | j) < 0x8000_0000_0000_0000u64,
{
    assert({
        &&& ((g << 32u64) | j) & 0xffff_ffffu64 == j
        &&& ((g << 32u64) | j) >> 32u64 == g
        &&& 0 < ((g << 32u64) | j) < 0x8000_0000_0000_0000u64
    }) by (bit_vector)
        requires
            g < 0x8000_0000u64,
            1 <= j <= 0xffff_ffffu64,
    ;
}

proof fn lemma_handle_recompose(x: u64)
    ensures
        x == (((x >> 32u64) << 32u64) | (x & 0xffff_ffffu64)),
{
    assert(x == (((x >> 32u64) << 32u64) | (x & 0xffff_ffffu64))) by (bit_vector);
}

/// Slot `i` in generation `g` has a handle that carries both back.
proof fn lemma_handle_of(i: int, g: int)
    requires
        0 <= i < SLOT_LIMIT,
        0 <= g < GENERATION_LIMIT,
    ensures
        handle_of(i, g) > 0,
        slot_index(handle_of(i, g)) == i,
        generation_of(handle_of(i, g)) == g,
{
    lemma_handle_fields(g as u64, (i + 1) as u64);
}

/// A positive handle is determined by the slot index and generation it
/// carries.
proof fn lemma_handle_determined(h: i64, k: i64)
    requires
        h > 0,
        k > 0,
        slot_index(h) == slot_index(k),
        generation_of(h) == generation_of(k),
    ensures
        h == k,
{
    lemma_handle_recompose(h as u64);
    lemma_handle_recompose(k as u64);
}

struct Slot<T> {
    value: Option<T>,
    generation: u64,
}

/// Resources of one kind, each named by a 64-bit handle; `0` is the null
/// handle that creation gives on failure. A destroyed resource's slot is
/// reused under a new generation, so the destroyed handle stays dead: using
/// or destroying it again is refused rather than reaching another resource.
pub struct HandleTable<T> {
    slots: Vec<Slot<T>>,
    issued: Ghost<Set<i64>>,
}

impl<T> View for HandleTable<T> {
    type V = Map<i64, T>;

    /// The live handles and the resources they name.
    closed spec fn view(&self) -> Map<i64, T> {
        Map::new(|h: i64| self.holds(h), |h: i64| self.slots@[slot_index(h)].value->Some_0)
    }
}

impl<T> HandleTable<T> {
    /// Handle `h` names a slot that holds a resource in the handle's
    /// generation.
    closed spec fn holds(&self, h: i64) -> bool {
        &&& h > 0
        &&& 0 <= slot_index(h) < self.slots@.len()
        &&& self.slots@[slot_index(h)].value is Some
        &&& generation_of(h) == self.slots@[slot_index(h)].generation
    }

    /// Slot `i` can take a new resource.
    closed spec fn free_slot(&self, i: int) -> bool {
        self.slots@[i].value is None && self.slots@[i].generation < GENERATION_LIMIT
    }

    /// Every handle this table has ever given out.
    pub closed spec fn issued(&self) -> Set<i64> {
        self.issued@
    }

    /// The table's internal invariant.
    pub closed spec fn wf(&self) -> bool {
        &&& self.slots@.len() <= SLOT_LIMIT
        &&& forall|i: int|
            0 <= i < self.slots@.len() ==> {
                &&& #[trigger] self.slots@[i].generation <= GENERATION_LIMIT
                &&& self.slots@[i].value is Some ==> self.slots@[i].generation < GENERATION_LIMIT
                &&& self.slots@[i].value is Some ==> self.issued@.contains(
                    handle_of(i, self.slots@[i].generation as int),
                )
            }
        &&& forall|h: i64| #[trigger]
            self.issued@.contains(h) ==> {
                &&& h > 0
                &&& 0 <= slot_index(h) < self.slots@.len()
                &&& generation_of(h) <= self.slots@[slot_index(h)].generation
                &&& generation_of(h) == self.slots@[slot_index(h)].generation
                    ==> self.slots@[slot_index(h)].value is Some
            }
    }

    /// Whether a resource can still be taken in.
    pub closed spec fn has_room(&self) -> bool {
        self.slots@.len() < SLOT_LIMIT || exists|i: int|
            0 <= i < self.slots@.len() && self.free_slot(i)
    }

    /// `h` names a resource that has not been destroyed.
    pub open spec fn is_live(&self, h: i64) -> bool {
        self@.contains_key(h)
    }

    /// The resource behind a live handle.
    pub open spec fn value_of(&self, h: i64) -> T {
        self@[h]
    }

    /// A table with no resources.
    pub fn new() -> (r: HandleTable<T>)
        ensures
            r.wf(),
            r@ == Map::<i64, T>::empty(),
            r.issued() == Set::<i64>::empty(),
            r.has_room(),
    {
        let r = HandleTable { slots: Vec::new(), issued: Ghost(Set::empty()) };
        assert(r@ =~= Map::<i64, T>::empty());
        r
    }

    /// Live handles have been given out, and are never null.
    pub proof fn lemma_live_issued(&self, h: i64)
        requires
            self.wf(),
            self.is_live(h),
        ensures
            self.issued().contains(h),
            h != 0,
    {
        let i = slot_index(h);
        assert(self.slots@[i].generation <= GENERATION_LIMIT);
        lemma_handle_of(i, self.slots@[i].generation as int);
        lemma_handle_determined(h, handle_of(i, self.slots@[i].generation as int));
    }

    /// The slot that a live `h` names, if any.
    fn locate(&self, h: i64) -> (r: Option<usize>)
        ensures
            r is Some == self.holds(h),
            r matches Some(i) ==> i == slot_index(h),
    {
        if h <= 0 {
            return None;
        }
        let x = h as u64;
        let low = x & 0xffff_ffffu64;
        let g = x >> 32u64;
        if low == 0 || low - 1 >= self.slots.len() as u64 {
            return None;
        }
        let i = (low - 1) as usize;
        if self.slots[i].generation == g && self.slots[i].value.is_some() {
            Some(i)
        } else {
            None
        }
    }

    /// Whether a resource can still be taken in.
    pub fn has_room_exec(&self) -> (r: bool)
        requires
            self.wf(),
        ensures
            r == self.has_room(),
    {
        self.find_free().is_some() || (self.slots.len() as u64) < SLOT_LIMIT
    }

    /// A slot that can take a new resource, if any.
    fn find_free(&self) -> (r: Option<usize>)
        ensures
            r matches Some(i) ==> i < self.slots@.len() && self.free_slot(i as int),
            r is None ==> forall|i: int| 0 <= i < self.slots@.len() ==> !self.free_slot(i),
    {
        let mut k: usize = 0;
        while k < self.slots.len()
            invariant
                k <= self.slots@.len(),
                forall|i: int| 0 <= i < k ==> !self.free_slot(i),
            decreases self.slots@.len() - k,
        {
            if self.slots[k].value.is_none() && self.slots[k].generation < GENERATION_LIMIT {
                return Some(k);
            }
            k = k + 1;
        }
        None
    }

    /// Whether `h` names a live resource.
    pub fn contains(&self, h: i64) -> (r: bool)
        ensures
            r == self.is_live(h),
    {
        self.locate(h).is_some()
    }

    /// Takes `v` into the table under a handle never given out before; with
    /// no room left, returns the null handle and drops `v`.
    pub fn insert(&mut self, v: T) -> (h: i64)
        requires
            old(self).wf(),
        ensures
            final(self).wf(),
            old(self).has_room() ==> {
                &&& h != 0
                &&& !old(self).issued().contains(h)
                &&& !old(self)@.contains_key(h)
                &&& final(self)@ == old(self)@.insert(h, v)
                &&& final(self).issued() == old(self).issued().insert(h)
            },
            !old(self).has_room() ==> h == 0 && final(self)@ == old(self)@ && final(self).issued()
                == old(self).issued(),
    {
        let ghost old_view = self@;
        let i: usize;
        match self.find_free() {
            Some(k) => {
                i = k;
                self.slots[i].value = Some(v);
            },
            None => {
                if self.slots.len() as u64 >= SLOT_LIMIT {
                    assert(!old(self).has_room());
                    return 0;
                }
                i = self.slots.len();
                self.slots.push(Slot { value: Some(v), generation: 0 });
            },
        }
        let g = self.slots[i].generation;
        let h = (((g as u64) << 32u64) | ((i + 1) as u64)) as i64;
        proof {
            lemma_handle_of(i as int, g as int);
            assert(h == handle_of(i as int, g as int));
            assert(!old(self).issued@.contains(h));
            if old(self).holds(h) {
                assert(old(self).issued@.contains(h));
            }
            self.issued@ = self.issued@.insert(h);
            assert forall|k: i64| #[trigger] self.holds(k) == (k == h || old(self).holds(k)) by {
                if self.holds(k) && slot_index(k) == i {
                    lemma_handle_determined(k, h);
                }
            }
            assert(self@ =~= old_view.insert(h, v));
            assert forall|j: int| 0 <= j < self.slots@.len() implies {
                &&& #[trigger] self.slots@[j].generation <= GENERATION_LIMIT
                &&& self.slots@[j].value is Some ==> self.slots@[j].generation < GENERATION_LIMIT
                &&& self.slots@[j].value is Some ==> self.issued@.contains(
                    handle_of(j, self.slots@[j].generation as int),
                )
            } by {
                if j != i {
                    assert(old(self).slots@[j] == self.slots@[j]);
                }
            }
            assert forall|k: i64| #[trigger] self.issued@.contains(k) implies {
                &&& k > 0
                &&& 0 <= slot_index(k) < self.slots@.len()
                &&& generation_of(k) <= self.slots@[slot_index(k)].generation
                &&& generation_of(k) == self.slots@[slot_index(k)].generation
                    ==> self.slots@[slot_index(k)].value is Some
            } by {
                if k != h {
                    assert(old(self).issued@.contains(k));
                }
            }
        }
        h
    }

    /// The resource behind `h`, if it is live.
    pub fn get(&self, h: i64) -> (r: Option<&T>)
        ensures
            r is Some == self.is_live(h),
            r matches Some(v) ==> *v == self.value_of(h),
    {
        match self.locate(h) {
            Some(i) => self.slots[i].value.as_ref(),
            None => None,
        }
    }

    /// The resource behind `h`, if it is live, to change in place.
    pub fn get_mut(&mut self, h: i64) -> (r: Option<&mut T>)
        requires
            old(self).wf(),
        ensures
            final(self).wf(),
            final(self).issued() == old(self).issued(),
            r is Some == old(self).is_live(h),
            r is Some ==> *r.unwrap() == old(self).value_of(h) && final(self)@ == old(self)@.insert(
                h,
                *final(r.unwrap()),
            ),
            r is None ==> final(self)@ == old(self)@,
    {
        match self.locate(h) {
            Some(i) => {
                proof {
                    assert forall|k: i64| #[trigger]
                        self.holds(k) && slot_index(k) == slot_index(h) implies k == h by {
                        lemma_handle_determined(k, h);
                    }
                }
                self.slots[i].value.as_mut()
            },
            None => None,
        }
    }

    /// Destroys the resource behind `h` and hands it back; a handle that is
    /// not live leaves the table unchanged.
    pub fn remove(&mut self, h: i64) -> (r: Option<T>)
        requires
            old(self).wf(),
        ensures
            final(self).wf(),
            final(self).issued() == old(self).issued(),
            old(self).is_live(h) ==> r == Some(old(self).value_of(h)) && final(self)@ == old(
                self,
            )@.remove(h),
            !old(self).is_live(h) ==> r is None && final(self)@ == old(self)@,
    {
        let ghost old_view = self@;
        match self.locate(h) {
            Some(i) => {
                let mut out: Option<T> = None;
                std::mem::swap(&mut out, &mut self.slots[i].value);
                let g = self.slots[i].generation;
                self.slots[i].generation = g + 1;
                proof {
                    assert forall|k: i64| #[trigger] self.holds(k) == (k != h && old(self).holds(k)) by {
                        if old(self).holds(k) && slot_index(k) == i {
                            lemma_handle_determined(k, h);
                        }
                    }
                    assert(self@ =~= old_view.remove(h));
                    assert forall|j: int| 0 <= j < self.slots@.len() implies {
                        &&& #[trigger] self.slots@[j].generation <= GENERATION_LIMIT
                        &&& self.slots@[j].value is Some ==> self.slots@[j].generation
                            < GENERATION_LIMIT
                        &&& self.slots@[j].value is Some ==> self.issued@.contains(
                            handle_of(j, self.slots@[j].generation as int),
                        )
                    } by {
                        if j != i {
                            assert(old(self).slots@[j] == self.slots@[j]);
                        }
                    }
                }
                out
            },
            None => None,
        }
    }
}

/// Creating a resource after a handle was destroyed gives a handle never
/// given out before, so the destroyed one stays dead.
pub proof fn lemma_destroyed_stays_dead<T>(t: HandleTable<T>, dead: i64, fresh: i64, v: T)
    requires
        t.issued().contains(dead),
        !t.is_live(dead),
        !t.issued().contains(fresh),
    ensures
        !t@.insert(fresh, v).contains_key(dead),
{
}

} // verus!
