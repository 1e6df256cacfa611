use vstd::prelude::*;

verus! {

/// The state of one cell as the proofs see it.
///
/// `strong_ids` and `weak_ids` hold the identities of the handles that are
/// alive right now; the counts are their sizes.
pub struct CellView<T> {
    pub value: Option<T>,
    pub strong: nat,
    pub weak: nat,
    pub strong_ids: Set<nat>,
    pub weak_ids: Set<nat>,
}

impl<T> CellView<T> {
    /// Counts match the live handles, and the value is present exactly while
    /// some strong handle lives.
    pub open spec fn wf(self) -> bool {
        &&& self.strong_ids.finite()
        &&& self.weak_ids.finite()
        &&& self.strong == self.strong_ids.len()
        &&& self.weak == self.weak_ids.len()
        &&& (self.value is Some <==> self.strong > 0)
    }

    /// Both counts are zero: the cell's bookkeeping is no longer needed.
    pub open spec fn released(self) -> bool {
        self.strong == 0 && self.weak == 0
    }

    pub open spec fn add_strong(self, id: nat) -> CellView<T> {
        CellView {
            value: self.value,
            strong: self.strong + 1,
            weak: self.weak,
            strong_ids: self.strong_ids.insert(id),
            weak_ids: self.weak_ids,
        }
    }

    /// One strong handle leaves; the last one takes the value with it.
    pub open spec fn remove_strong(self, id: nat) -> CellView<T> {
        CellView {
            value: if self.strong == 1 { None } else { self.value },
            strong: (self.strong - 1) as nat,
            weak: self.weak,
            strong_ids: self.strong_ids.remove(id),
            weak_ids: self.weak_ids,
        }
    }

    pub open spec fn add_weak(self, id: nat) -> CellView<T> {
        CellView {
            value: self.value,
            strong: self.strong,
            weak: self.weak + 1,
            strong_ids: self.strong_ids,
            weak_ids: self.weak_ids.insert(id),
        }
    }

    pub open spec fn remove_weak(self, id: nat) -> CellView<T> {
        CellView {
            value: self.value,
            strong: self.strong,
            weak: (self.weak - 1) as nat,
            strong_ids: self.strong_ids,
            weak_ids: self.weak_ids.remove(id),
        }
    }
}


/// How one cell may change in a single operation: a cell whose value is gone
/// never gets it back, the strong count falls by at most one, and the value
/// never changes while it is alive.
pub open spec fn cell_step<T>(a: CellView<T>, b: CellView<T>) -> bool {
    &&& (a.strong == 0 ==> b.strong == 0)
    &&& a.strong <= b.strong + 1
    &&& (a.strong > 0 && b.strong > 0 ==> b.value == a.value)
}

/// How the cells of a heap may change in a single operation: no cell
/// disappears, and each one takes a [`cell_step`].
pub open spec fn heap_step<T>(a: Seq<CellView<T>>, b: Seq<CellView<T>>) -> bool {
    &&& a.len() <= b.len()
    &&& forall|i: int| 0 <= i < a.len() ==> cell_step(#[trigger] a[i], b[i])
}

/// A token that keeps its cell's value alive. It cannot be copied: it is
/// cloned and dropped only through its [`SharedHeap`].
pub struct StrongHandle {
    cell: usize,
    id: Ghost<nat>,
}

/// A token that observes a cell without keeping its value alive.
pub struct WeakHandle {
    cell: usize,
    id: Ghost<nat>,
}

/// Anything that names a cell of a heap.
pub trait CellRef {
    spec fn cell_index(&self) -> nat;

    fn cell(&self) -> (r: usize)
        ensures
            r as nat == self.cell_index(),
    ;
}

impl StrongHandle {
    /// The identity that distinguishes this handle from every other one.
    pub closed spec fn id(&self) -> nat {
        self.id@
    }
}

impl WeakHandle {
    /// The identity that distinguishes this handle from every other one.
    pub closed spec fn id(&self) -> nat {
        self.id@
    }
}

impl CellRef for StrongHandle {
    closed spec fn cell_index(&self) -> nat {
        self.cell as nat
    }

    fn cell(&self) -> (r: usize) {
        self.cell
    }
}

impl CellRef for WeakHandle {
    closed spec fn cell_index(&self) -> nat {
        self.cell as nat
    }

    fn cell(&self) -> (r: usize) {
        self.cell
    }
}

/// What dropping a handle did to its cell.
#[derive(Clone, Copy, Debug, PartialEq, Eq, Structural)]
pub enum DropEffect {
    /// Strong handles remain: the value is still alive.
    Retained,
    /// The last strong handle left: the value was destroyed, weak handles remain.
    ValueDestroyed,
    /// Both counts reached zero: the cell's allocation was released.
    Released,
}

/// The store that owns every shared cell.
pub struct SharedHeap<T> {
    values: Vec<Option<T>>,
    strong: Vec<u64>,
    weak: Vec<u64>,
    strong_ids: Ghost<Seq<Set<nat>>>,
    weak_ids: Ghost<Seq<Set<nat>>>,
    next_id: Ghost<nat>,
}

impl<T> View for SharedHeap<T> {
    type V = Seq<CellView<T>>;

    closed spec fn view(&self) -> Seq<CellView<T>> {
        Seq::new(
            self.values@.len(),
            |i: int|
                CellView {
                    value: self.values@[i],
                    strong: self.strong@[i] as nat,
                    weak: self.weak@[i] as nat,
                    strong_ids: self.strong_ids@[i],
                    weak_ids: self.weak_ids@[i],
                },
        )
    }
}

impl<T> SharedHeap<T> {
    /// The per-cell vectors agree in length, every cell is well formed, and
    /// every live handle's identity was handed out before `next_id`.
    pub closed spec fn wf(&self) -> bool {
        let n = self.values@.len();
        &&& self.strong@.len() == n
        &&& self.weak@.len() == n
        &&& self.strong_ids@.len() == n
        &&& self.weak_ids@.len() == n
        &&& forall|i: int| 0 <= i < n ==> (#[trigger] self@[i]).wf()
        &&& forall|i: int, id: nat|
            0 <= i < n && (self.strong_ids@[i].contains(id) || self.weak_ids@[i].contains(id))
                ==> id < self.next_id@
    }

    /// In a well-formed heap each cell's strong count is the number of live
    /// strong handles, its weak count the number of live weak handles, and
    /// its value is present exactly while a strong handle lives.
    pub proof fn lemma_counts_are_live_handles(&self, c: int)
        requires
            self.wf(),
            0 <= c < self@.len(),
        ensures
            self@[c].wf(),
            self@[c].strong == self@[c].strong_ids.len(),
            self@[c].weak == self@[c].weak_ids.len(),
            self@[c].value is Some <==> self@[c].strong > 0,
    {
    }

    /// `h` is a live strong handle of this heap.
    pub open spec fn holds_strong(&self, h: &StrongHandle) -> bool {
        h.cell_index() < self@.len() && self@[h.cell_index() as int].strong_ids.contains(h.id())
    }

    /// `w` is a live weak handle of this heap.
    pub open spec fn holds_weak(&self, w: &WeakHandle) -> bool {
        w.cell_index() < self@.len() && self@[w.cell_index() as int].weak_ids.contains(w.id())
    }

    /// An identity that no live handle of any cell carries.
    pub open spec fn is_fresh(&self, id: nat) -> bool {
        forall|i: int|
            0 <= i < self@.len() ==> !(#[trigger] self@[i]).strong_ids.contains(id)
                && !self@[i].weak_ids.contains(id)
    }

    /// An empty heap.
    pub fn new() -> (r: Self)
        ensures
            r.wf(),
            r@.len() == 0,
    {
        let r = SharedHeap {
            values: Vec::new(),
            strong: Vec::new(),
            weak: Vec::new(),
            strong_ids: Ghost(Seq::empty()),
            weak_ids: Ghost(Seq::empty()),
            next_id: Ghost(0),
        };
        assert(r@ =~= Seq::<CellView<T>>::empty());
        r
    }

    /// Allocates a cell that owns `value` and returns its first strong handle:
    /// one strong handle, no weak handle.
    pub fn new_shared(&mut self, value: T) -> (h: StrongHandle)
        requires
            old(self).wf(),
        ensures
            final(self).wf(),
            heap_step(old(self)@, final(self)@),
            h.cell_index() == old(self)@.len(),
            old(self).is_fresh(h.id()),
            final(self)@ == old(self)@.push(
                CellView {
                    value: Some(value),
                    strong: 1,
                    weak: 0,
                    strong_ids: set![h.id()],
                    weak_ids: Set::empty(),
                },
            ),
    {
        let ghost id = self.next_id@;
        let cell = self.values.len();
        self.values.push(Some(value));
        self.strong.push(1);
        self.weak.push(0);
        self.strong_ids = Ghost(self.strong_ids@.push(set![id]));
        self.weak_ids = Ghost(self.weak_ids@.push(Set::empty()));
        self.next_id = Ghost(id + 1);
        let h = StrongHandle { cell, id: Ghost(id) };
        proof {
            let c = CellView {
                value: Some(value),
                strong: 1,
                weak: 0,
                strong_ids: set![id],
                weak_ids: Set::<nat>::empty(),
            };
            assert(set![id].len() == 1) by {
                assert(set![id] =~= Set::<nat>::empty().insert(id));
            }
            assert(self@ =~= old(self)@.push(c));
        }
        h
    }

    /// Another strong handle to the cell of `h`; its strong count grows by one.
    pub fn clone_strong(&mut self, h: &StrongHandle) -> (r: StrongHandle)
        requires
            old(self).wf(),
            old(self).holds_strong(h),
            old(self)@[h.cell_index() as int].strong < u64::MAX,
        ensures
            final(self).wf(),
            heap_step(old(self)@, final(self)@),
            r.cell_index() == h.cell_index(),
            old(self).is_fresh(r.id()),
            final(self)@ == old(self)@.update(
                h.cell_index() as int,
                old(self)@[h.cell_index() as int].add_strong(r.id()),
            ),
    {
        self.new_strong(h.cell)
    }

    fn new_strong(&mut self, c: usize) -> (r: StrongHandle)
        requires
            old(self).wf(),
            c < old(self)@.len(),
            0 < old(self)@[c as int].strong < u64::MAX,
        ensures
            final(self).wf(),
            heap_step(old(self)@, final(self)@),
            r.cell_index() == c,
            old(self).is_fresh(r.id()),
            final(self)@ == old(self)@.update(c as int, old(self)@[c as int].add_strong(r.id())),
    {
        let ghost id = self.next_id@;
        let n = self.strong[c];
        self.strong[c] = n + 1;
        self.strong_ids = Ghost(self.strong_ids@.update(c as int, self.strong_ids@[c as int].insert(id)));
        self.next_id = Ghost(id + 1);
        proof {
            assert(self@ =~= old(self)@.update(c as int, old(self)@[c as int].add_strong(id)));
        }
        StrongHandle { cell: c, id: Ghost(id) }
    }

    /// A weak handle to the cell of `h`; its weak count grows by one and its
    /// strong count stays.
    pub fn downgrade(&mut self, h: &StrongHandle) -> (r: WeakHandle)
        requires
            old(self).wf(),
            old(self).holds_strong(h),
            old(self)@[h.cell_index() as int].weak < u64::MAX,
        ensures
            final(self).wf(),
            heap_step(old(self)@, final(self)@),
            r.cell_index() == h.cell_index(),
            old(self).is_fresh(r.id()),
            final(self)@ == old(self)@.update(
                h.cell_index() as int,
                old(self)@[h.cell_index() as int].add_weak(r.id()),
            ),
    {
        self.new_weak(h.cell)
    }

    /// Another weak handle to the cell of `w`, whether or not its value is
    /// still alive.
    pub fn clone_weak(&mut self, w: &WeakHandle) -> (r: WeakHandle)
        requires
            old(self).wf(),
            old(self).holds_weak(w),
            old(self)@[w.cell_index() as int].weak < u64::MAX,
        ensures
            final(self).wf(),
            heap_step(old(self)@, final(self)@),
            r.cell_index() == w.cell_index(),
            old(self).is_fresh(r.id()),
            final(self)@ == old(self)@.update(
                w.cell_index() as int,
                old(self)@[w.cell_index() as int].add_weak(r.id()),
            ),
    {
        self.new_weak(w.cell)
    }

    fn new_weak(&mut self, c: usize) -> (r: WeakHandle)
        requires
            old(self).wf(),
            c < old(self)@.len(),
            old(self)@[c as int].weak < u64::MAX,
        ensures
            final(self).wf(),
            heap_step(old(self)@, final(self)@),
            r.cell_index() == c,
            old(self).is_fresh(r.id()),
            final(self)@ == old(self)@.update(c as int, old(self)@[c as int].add_weak(r.id())),
    {
        let ghost id = self.next_id@;
        let n = self.weak[c];
        self.weak[c] = n + 1;
        self.weak_ids = Ghost(self.weak_ids@.update(c as int, self.weak_ids@[c as int].insert(id)));
        self.next_id = Ghost(id + 1);
        proof {
            assert(self@ =~= old(self)@.update(c as int, old(self)@[c as int].add_weak(id)));
        }
        WeakHandle { cell: c, id: Ghost(id) }
    }

    /// A new strong handle if the value of `w`'s cell is still alive, else
    /// `None` with the heap unchanged.
    pub fn upgrade(&mut self, w: &WeakHandle) -> (r: Option<StrongHandle>)
        requires
            old(self).wf(),
            old(self).holds_weak(w),
            old(self)@[w.cell_index() as int].strong < u64::MAX,
        ensures
            final(self).wf(),
            heap_step(old(self)@, final(self)@),
            r is Some <==> old(self)@[w.cell_index() as int].strong > 0,
            r is None ==> final(self)@ == old(self)@,
            r matches Some(s) ==> {
                &&& s.cell_index() == w.cell_index()
                &&& old(self).is_fresh(s.id())
                &&& final(self)@ == old(self)@.update(
                    w.cell_index() as int,
                    old(self)@[w.cell_index() as int].add_strong(s.id()),
                )
            },
    {
        let c = w.cell;
        if self.strong[c] > 0 {
            Some(self.new_strong(c))
        } else {
            None
        }
    }

    /// Gives up the strong handle `h`. The last strong handle of a cell
    /// destroys its value at once; with no weak handle left either, the cell
    /// is released too.
    pub fn drop_strong(&mut self, h: StrongHandle) -> (r: DropEffect)
        requires
            old(self).wf(),
            old(self).holds_strong(&h),
        ensures
            final(self).wf(),
            heap_step(old(self)@, final(self)@),
            final(self)@ == old(self)@.update(
                h.cell_index() as int,
                old(self)@[h.cell_index() as int].remove_strong(h.id()),
            ),
            r == DropEffect::Released <==> final(self)@[h.cell_index() as int].released(),
            r == (if old(self)@[h.cell_index() as int].strong > 1 {
                DropEffect::Retained
            } else if old(self)@[h.cell_index() as int].weak > 0 {
                DropEffect::ValueDestroyed
            } else {
                DropEffect::Released
            }),
    {
        let c = h.cell;
        let n = self.strong[c];
        self.strong[c] = n - 1;
        self.strong_ids = Ghost(self.strong_ids@.update(c as int, self.strong_ids@[c as int].remove(h.id@)));
        let r = if n > 1 {
            DropEffect::Retained
        } else {
            self.values[c] = None;
            if self.weak[c] > 0 {
                DropEffect::ValueDestroyed
            } else {
                DropEffect::Released
            }
        };
        proof {
            assert(self@ =~= old(self)@.update(c as int, old(self)@[c as int].remove_strong(h.id@)));
        }
        r
    }

    /// Gives up the weak handle `w`. The last handle of a cell whose value is
    /// already gone releases the cell.
    pub fn drop_weak(&mut self, w: WeakHandle) -> (r: DropEffect)
        requires
            old(self).wf(),
            old(self).holds_weak(&w),
        ensures
            final(self).wf(),
            heap_step(old(self)@, final(self)@),
            final(self)@ == old(self)@.update(
                w.cell_index() as int,
                old(self)@[w.cell_index() as int].remove_weak(w.id()),
            ),
            r == DropEffect::Released <==> final(self)@[w.cell_index() as int].released(),
            r == (if old(self)@[w.cell_index() as int].weak == 1
                && old(self)@[w.cell_index() as int].strong == 0 {
                DropEffect::Released
            } else {
                DropEffect::Retained
            }),
    {
        let c = w.cell;
        let n = self.weak[c];
        self.weak[c] = n - 1;
        self.weak_ids = Ghost(self.weak_ids@.update(c as int, self.weak_ids@[c as int].remove(w.id@)));
        proof {
            assert(self@ =~= old(self)@.update(c as int, old(self)@[c as int].remove_weak(w.id@)));
        }
        if n == 1 && self.strong[c] == 0 {
            DropEffect::Released
        } else {
            DropEffect::Retained
        }
    }

    /// The value that the live strong handle `h` keeps alive.
    pub fn get(&self, h: &StrongHandle) -> (r: &T)
        requires
            self.wf(),
            self.holds_strong(h),
        ensures
            self@[h.cell_index() as int].value == Some(*r),
    {
        self.values[h.cell].as_ref().unwrap()
    }

    /// The number of live strong handles of the cell that `h` names.
    pub fn strong_count<H: CellRef>(&self, h: &H) -> (r: u64)
        requires
            self.wf(),
            h.cell_index() < self@.len(),
        ensures
            r == self@[h.cell_index() as int].strong,
    {
        self.strong[h.cell()]
    }

    /// The number of live weak handles of the cell that `h` names.
    pub fn weak_count<H: CellRef>(&self, h: &H) -> (r: u64)
        requires
            self.wf(),
            h.cell_index() < self@.len(),
        ensures
            r == self@[h.cell_index() as int].weak,
    {
        self.weak[h.cell()]
    }
}

} // verus!
