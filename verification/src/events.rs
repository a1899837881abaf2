use vstd::prelude::*;

verus! {

/// One kernel event record of the readiness backend: the watched handle in
/// `ident`, the filter that fired, the one-shot flags the watch was armed
/// with, and the caller's token round-tripped through `udata`.
#[derive(Clone, Copy, Debug, PartialEq, Eq, Structural)]
pub struct Kevent {
    pub ident: u64,
    pub filter: i16,
    pub flags: u16,
    pub fflags: u32,
    pub data: i64,
    pub udata: u64,
}

/// The caller-owned, reusable buffer a readiness `select` batch-fills.
///
/// Its capacity is fixed at construction; `clear` resets the observable
/// length to zero without touching the capacity; after a `select`, the
/// length equals exactly the number of records the queue reported, and
/// `get` refuses any index beyond it — an entry the kernel did not populate
/// cannot be observed.
pub struct Events {
    entries: Vec<Kevent>,
    capacity: usize,
}

impl View for Events {
    type V = Seq<Kevent>;

    /// The records populated by the last `select`, in kernel-report order.
    closed spec fn view(&self) -> Seq<Kevent> {
        self.entries@
    }
}

impl Events {
    /// The fixed capacity chosen at construction.
    pub closed spec fn spec_capacity(self) -> int {
        self.capacity as int
    }

    /// No more entries are observable than the buffer has room for.
    pub open spec fn wf(self) -> bool {
        self@.len() <= self.spec_capacity()
    }

    /// An empty buffer that one `select` call will fill with at most
    /// `capacity` records.
    pub fn with_capacity(capacity: usize) -> (r: Self)
        ensures
            r@ =~= Seq::<Kevent>::empty(),
            r.spec_capacity() == capacity,
            r.wf(),
    {
        Events { entries: Vec::new(), capacity }
    }

    /// Resets the observable length to zero; the capacity is kept.
    pub fn clear(&mut self)
        ensures
            final(self)@ =~= Seq::<Kevent>::empty(),
            final(self).spec_capacity() == old(self).spec_capacity(),
            final(self).wf(),
    {
        self.entries.clear();
    }

    /// How many records the last `select` populated.
    pub fn len(&self) -> (n: usize)
        ensures
            n == self@.len(),
    {
        self.entries.len()
    }

    pub fn is_empty(&self) -> (b: bool)
        ensures
            b == (self@.len() == 0),
    {
        self.entries.len() == 0
    }

    pub fn capacity(&self) -> (c: usize)
        ensures
            c == self.spec_capacity(),
    {
        self.capacity
    }

    /// The record at `i`; only populated entries can be asked for.
    pub fn get(&self, i: usize) -> (e: Kevent)
        requires
            i < self@.len(),
        ensures
            e == self@[i as int],
    {
        self.entries[i]
    }

    /// Appends one populated record; `select` alone uses this, and never
    /// beyond the capacity.
    pub(crate) fn push(&mut self, e: Kevent)
        requires
            old(self)@.len() < old(self).spec_capacity(),
        ensures
            final(self)@ =~= old(self)@.push(e),
            final(self).spec_capacity() == old(self).spec_capacity(),
            final(self).wf(),
    {
        self.entries.push(e);
    }
}

} // verus!
