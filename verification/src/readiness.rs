use vstd::prelude::*;

use crate::errors::ElErr;
use crate::events::{Events, Kevent};
use crate::ids::IdAllocator;
use crate::interests::Interests;

verus! {

/// The filter value of a read-readiness watch.
pub const EVFILT_READ: i16 = -1;

/// Add the watch to the queue.
pub const EV_ADD: u16 = 0x1;

/// Enable delivery for the watch.
pub const EV_ENABLE: u16 = 0x4;

/// Deliver at most once, then disarm the watch.
pub const EV_ONESHOT: u16 = 0x10;

/// The readiness backend's event record.
pub type Event = Kevent;

/// The record a one-shot read watch delivers for handle `fd` under token
/// `id`.
pub open spec fn spec_read_event(fd: i32, id: u64) -> Kevent {
    Kevent {
        ident: fd as u64,
        filter: EVFILT_READ,
        flags: EV_ADD | EV_ENABLE | EV_ONESHOT,
        fflags: 0,
        data: 0,
        udata: id,
    }
}

impl Kevent {
    /// A one-shot read-readiness watch on `fd`, tagged with the caller's
    /// token `id` in `udata` so the token comes back on delivery.
    pub fn new_read_event(fd: i32, id: u64) -> (e: Kevent)
        requires
            fd >= 0,
        ensures
            e == spec_read_event(fd, id),
    {
        Kevent {
            ident: fd as u64,
            filter: EVFILT_READ,
            flags: EV_ADD | EV_ENABLE | EV_ONESHOT,
            fflags: 0,
            data: 0,
            udata: id,
        }
    }

    /// An all-zero record, fit for pre-filling a buffer the queue will
    /// overwrite.
    pub fn zero() -> (e: Kevent)
        ensures
            e.ident == 0,
            e.filter == 0,
            e.flags == 0,
            e.fflags == 0,
            e.data == 0,
            e.udata == 0,
    {
        Kevent { ident: 0, filter: 0, flags: 0, fflags: 0, data: 0, udata: 0 }
    }
}

/// Where a registration stands in its one-shot cycle. An unarmed handle has
/// no registration at all; delivery consumes the watch, and only a new
/// `register` call re-arms it.
#[derive(Clone, Copy, Debug, PartialEq, Eq, Structural)]
pub enum ArmState {
    Armed,
    Fired,
}

/// One watch: a raw handle, the caller's token, and the arm state of its
/// one-shot cycle.
#[derive(Clone, Copy, Debug, PartialEq, Eq, Structural)]
pub struct Registration {
    pub fd: i32,
    pub token: u64,
    pub state: ArmState,
}

/// The mathematical state of a readiness selector: its identifier, its
/// watch table, and the queue of delivered-but-uncollected records.
#[verifier::ext_equal]
pub struct SelectorModel {
    pub id: int,
    pub regs: Seq<Registration>,
    pub fired: Seq<Kevent>,
}

/// The index of the registration for `fd`, or -1 if the handle is unarmed.
pub open spec fn reg_index(regs: Seq<Registration>, fd: i32) -> int
    decreases regs.len(),
{
    if regs.len() == 0 {
        -1
    } else if regs[0].fd == fd {
        0
    } else {
        let rest = reg_index(regs.skip(1), fd);
        if rest < 0 {
            -1
        } else {
            rest + 1
        }
    }
}

/// The watch table is well formed: one registration per handle, and every
/// handle is a valid (non-negative) descriptor.
pub open spec fn wf_regs(regs: Seq<Registration>) -> bool {
    &&& forall|i: int, j: int|
        0 <= i < j < regs.len() ==> regs[i].fd != regs[j].fd
    &&& forall|i: int| 0 <= i < regs.len() ==> regs[i].fd >= 0
}

/// `reg_index` finds the first (under `wf_regs`, the only) registration for
/// `fd`, and -1 exactly when there is none.
pub proof fn lemma_reg_index_props(regs: Seq<Registration>, fd: i32)
    ensures
        reg_index(regs, fd) >= 0 ==> {
            &&& reg_index(regs, fd) < regs.len()
            &&& regs[reg_index(regs, fd)].fd == fd
            &&& forall|j: int| 0 <= j < reg_index(regs, fd) ==> regs[j].fd != fd
        },
        reg_index(regs, fd) < 0 ==> {
            &&& reg_index(regs, fd) == -1
            &&& forall|j: int| 0 <= j < regs.len() ==> regs[j].fd != fd
        },
    decreases regs.len(),
{
    if regs.len() > 0 && regs[0].fd != fd {
        let rest = regs.skip(1);
        lemma_reg_index_props(rest, fd);
        let ri = reg_index(rest, fd);
        if ri >= 0 {
            assert(regs[ri + 1] == rest[ri]);
            assert forall|j: int| 0 <= j < ri + 1 implies regs[j].fd != fd by {
                if j > 0 {
                    assert(rest[j - 1] == regs[j]);
                }
            }
        } else {
            assert forall|j: int| 0 <= j < regs.len() implies regs[j].fd != fd by {
                if j > 0 {
                    assert(rest[j - 1] == regs[j]);
                }
            }
        }
    }
}

/// The converse: a position with `fd` and no earlier match is the index.
pub proof fn lemma_reg_index_first(regs: Seq<Registration>, fd: i32, i: int)
    requires
        0 <= i < regs.len(),
        regs[i].fd == fd,
        forall|j: int| 0 <= j < i ==> regs[j].fd != fd,
    ensures
        reg_index(regs, fd) == i,
    decreases regs.len(),
{
    if i > 0 {
        assert(forall|j: int| 0 <= j < regs.len() - 1 ==> regs.skip(1)[j] == regs[j + 1]);
        lemma_reg_index_first(regs.skip(1), fd, i - 1);
    }
}

/// A table with no registration for `fd` indexes to -1.
pub proof fn lemma_reg_index_none(regs: Seq<Registration>, fd: i32)
    requires
        forall|j: int| 0 <= j < regs.len() ==> regs[j].fd != fd,
    ensures
        reg_index(regs, fd) == -1,
{
    lemma_reg_index_props(regs, fd);
}

/// `reg_index` reads only the handles: two tables whose handles agree
/// pointwise index alike.
pub proof fn lemma_reg_index_same_fds(a: Seq<Registration>, b: Seq<Registration>, fd: i32)
    requires
        a.len() == b.len(),
        forall|i: int| 0 <= i < a.len() ==> a[i].fd == b[i].fd,
    ensures
        reg_index(a, fd) == reg_index(b, fd),
    decreases a.len(),
{
    if a.len() > 0 && a[0].fd != fd {
        assert(forall|j: int| 0 <= j < a.len() - 1 ==> a.skip(1)[j] == a[j + 1]);
        assert(forall|j: int| 0 <= j < b.len() - 1 ==> b.skip(1)[j] == b[j + 1]);
        lemma_reg_index_same_fds(a.skip(1), b.skip(1), fd);
    }
}

/// A successful `register` call: the one-shot watch for `fd` is armed under
/// `token`, replacing any earlier registration for the same handle.
pub open spec fn spec_register(m: SelectorModel, fd: i32, token: u64) -> SelectorModel {
    let reg = Registration { fd, token, state: ArmState::Armed };
    let i = reg_index(m.regs, fd);
    if i >= 0 {
        SelectorModel { regs: m.regs.update(i, reg), ..m }
    } else {
        SelectorModel { regs: m.regs.push(reg), ..m }
    }
}

/// The queue's reaction to `fd` becoming readable: an armed watch fires —
/// its record joins the delivery queue and the one-shot watch is consumed —
/// while a fired or unarmed handle delivers nothing.
pub open spec fn spec_notify(m: SelectorModel, fd: i32) -> SelectorModel {
    let i = reg_index(m.regs, fd);
    if i >= 0 && m.regs[i].state == ArmState::Armed {
        let r = m.regs[i];
        SelectorModel {
            regs: m.regs.update(i, Registration { state: ArmState::Fired, ..r }),
            fired: m.fired.push(spec_read_event(r.fd, r.token)),
            ..m
        }
    } else {
        m
    }
}

/// How many records one `select` call reports: all that are queued, capped
/// by the buffer's capacity.
pub open spec fn select_count(m: SelectorModel, cap: int) -> int {
    if m.fired.len() <= cap {
        m.fired.len() as int
    } else {
        cap
    }
}

/// One `select` call: the reported prefix of the delivery queue, in
/// kernel-report order, and the state with that prefix collected.
pub open spec fn spec_select(m: SelectorModel, cap: int) -> (SelectorModel, Seq<Kevent>) {
    let n = select_count(m, cap);
    (SelectorModel { fired: m.fired.skip(n), ..m }, m.fired.take(n))
}

/// The readiness selector: it owns one kernel event queue, modelled here as
/// the watch table and the delivery queue it would hold, plus an
/// allocator-issued identifier.
///
/// Readiness is reported to the queue through `notify_readable` — the edge
/// where, on a live system, the kernel's own bookkeeping sits — and
/// collected in bounded batches through `select`.
pub struct Selector {
    id: usize,
    registrations: Vec<Registration>,
    fired: Vec<Kevent>,
}

impl View for Selector {
    type V = SelectorModel;

    closed spec fn view(&self) -> SelectorModel {
        SelectorModel { id: self.id as int, regs: self.registrations@, fired: self.fired@ }
    }
}

/// Finds the registration for `fd`, if any.
fn find_fd(regs: &Vec<Registration>, fd: i32) -> (r: Option<usize>)
    ensures
        match r {
            Some(i) => reg_index(regs@, fd) == i && i < regs@.len() && regs@[i as int].fd == fd,
            None => reg_index(regs@, fd) == -1,
        },
{
    let n = regs.len();
    let mut i: usize = 0;
    while i < n
        invariant
            i <= n,
            n == regs@.len(),
            forall|j: int| 0 <= j < i ==> regs@[j].fd != fd,
        decreases n - i,
    {
        if regs[i].fd == fd {
            proof {
                lemma_reg_index_first(regs@, fd, i as int);
            }
            return Some(i);
        }
        i = i + 1;
    }
    proof {
        lemma_reg_index_none(regs@, fd);
    }
    None
}

impl Selector {
    /// Whether the selector's watch table is well formed; every constructor
    /// establishes this and every method keeps it.
    pub open spec fn wf(self) -> bool {
        wf_regs(self@.regs)
    }

    /// A selector under a caller-chosen identifier, owning a fresh, empty
    /// queue. Queue creation is the kernel's part; the model it backs starts
    /// empty and cannot fail.
    pub fn new_with_id(id: usize) -> (r: Result<Selector, ElErr>)
        ensures
            r matches Ok(s) && s@.id == id && s@.regs =~= Seq::<Registration>::empty()
                && s@.fired =~= Seq::<Kevent>::empty() && s.wf(),
    {
        Ok(Selector { id, registrations: Vec::new(), fired: Vec::new() })
    }

    /// A selector under a freshly issued identifier.
    pub fn new(ids: &mut IdAllocator) -> (r: Result<Selector, ElErr>)
        requires
            old(ids).counter() < usize::MAX,
        ensures
            final(ids).counter() == old(ids).counter() + 1,
            r matches Ok(s) && s@.id == old(ids).counter()
                && s@.regs =~= Seq::<Registration>::empty()
                && s@.fired =~= Seq::<Kevent>::empty() && s.wf(),
    {
        let id = ids.next();
        Selector::new_with_id(id)
    }

    /// The allocator-issued identifier of this selector.
    pub fn id(&self) -> (i: usize)
        ensures
            i == self@.id,
    {
        self.id
    }

    /// Arms a one-shot read watch for `fd` under `token`.
    ///
    /// Succeeds if and only if the interest set is non-empty and does not
    /// request Writable: an empty set is an invalid argument, and write
    /// readiness is a represented but unsupported interest on this backend.
    /// On failure nothing changes.
    pub fn register(&mut self, fd: i32, token: u64, interests: Interests) -> (r: Result<
        (),
        ElErr,
    >)
        requires
            old(self).wf(),
            fd >= 0,
        ensures
            final(self).wf(),
            r.is_ok() <==> (!interests.spec_is_empty() && !interests.spec_writable()),
            interests.spec_is_empty() ==> r == Err::<(), ElErr>(ElErr::InvalidArgument)
                && final(self)@ == old(self)@,
            !interests.spec_is_empty() && interests.spec_writable() ==> r == Err::<(), ElErr>(
                ElErr::Unsupported,
            ) && final(self)@ == old(self)@,
            !interests.spec_is_empty() && !interests.spec_writable() ==> r == Ok::<(), ElErr>(())
                && final(self)@ == spec_register(old(self)@, fd, token),
    {
        if interests.is_empty() {
            return Err(ElErr::InvalidArgument);
        }
        if interests.is_writable() {
            return Err(ElErr::Unsupported);
        }
        let reg = Registration { fd, token, state: ArmState::Armed };
        match find_fd(&self.registrations, fd) {
            Some(i) => {
                self.registrations.set(i, reg);
                proof {
                    assert(self@.regs =~= spec_register(old(self)@, fd, token).regs);
                    assert(self@ =~= spec_register(old(self)@, fd, token));
                }
            },
            None => {
                proof {
                    lemma_reg_index_props(old(self)@.regs, fd);
                }
                self.registrations.push(reg);
                proof {
                    assert(self@ =~= spec_register(old(self)@, fd, token));
                }
            },
        }
        Ok(())
    }

    /// The kernel-report edge: `fd` has become readable. An armed watch for
    /// it fires — exactly one record, carrying the registered token, joins
    /// the delivery queue, and the watch is consumed — while a fired or
    /// unarmed handle adds nothing.
    pub fn notify_readable(&mut self, fd: i32) -> (fired_now: bool)
        requires
            old(self).wf(),
        ensures
            final(self).wf(),
            final(self)@ == spec_notify(old(self)@, fd),
            fired_now == ({
                let i = reg_index(old(self)@.regs, fd);
                i >= 0 && old(self)@.regs[i].state == ArmState::Armed
            }),
    {
        match find_fd(&self.registrations, fd) {
            Some(i) => {
                let reg = self.registrations[i];
                match reg.state {
                    ArmState::Armed => {
                        proof {
                            lemma_reg_index_props(old(self)@.regs, fd);
                        }
                        let ev = Kevent::new_read_event(reg.fd, reg.token);
                        self.registrations.set(
                            i,
                            Registration { state: ArmState::Fired, ..reg },
                        );
                        self.fired.push(ev);
                        proof {
                            assert(self@ =~= spec_notify(old(self)@, fd));
                        }
                        true
                    },
                    ArmState::Fired => {
                        false
                    },
                }
            },
            None => {
                false
            },
        }
    }

    /// Blocks (on a live system) until at least one watch has fired, then
    /// batch-collects: the buffer is cleared and filled with exactly the
    /// reported records — never more than its capacity, never an entry the
    /// queue did not populate — in kernel-report order.
    pub fn select(&mut self, events: &mut Events) -> (r: Result<(), ElErr>)
        requires
            old(self).wf(),
        ensures
            final(self).wf(),
            r == Ok::<(), ElErr>(()),
            final(events).spec_capacity() == old(events).spec_capacity(),
            final(self)@ == spec_select(old(self)@, old(events).spec_capacity()).0,
            final(events)@ == spec_select(old(self)@, old(events).spec_capacity()).1,
            final(events)@.len() == select_count(old(self)@, old(events).spec_capacity()),
            final(events)@.len() <= old(events).spec_capacity(),
    {
        events.clear();
        let cap = events.capacity();
        let available = self.fired.len();
        let n = if available <= cap {
            available
        } else {
            cap
        };
        let mut i: usize = 0;
        while i < n
            invariant
                i <= n,
                n <= self.fired@.len(),
                n <= events.spec_capacity(),
                self@ == old(self)@,
                events@ =~= self.fired@.take(i as int),
                events.spec_capacity() == old(events).spec_capacity(),
            decreases n - i,
        {
            let ev = self.fired[i];
            events.push(ev);
            proof {
                assert(events@ =~= self.fired@.take(i + 1));
            }
            i = i + 1;
        }
        let mut rest: Vec<Kevent> = Vec::new();
        let total = self.fired.len();
        let mut j: usize = n;
        while j < total
            invariant
                n <= j <= total,
                total == self.fired@.len(),
                self@ == old(self)@,
                rest@ =~= self.fired@.subrange(n as int, j as int),
            decreases total - j,
        {
            let ev = self.fired[j];
            rest.push(ev);
            proof {
                assert(rest@ =~= self.fired@.subrange(n as int, j + 1));
            }
            j = j + 1;
        }
        self.fired = rest;
        proof {
            assert(self@.fired =~= spec_select(old(self)@, old(events).spec_capacity()).0.fired);
            assert(self@ =~= spec_select(old(self)@, old(events).spec_capacity()).0);
            assert(events@ =~= spec_select(old(self)@, old(events).spec_capacity()).1);
        }
        Ok(())
    }
}

/// One-shot delivery: a watch fires at most once per arm. After the first
/// readiness report for a handle, every further report — with no `register`
/// call for that handle in between — leaves the delivery queue unchanged,
/// so no second record for that token can be observed.
pub proof fn lemma_one_shot(m: SelectorModel, fd: i32)
    requires
        wf_regs(m.regs),
    ensures
        spec_notify(spec_notify(m, fd), fd).fired == spec_notify(m, fd).fired,
        spec_notify(spec_notify(m, fd), fd) == spec_notify(m, fd),
{
    let i = reg_index(m.regs, fd);
    lemma_reg_index_props(m.regs, fd);
    if i >= 0 && m.regs[i].state == ArmState::Armed {
        let m1 = spec_notify(m, fd);
        lemma_reg_index_same_fds(m.regs, m1.regs, fd);
        assert(m1.regs[i].state == ArmState::Fired);
        assert(spec_notify(m1, fd) =~= m1);
    }
}

/// The watch for `fd` stands consumed: its registration is either absent or
/// already fired, so the next readiness report for `fd` delivers nothing.
pub open spec fn not_armed(m: SelectorModel, fd: i32) -> bool {
    let i = reg_index(m.regs, fd);
    i < 0 || m.regs[i].state == ArmState::Fired
}

/// A readiness report consumes the watch it fires: afterwards the watch for
/// that handle is never still armed.
pub proof fn lemma_notify_consumes(m: SelectorModel, fd: i32)
    requires
        wf_regs(m.regs),
    ensures
        not_armed(spec_notify(m, fd), fd),
{
    let i = reg_index(m.regs, fd);
    lemma_reg_index_props(m.regs, fd);
    if i >= 0 && m.regs[i].state == ArmState::Armed {
        let m1 = spec_notify(m, fd);
        lemma_reg_index_same_fds(m.regs, m1.regs, fd);
    }
}

/// The frame of one readiness report: it keeps the table well formed, keeps
/// a consumed watch for `fd` consumed, extends the delivery queue without
/// touching what is already queued, and appends no record for `fd`.
pub proof fn lemma_notify_frame(m: SelectorModel, fd: i32, fd2: i32)
    requires
        wf_regs(m.regs),
        fd >= 0,
        not_armed(m, fd),
    ensures
        ({
            let m1 = spec_notify(m, fd2);
            &&& wf_regs(m1.regs)
            &&& not_armed(m1, fd)
            &&& m1.fired.len() >= m.fired.len()
            &&& forall|k: int| 0 <= k < m.fired.len() ==> m1.fired[k] == m.fired[k]
            &&& forall|k: int|
                m.fired.len() <= k < m1.fired.len() ==> m1.fired[k].ident != fd as u64
        }),
{
    let m1 = spec_notify(m, fd2);
    let j = reg_index(m.regs, fd2);
    lemma_reg_index_props(m.regs, fd2);
    lemma_reg_index_props(m.regs, fd);
    if j >= 0 && m.regs[j].state == ArmState::Armed {
        lemma_reg_index_same_fds(m.regs, m1.regs, fd);
        lemma_reg_index_same_fds(m.regs, m1.regs, fd2);
        // The watch that fired belongs to fd2; were fd2 the handle fd, its
        // watch would have had to be armed, against `not_armed`.
        assert(m.regs[j].fd == fd2);
        assert(fd2 != fd);
        assert(m1.fired.last().ident == fd2 as u64);
    }
}

/// A sequence of readiness reports, applied in order.
pub open spec fn notify_many(m: SelectorModel, fds: Seq<i32>) -> SelectorModel
    decreases fds.len(),
{
    if fds.len() == 0 {
        m
    } else {
        notify_many(spec_notify(m, fds[0]), fds.skip(1))
    }
}

/// One-shot across any interleaving: once the watch for `fd` is consumed,
/// no sequence of readiness reports — for `fd` or any other handle, with no
/// `register` call for `fd` among them — appends a record for `fd` to the
/// delivery queue, so no event for its token can be observed until the
/// handle is registered anew.
pub proof fn lemma_one_shot_chain(m: SelectorModel, fd: i32, fds: Seq<i32>)
    requires
        wf_regs(m.regs),
        fd >= 0,
        not_armed(m, fd),
    ensures
        ({
            let m2 = notify_many(m, fds);
            &&& m2.fired.len() >= m.fired.len()
            &&& forall|k: int| 0 <= k < m.fired.len() ==> m2.fired[k] == m.fired[k]
            &&& forall|k: int|
                m.fired.len() <= k < m2.fired.len() ==> m2.fired[k].ident != fd as u64
        }),
    decreases fds.len(),
{
    if fds.len() > 0 {
        lemma_notify_frame(m, fd, fds[0]);
        lemma_one_shot_chain(spec_notify(m, fds[0]), fd, fds.skip(1));
    }
}

/// `select` reports only records the queue holds: if no queued record
/// carries token `t` — in particular, after the watch under `t` fired and
/// its one record was collected — then no record of the reported batch
/// carries `t` either.
pub proof fn lemma_only_queued_exposed(m: SelectorModel, cap: int, t: u64)
    requires
        cap >= 0,
        forall|i: int| 0 <= i < m.fired.len() ==> m.fired[i].udata != t,
    ensures
        ({
            let batch = spec_select(m, cap).1;
            forall|i: int| 0 <= i < batch.len() ==> batch[i].udata != t
        }),
{
    let batch = spec_select(m, cap).1;
    assert forall|i: int| 0 <= i < batch.len() implies batch[i].udata != t by {
        assert(batch[i] == m.fired[i]);
    }
}

/// Re-arming: a new `register` call for the handle puts the watch back in
/// the armed state, and the next readiness report fires it again, with the
/// newly registered token.
pub proof fn lemma_rearm(m: SelectorModel, fd: i32, token: u64)
    requires
        wf_regs(m.regs),
        fd >= 0,
    ensures
        ({
            let m1 = spec_register(m, fd, token);
            spec_notify(m1, fd).fired == m1.fired.push(spec_read_event(fd, token))
        }),
{
    let reg = Registration { fd, token, state: ArmState::Armed };
    let i = reg_index(m.regs, fd);
    lemma_reg_index_props(m.regs, fd);
    let m1 = spec_register(m, fd, token);
    if i >= 0 {
        lemma_reg_index_same_fds(m.regs, m1.regs, fd);
        assert(m1.regs[i] == reg);
    } else {
        lemma_reg_index_first(m1.regs, fd, m.regs.len() as int);
        assert(m1.regs[m.regs.len() as int] == reg);
    }
}

} // verus!
