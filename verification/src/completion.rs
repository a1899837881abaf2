use vstd::prelude::*;

use crate::errors::ElErr;
use crate::ids::IdAllocator;

verus! {

/// A placeholder completion-side event marker.
#[derive(Clone, Copy, Debug, PartialEq, Eq, Structural)]
pub struct IOCPevent {}

impl Default for IOCPevent {
    fn default() -> (r: Self)
        ensures
            r == (IOCPevent {  }),
    {
        IOCPevent {  }
    }
}

/// The fixed-layout descriptor of one buffer region as the kernel's read
/// call takes it: a length and a non-owning handle standing for the
/// region's address.
#[derive(Clone, Copy, Debug, PartialEq, Eq, Structural)]
pub struct WSABUF {
    pub len: u32,
    pub buf: usize,
}

impl WSABUF {
    pub fn new(len: u32, buf: usize) -> (r: Self)
        ensures
            r.len == len,
            r.buf == buf,
    {
        WSABUF { len, buf }
    }
}

/// The kernel-owned bookkeeping record behind one asynchronous socket
/// operation. Every field is reserved for the kernel; the core only keeps
/// the record alive, zeroed at issuance, until the completion is retrieved.
#[derive(Clone, Copy, Debug, PartialEq, Eq, Structural)]
pub struct WSAOVERLAPPED {
    pub internal: usize,
    pub internal_high: usize,
    pub offset: u32,
    pub offset_high: u32,
    pub h_event: isize,
}

impl WSAOVERLAPPED {
    /// A fresh, zeroed record, as handed to the kernel at issuance.
    pub fn zero() -> (r: Self)
        ensures
            r == spec_zero_wsaoverlapped(),
    {
        WSAOVERLAPPED { internal: 0, internal_high: 0, offset: 0, offset_high: 0, h_event: 0 }
    }
}

/// The all-zero kernel bookkeeping record.
pub open spec fn spec_zero_wsaoverlapped() -> WSAOVERLAPPED {
    WSAOVERLAPPED { internal: 0, internal_high: 0, offset: 0, offset_high: 0, h_event: 0 }
}

/// The generic shape of the kernel's per-operation record, as a completion
/// entry refers to it.
#[derive(Clone, Copy, Debug, PartialEq, Eq, Structural)]
pub struct OVERLAPPED {
    pub internal: usize,
    pub internal_high: usize,
    pub offset: u32,
    pub offset_high: u32,
    pub h_event: isize,
}

impl OVERLAPPED {
    /// A fresh, zeroed record.
    pub fn zero() -> (r: Self)
        ensures
            r == spec_zero_overlapped(),
    {
        OVERLAPPED { internal: 0, internal_high: 0, offset: 0, offset_high: 0, h_event: 0 }
    }
}

/// The all-zero per-operation record.
pub open spec fn spec_zero_overlapped() -> OVERLAPPED {
    OVERLAPPED { internal: 0, internal_high: 0, offset: 0, offset_high: 0, h_event: 0 }
}

/// One entry of a retrieved completion batch: the token the operation was
/// issued under, the operation's kernel record, and how many bytes the
/// kernel transferred. Zero bytes transferred signals a closed handle; the
/// caller interprets that, not this layer.
#[allow(non_camel_case_types)]
#[derive(Clone, Copy, Debug, PartialEq, Eq, Structural)]
pub struct OVERLAPPED_ENTRY {
    pub lp_completion_key: usize,
    pub lp_overlapped: OVERLAPPED,
    pub internal: usize,
    pub bytes_transferred: u32,
}

impl OVERLAPPED_ENTRY {
    /// The token under which the completed operation was issued.
    pub fn id(&self) -> (k: usize)
        ensures
            k == self.lp_completion_key,
    {
        self.lp_completion_key
    }

    /// How many bytes the kernel transferred; zero signals a closed peer.
    pub fn bytes_transferred(&self) -> (b: u32)
        ensures
            b == self.bytes_transferred,
    {
        self.bytes_transferred
    }
}

/// One outstanding operation: the caller's token, the socket the read was
/// issued on, the caller-supplied buffer the kernel reads into, and the
/// kernel's bookkeeping record. The record is owned by the selector's
/// pending table — conceptually by the kernel — from issuance until the
/// completion is retrieved, so it can neither move nor be freed meanwhile.
pub struct OperationContext {
    pub token: usize,
    pub socket: u64,
    pub buffer: Vec<u8>,
    pub overlapped: WSAOVERLAPPED,
}

/// The mathematical state of one outstanding operation.
#[verifier::ext_equal]
pub struct OpModel {
    pub token: usize,
    pub socket: u64,
    pub buf: Seq<u8>,
}

impl View for OperationContext {
    type V = OpModel;

    closed spec fn view(&self) -> OpModel {
        OpModel { token: self.token, socket: self.socket, buf: self.buffer@ }
    }
}

/// The mathematical state of a completion selector: its identifier, the
/// operations handed to the kernel and not yet completed, the completions
/// reported but not yet retrieved, and the pool of reusable buffers.
#[verifier::ext_equal]
pub struct CompletionModel {
    pub id: int,
    pub pending: Seq<OpModel>,
    pub completed: Seq<OVERLAPPED_ENTRY>,
    pub pool: Seq<Seq<u8>>,
}

/// The index of the first pending operation under `token`, or -1.
pub open spec fn pending_index(pending: Seq<OpModel>, token: usize) -> int
    decreases pending.len(),
{
    if pending.len() == 0 {
        -1
    } else if pending[0].token == token {
        0
    } else {
        let rest = pending_index(pending.skip(1), token);
        if rest < 0 {
            -1
        } else {
            rest + 1
        }
    }
}

/// `pending_index` finds the first operation under `token`, and -1 exactly
/// when there is none.
pub proof fn lemma_pending_index_props(pending: Seq<OpModel>, token: usize)
    ensures
        pending_index(pending, token) >= 0 ==> {
            &&& pending_index(pending, token) < pending.len()
            &&& pending[pending_index(pending, token)].token == token
            &&& forall|j: int|
                0 <= j < pending_index(pending, token) ==> pending[j].token != token
        },
        pending_index(pending, token) < 0 ==> {
            &&& pending_index(pending, token) == -1
            &&& forall|j: int| 0 <= j < pending.len() ==> pending[j].token != token
        },
    decreases pending.len(),
{
    if pending.len() > 0 && pending[0].token != token {
        let rest = pending.skip(1);
        lemma_pending_index_props(rest, token);
        let ri = pending_index(rest, token);
        if ri >= 0 {
            assert(pending[ri + 1] == rest[ri]);
            assert forall|j: int| 0 <= j < ri + 1 implies pending[j].token != token by {
                if j > 0 {
                    assert(rest[j - 1] == pending[j]);
                }
            }
        } else {
            assert forall|j: int| 0 <= j < pending.len() implies pending[j].token != token by {
                if j > 0 {
                    assert(rest[j - 1] == pending[j]);
                }
            }
        }
    }
}

/// The converse: a position under `token` with no earlier match is the
/// index.
pub proof fn lemma_pending_index_first(pending: Seq<OpModel>, token: usize, i: int)
    requires
        0 <= i < pending.len(),
        pending[i].token == token,
        forall|j: int| 0 <= j < i ==> pending[j].token != token,
    ensures
        pending_index(pending, token) == i,
    decreases pending.len(),
{
    if i > 0 {
        let rest = pending.skip(1);
        assert(forall|j: int| 0 <= j < pending.len() - 1 ==> rest[j] == pending[j + 1]);
        lemma_pending_index_first(rest, token, i - 1);
    }
}

/// The completion entry reported for an operation under `token` whose
/// transfer moved `bytes` bytes.
pub open spec fn completion_entry(token: usize, bytes: u32) -> OVERLAPPED_ENTRY {
    OVERLAPPED_ENTRY {
        lp_completion_key: token,
        lp_overlapped: spec_zero_overlapped(),
        internal: 0,
        bytes_transferred: bytes,
    }
}

/// Issuing a read: a fresh operation context joins the pending table, its
/// buffer owned there until the completion is retrieved.
pub open spec fn spec_issue(m: CompletionModel, socket: u64, token: usize, buf: Seq<u8>) -> CompletionModel {
    CompletionModel { pending: m.pending.push(OpModel { token, socket, buf }), ..m }
}

/// The kernel-report edge: the transfer of the first pending operation
/// under `token` finished with `bytes` bytes moved. The operation leaves
/// the pending table, its buffer returns to the reuse pool, and an entry
/// joins the completion queue; a token with nothing pending completes
/// nothing.
pub open spec fn spec_post(m: CompletionModel, token: usize, bytes: u32) -> CompletionModel {
    let i = pending_index(m.pending, token);
    if i >= 0 {
        CompletionModel {
            pending: m.pending.remove(i),
            completed: m.completed.push(completion_entry(token, bytes)),
            pool: m.pool.push(m.pending[i].buf),
            ..m
        }
    } else {
        m
    }
}

/// How many entries one `select` call reports: all that are queued, capped
/// by the caller's `max_count`.
pub open spec fn comp_select_count(m: CompletionModel, max_count: int) -> int {
    if m.completed.len() <= max_count {
        m.completed.len() as int
    } else {
        max_count
    }
}

/// One `select` call: the reported prefix of the completion queue, in
/// kernel-report order, and the state with that prefix retrieved.
pub open spec fn spec_comp_select(m: CompletionModel, max_count: int) -> (CompletionModel, Seq<
    OVERLAPPED_ENTRY,
>) {
    let n = comp_select_count(m, max_count);
    (CompletionModel { completed: m.completed.skip(n), ..m }, m.completed.take(n))
}

/// The completion selector: it owns one completion port, modelled here as
/// the pending-operations table and completion queue the port would hold,
/// an allocator-issued identifier, and the pool of reusable buffers.
///
/// Completions are reported to the port through `post_completion` — the
/// edge where, on a live system, the kernel finishes the transfer — and
/// retrieved in bounded batches through `select`.
pub struct Selector {
    id: usize,
    buffers: Vec<Vec<u8>>,
    pending: Vec<OperationContext>,
    completed: Vec<OVERLAPPED_ENTRY>,
}

impl View for Selector {
    type V = CompletionModel;

    closed spec fn view(&self) -> CompletionModel {
        CompletionModel {
            id: self.id as int,
            pending: self.pending@.map_values(|c: OperationContext| c@),
            completed: self.completed@,
            pool: self.buffers@.map_values(|b: Vec<u8>| b@),
        }
    }
}

impl Selector {
    /// A selector under a freshly issued identifier, owning a fresh, empty
    /// completion port and an empty buffer pool. Port creation is the
    /// kernel's part; the model it backs starts empty and cannot fail.
    pub fn new(ids: &mut IdAllocator) -> (r: Result<Selector, ElErr>)
        requires
            old(ids).counter() < usize::MAX,
        ensures
            final(ids).counter() == old(ids).counter() + 1,
            r matches Ok(s) && s@.id == old(ids).counter() && s@.pending =~= Seq::<OpModel>::empty()
                && s@.completed =~= Seq::<OVERLAPPED_ENTRY>::empty() && s@.pool =~= Seq::<
                Seq<u8>,
            >::empty(),
    {
        let id = ids.next();
        let s = Selector { id, buffers: Vec::new(), pending: Vec::new(), completed: Vec::new() };
        proof {
            assert(s@.pending =~= Seq::<OpModel>::empty());
            assert(s@.pool =~= Seq::<Seq<u8>>::empty());
        }
        Ok(s)
    }

    /// The allocator-issued identifier of this selector.
    pub fn id(&self) -> (i: usize)
        ensures
            i == self@.id,
    {
        self.id
    }

    /// How many issued operations have not completed yet.
    pub fn pending_count(&self) -> (n: usize)
        ensures
            n == self@.pending.len(),
    {
        self.pending.len()
    }

    /// How many buffers sit in the reuse pool.
    pub fn pool_len(&self) -> (n: usize)
        ensures
            n == self@.pool.len(),
    {
        self.buffers.len()
    }

    /// Issues an asynchronous read on `socket` under `token` into the
    /// caller-supplied `buffer`.
    ///
    /// The freshly constructed operation context — token, buffer, zeroed
    /// kernel record — moves into the pending table, where it stays, owned
    /// and unmoved, until its completion is retrieved: the central lifetime
    /// invariant of this backend. Whether the kernel reports the operation
    /// pending or already complete, issuing succeeds either way; an already
    /// complete transfer is reported through the same completion edge.
    pub fn register_soc_read_event(&mut self, socket: u64, token: usize, buffer: Vec<u8>) -> (r:
        Result<(), ElErr>)
        ensures
            r == Ok::<(), ElErr>(()),
            final(self)@ == spec_issue(old(self)@, socket, token, buffer@),
    {
        let ghost buf = buffer@;
        let ctx = OperationContext { token, socket, buffer, overlapped: WSAOVERLAPPED::zero() };
        self.pending.push(ctx);
        proof {
            assert(self@.pending =~= spec_issue(old(self)@, socket, token, buf).pending);
            assert(self@ =~= spec_issue(old(self)@, socket, token, buf));
        }
        Ok(())
    }

    /// The kernel-report edge: the transfer issued under `token` finished
    /// with `bytes` bytes moved (zero meaning the peer closed). Returns
    /// whether an operation under that token was pending at all; only then
    /// does anything change.
    pub fn post_completion(&mut self, token: usize, bytes: u32) -> (matched: bool)
        ensures
            final(self)@ == spec_post(old(self)@, token, bytes),
            matched == (pending_index(old(self)@.pending, token) >= 0),
    {
        let n = self.pending.len();
        let mut i: usize = 0;
        while i < n
            invariant
                i <= n,
                n == self.pending@.len(),
                self@ == old(self)@,
                forall|j: int| 0 <= j < i ==> self@.pending[j].token != token,
            decreases n - i,
        {
            if self.pending[i].token == token {
                proof {
                    lemma_pending_index_first(self@.pending, token, i as int);
                }
                let ghost pre = self@;
                let ctx = self.pending.remove(i);
                self.buffers.push(ctx.buffer);
                let entry = OVERLAPPED_ENTRY {
                    lp_completion_key: token,
                    lp_overlapped: OVERLAPPED::zero(),
                    internal: 0,
                    bytes_transferred: bytes,
                };
                self.completed.push(entry);
                proof {
                    assert(self@.pending =~= spec_post(pre, token, bytes).pending);
                    assert(self@.pool =~= spec_post(pre, token, bytes).pool);
                    assert(self@ =~= spec_post(pre, token, bytes));
                }
                return true;
            }
            i = i + 1;
        }
        proof {
            lemma_pending_index_props(self@.pending, token);
        }
        false
    }

    /// Blocks (on a live system) until at least one outstanding operation
    /// has completed or the timeout elapses, then batch-retrieves: the
    /// caller's buffer is cleared and filled with exactly the reported
    /// entries — never more than `max_count`, never an entry the port did
    /// not populate — in kernel-report order. An elapsed timeout is the
    /// empty batch, a normal return and no error. `timeout` of `None`
    /// means an unbounded wait.
    pub fn select(&mut self, events: &mut Vec<OVERLAPPED_ENTRY>, max_count: usize, timeout: Option<
        u32,
    >) -> (r: Result<usize, ElErr>)
        ensures
            final(self)@ == spec_comp_select(old(self)@, max_count as int).0,
            final(events)@ == spec_comp_select(old(self)@, max_count as int).1,
            r matches Ok(n) && n == comp_select_count(old(self)@, max_count as int),
            final(events)@.len() <= max_count,
    {
        let _ = timeout;
        events.clear();
        let available = self.completed.len();
        let n = if available <= max_count {
            available
        } else {
            max_count
        };
        let mut i: usize = 0;
        while i < n
            invariant
                i <= n,
                n <= self.completed@.len(),
                self@ == old(self)@,
                events@ =~= self.completed@.take(i as int),
            decreases n - i,
        {
            let entry = self.completed[i];
            events.push(entry);
            proof {
                assert(events@ =~= self.completed@.take(i + 1));
            }
            i = i + 1;
        }
        let mut rest: Vec<OVERLAPPED_ENTRY> = Vec::new();
        let total = self.completed.len();
        let mut j: usize = n;
        while j < total
            invariant
                n <= j <= total,
                total == self.completed@.len(),
                self@ == old(self)@,
                rest@ =~= self.completed@.subrange(n as int, j as int),
            decreases total - j,
        {
            let entry = self.completed[j];
            rest.push(entry);
            proof {
                assert(rest@ =~= self.completed@.subrange(n as int, j + 1));
            }
            j = j + 1;
        }
        self.completed = rest;
        proof {
            assert(self@.completed =~= spec_comp_select(old(self)@, max_count as int).0.completed);
            assert(self@ =~= spec_comp_select(old(self)@, max_count as int).0);
            assert(events@ =~= spec_comp_select(old(self)@, max_count as int).1);
        }
        Ok(n)
    }
}

/// `select` never exposes an operation context that has not actually
/// completed: if no entry of the completion queue carries token `t` — in
/// particular, while an operation under `t` is still pending, or was never
/// issued — then no entry of the batch `select` reports carries `t` either.
pub proof fn lemma_only_completed_exposed(m: CompletionModel, max_count: int, t: usize)
    requires
        max_count >= 0,
        forall|i: int| 0 <= i < m.completed.len() ==> m.completed[i].lp_completion_key != t,
    ensures
        ({
            let batch = spec_comp_select(m, max_count).1;
            forall|i: int| 0 <= i < batch.len() ==> batch[i].lp_completion_key != t
        }),
{
    let batch = spec_comp_select(m, max_count).1;
    assert forall|i: int| 0 <= i < batch.len() implies batch[i].lp_completion_key != t by {
        assert(batch[i] == m.completed[i]);
    }
}

/// A completion entry arises only from a pending operation: reporting a
/// completion for a token with nothing pending changes nothing at all.
pub proof fn lemma_unissued_never_completes(m: CompletionModel, token: usize, bytes: u32)
    requires
        pending_index(m.pending, token) < 0,
    ensures
        spec_post(m, token, bytes) == m,
{
}

} // verus!
