//! Reassembly of out-of-order segment chunks into an in-order byte stream
//! with bounded memory.
//!
//! Admission is windowed: a chunk is accepted at once when it lies within
//! `max_ahead` bytes of the output cursor (and always when it starts at or
//! before the cursor); otherwise its producer must wait until the cursor
//! advances. So the next-needed bytes can always be buffered and the leading
//! segment keeps streaming to the client, while trailing segments that race
//! too far ahead are held back.
//!
//! This is the state of the buffer and its transitions; waiting and waking
//! are left to the caller, which retries a push that must wait and a pop that
//! has nothing yet after the state changes.
use std::collections::BTreeMap;

use vstd::prelude::*;

use crate::text::string_from_chars;

verus! {

broadcast use vstd::std_specs::btree::group_btree_axioms;

/// The characters of the message for a download that ended early.
pub open spec fn incomplete_message() -> Seq<char> {
    seq![
        's', 'e', 'g', 'm', 'e', 'n', 't', 'e', 'd', ' ', 'd', 'o', 'w', 'n', 'l', 'o', 'a', 'd',
        ' ', 'e', 'n', 'd', 'e', 'd', ' ', 'b', 'e', 'f', 'o', 'r', 'e', ' ', 'a', 'l', 'l', ' ',
        'b', 'y', 't', 'e', 's', ' ', 'w', 'e', 'r', 'e', ' ', 'r', 'e', 'c', 'e', 'i', 'v', 'e',
        'd',
    ]
}

/// The buffer between the segment workers and the client.
pub struct ReorderBuffer {
    total_size: u64,
    max_ahead: u64,
    cursor: u64,
    pending: BTreeMap<u64, Vec<u8>>,
    complete: bool,
    error: Option<String>,
}

/// What a [`ReorderBuffer`] holds, as plain values.
pub struct ReorderView {
    pub total_size: u64,
    pub max_ahead: u64,
    pub cursor: u64,
    pub pending: Map<u64, Seq<u8>>,
    pub complete: bool,
    pub error: Option<Seq<char>>,
}

/// Every buffered chunk ends within the range of offsets.
pub open spec fn chunks_fit(pending: Map<u64, Seq<u8>>) -> bool {
    forall|k: u64| #[trigger] pending.contains_key(k) ==> k + pending[k].len() <= u64::MAX
}

/// The buffer holds its invariant: at least one byte may be ahead of the
/// cursor, and every chunk ends within the range of offsets.
pub open spec fn reorder_wf(s: ReorderView) -> bool {
    s.max_ahead >= 1 && chunks_fit(s.pending)
}

/// A chunk at `offset` may be buffered now: the download has ended, the
/// chunk starts at or before the cursor, or it starts less than `max_ahead`
/// bytes past it.
pub open spec fn admitted(s: ReorderView, offset: u64) -> bool {
    s.complete || offset <= s.cursor || offset - s.cursor < s.max_ahead
}

/// What a push did.
#[derive(Debug, Clone, Copy, PartialEq, Eq, Structural, Hash)]
pub enum PushOutcome {
    /// The chunk is buffered (an empty chunk is dropped).
    Accepted,
    /// The chunk is too far ahead; push it again once the cursor advanced.
    MustWait,
}

/// What the client gets next.
#[derive(Debug, PartialEq, Eq)]
pub enum PopOutcome {
    /// The bytes at the cursor.
    Chunk(Vec<u8>),
    /// Every byte has been handed out.
    Finished,
    /// The download failed with this message.
    Failed(String),
    /// Nothing yet; pop again once a chunk arrived or the download ended.
    Wait,
}

/// [`PopOutcome`] as plain values.
pub enum PopView {
    Chunk(Seq<u8>),
    Finished,
    Failed(Seq<char>),
    Wait,
}

impl View for PopOutcome {
    type V = PopView;

    open spec fn view(&self) -> PopView {
        match self {
            PopOutcome::Chunk(v) => PopView::Chunk(v@),
            PopOutcome::Finished => PopView::Finished,
            PopOutcome::Failed(e) => PopView::Failed(e@),
            PopOutcome::Wait => PopView::Wait,
        }
    }
}

/// The result of a pop and the buffer after it. A recorded failure is
/// reported (again and again); a buffer whose cursor reached the size is
/// finished; the chunk at the cursor is handed out and the cursor moves past
/// it; a download that ended without that chunk failed; otherwise there is
/// nothing yet.
pub open spec fn pop_view(s: ReorderView) -> (PopView, ReorderView) {
    if s.error is Some {
        (PopView::Failed(s.error->0), s)
    } else if s.cursor >= s.total_size {
        (PopView::Finished, s)
    } else if s.pending.contains_key(s.cursor) {
        let bytes = s.pending[s.cursor];
        (
            PopView::Chunk(bytes),
            ReorderView {
                cursor: (s.cursor + bytes.len()) as u64,
                pending: s.pending.remove(s.cursor),
                ..s
            },
        )
    } else if s.complete {
        (PopView::Failed(incomplete_message()), s)
    } else {
        (PopView::Wait, s)
    }
}

/// The buffer after a push: an empty chunk or one that must wait changes
/// nothing; an admitted chunk is buffered at its offset (replacing a chunk
/// buffered there before).
pub open spec fn push_view(s: ReorderView, offset: u64, data: Seq<u8>) -> (PushOutcome, ReorderView) {
    if data.len() == 0 {
        (PushOutcome::Accepted, s)
    } else if !admitted(s, offset) {
        (PushOutcome::MustWait, s)
    } else {
        (PushOutcome::Accepted, ReorderView { pending: s.pending.insert(offset, data), ..s })
    }
}

/// The outcomes of `n` pops in a row, and the buffer after them.
pub open spec fn pop_n(s: ReorderView, n: nat) -> (Seq<PopView>, ReorderView)
    decreases n,
{
    if n == 0 {
        (Seq::empty(), s)
    } else {
        let (first, s1) = pop_view(s);
        let (rest, s2) = pop_n(s1, (n - 1) as nat);
        (seq![first] + rest, s2)
    }
}

/// Total length of a sequence of chunks.
pub open spec fn total_len(chunks: Seq<Seq<u8>>) -> int
    decreases chunks.len(),
{
    if chunks.len() == 0 {
        0
    } else {
        chunks[0].len() + total_len(chunks.drop_first())
    }
}

/// The buffered chunks include `chunks`, laid end to end from `start`:
/// each is non-empty and starts where the one before it ended.
pub open spec fn tiled(pending: Map<u64, Seq<u8>>, start: int, chunks: Seq<Seq<u8>>) -> bool
    decreases chunks.len(),
{
    if chunks.len() == 0 {
        true
    } else {
        &&& 0 <= start <= u64::MAX
        &&& chunks[0].len() > 0
        &&& pending.contains_key(start as u64)
        &&& pending[start as u64] == chunks[0]
        &&& tiled(pending, start + chunks[0].len(), chunks.drop_first())
    }
}

/// The chunks, each handed out as it is.
pub open spec fn chunk_outcomes(chunks: Seq<Seq<u8>>) -> Seq<PopView> {
    Seq::new(chunks.len(), |i: int| PopView::Chunk(chunks[i]))
}

/// Removing a chunk that starts before a tiling leaves the tiling in place.
pub proof fn lemma_tiled_remove_before(
    pending: Map<u64, Seq<u8>>,
    start: int,
    chunks: Seq<Seq<u8>>,
    k: u64,
)
    requires
        tiled(pending, start, chunks),
        k < start,
    ensures
        tiled(pending.remove(k), start, chunks),
    decreases chunks.len(),
{
    if chunks.len() > 0 {
        lemma_tiled_remove_before(pending, start + chunks[0].len(), chunks.drop_first(), k);
    }
}

/// In-order delivery: when the buffered chunks tile everything from the
/// cursor to the end of the file and no failure was recorded, popping hands
/// out exactly those chunks in offset order, whatever order they arrived
/// in, and the buffer is finished afterwards.
pub proof fn lemma_pops_deliver_in_order(s: ReorderView, chunks: Seq<Seq<u8>>)
    requires
        reorder_wf(s),
        s.error is None,
        tiled(s.pending, s.cursor as int, chunks),
        s.cursor + total_len(chunks) == s.total_size,
    ensures
        pop_n(s, chunks.len()).0 == chunk_outcomes(chunks),
        pop_n(s, chunks.len()).1.cursor == s.total_size,
        pop_view(pop_n(s, chunks.len()).1).0 is Finished,
    decreases chunks.len(),
{
    if chunks.len() > 0 {
        let c0 = chunks[0];
        let rest = chunks.drop_first();
        assert(total_len(rest) >= 0) by {
            lemma_total_len_nonneg(rest);
        }
        let s1 = pop_view(s).1;
        lemma_tiled_remove_before(s.pending, s.cursor + c0.len(), rest, s.cursor);
        assert(reorder_wf(s1)) by {
            assert forall|k: u64| #[trigger] s1.pending.contains_key(k) implies k + s1.pending[k].len()
                <= u64::MAX by {
            }
        }
        lemma_pops_deliver_in_order(s1, rest);
    }
}

proof fn lemma_total_len_nonneg(chunks: Seq<Seq<u8>>)
    ensures
        total_len(chunks) >= 0,
    decreases chunks.len(),
{
    if chunks.len() > 0 {
        lemma_total_len_nonneg(chunks.drop_first());
    }
}

/// The cursor only moves forward, and a recorded failure stays: every later
/// pop reports it and no push removes it.
pub proof fn lemma_cursor_monotonic_and_failure_sticky(s: ReorderView, offset: u64, data: Seq<u8>)
    requires
        reorder_wf(s),
    ensures
        pop_view(s).1.cursor >= s.cursor,
        push_view(s, offset, data).1.cursor == s.cursor,
        s.error is Some ==> pop_view(s) == (PopView::Failed(s.error->0), s),
        s.error is Some ==> push_view(s, offset, data).1.error == s.error,
{
}

/// The chunk at or before the cursor is always admitted, so the leading
/// segment never waits, however small the window; a chunk less than the
/// window ahead of the cursor is admitted too.
pub proof fn lemma_leading_chunk_admitted(s: ReorderView, offset: u64)
    ensures
        offset <= s.cursor ==> admitted(s, offset),
        offset >= s.cursor && offset - s.cursor < s.max_ahead ==> admitted(s, offset),
        !s.complete && offset > s.cursor && offset - s.cursor >= s.max_ahead ==> !admitted(s, offset),
{
}

/// The buffer agrees with one file `obj`: its size is the file's, the
/// cursor lies within it, and every buffered chunk is the file's bytes at
/// its offset.
pub open spec fn consistent(s: ReorderView, obj: Seq<u8>) -> bool {
    &&& s.total_size == obj.len()
    &&& s.cursor <= obj.len()
    &&& forall|k: u64|
        #[trigger] s.pending.contains_key(k) ==> k + s.pending[k].len() <= obj.len()
            && s.pending[k] == obj.subrange(k as int, k + s.pending[k].len())
}

/// `data` is the file's bytes at `offset`.
pub open spec fn slice_of(obj: Seq<u8>, offset: u64, data: Seq<u8>) -> bool {
    offset + data.len() <= obj.len() && data == obj.subrange(offset as int, offset + data.len())
}

/// One operation on the buffer, as plain values: a push, a pop, or the end
/// of the download.
pub enum BufferOp {
    Push { offset: u64, data: Seq<u8> },
    Pop,
    Complete,
}

/// The bytes an operation hands to the client, and the buffer after it.
pub open spec fn step(s: ReorderView, op: BufferOp) -> (Seq<u8>, ReorderView) {
    match op {
        BufferOp::Push { offset, data } => (Seq::empty(), push_view(s, offset, data).1),
        BufferOp::Pop => match pop_view(s).0 {
            PopView::Chunk(c) => (c, pop_view(s).1),
            _ => (Seq::empty(), pop_view(s).1),
        },
        BufferOp::Complete => (Seq::empty(), ReorderView { complete: true, ..s }),
    }
}

/// The bytes a run of operations hands to the client, in order, and the
/// buffer after them.
pub open spec fn run(s: ReorderView, ops: Seq<BufferOp>) -> (Seq<u8>, ReorderView)
    decreases ops.len(),
{
    if ops.len() == 0 {
        (Seq::empty(), s)
    } else {
        let (d0, s1) = step(s, ops[0]);
        let (d, t) = run(s1, ops.drop_first());
        (d0 + d, t)
    }
}

/// Pushing the file's own bytes keeps the buffer in agreement with it.
pub proof fn lemma_push_keeps_consistent(s: ReorderView, obj: Seq<u8>, offset: u64, data: Seq<u8>)
    requires
        consistent(s, obj),
        slice_of(obj, offset, data),
    ensures
        consistent(push_view(s, offset, data).1, obj),
        push_view(s, offset, data).1.cursor == s.cursor,
        push_view(s, offset, data).1.error == s.error,
{
}

/// A pop from a buffer that agrees with the file hands out the file's bytes
/// at the cursor and moves the cursor past them; the cursor never moves
/// back; once the buffer is finished it stays so.
pub proof fn lemma_pop_keeps_consistent(s: ReorderView, obj: Seq<u8>)
    requires
        consistent(s, obj),
    ensures
        consistent(pop_view(s).1, obj),
        pop_view(s).1.cursor >= s.cursor,
        pop_view(s).1.error == s.error,
        pop_view(s).0 matches PopView::Chunk(c) ==> c == obj.subrange(
            s.cursor as int,
            pop_view(s).1.cursor as int,
        ),
        !(pop_view(s).0 is Chunk) ==> pop_view(s).1 == s,
        pop_view(s).0 is Finished ==> s.cursor >= s.total_size && pop_view(pop_view(s).1).0 is Finished,
{
    if s.error is None && s.cursor < s.total_size && s.pending.contains_key(s.cursor) {
        let t = pop_view(s).1;
        assert forall|k: u64| #[trigger] t.pending.contains_key(k) implies k + t.pending[k].len()
            <= obj.len() && t.pending[k] == obj.subrange(k as int, k + t.pending[k].len()) by {
        }
    }
}

/// Whatever order the pushes come in, as long as each pushes the file's own
/// bytes and no failure is recorded, the bytes handed to the client so far
/// are always the file's bytes up to the cursor, and the cursor never moves
/// back. (A new buffer for the file agrees with it, see
/// [`ReorderBuffer::new`], with nothing handed out yet.)
pub proof fn lemma_run_delivers_prefix(s: ReorderView, obj: Seq<u8>, ops: Seq<BufferOp>)
    requires
        consistent(s, obj),
        forall|i: int|
            0 <= i < ops.len() ==> (#[trigger] ops[i] matches BufferOp::Push { offset, data }
                ==> slice_of(obj, offset, data)),
    ensures
        consistent(run(s, ops).1, obj),
        run(s, ops).1.cursor >= s.cursor,
        run(s, ops).1.error == s.error,
        obj.subrange(0, s.cursor as int) + run(s, ops).0 == obj.subrange(
            0,
            run(s, ops).1.cursor as int,
        ),
    decreases ops.len(),
{
    if ops.len() == 0 {
        assert(obj.subrange(0, s.cursor as int) + Seq::<u8>::empty() =~= obj.subrange(
            0,
            s.cursor as int,
        ));
    } else {
        let op = ops[0];
        let (d0, s1) = step(s, op);
        match op {
            BufferOp::Push { offset, data } => {
                lemma_push_keeps_consistent(s, obj, offset, data);
            },
            BufferOp::Pop => {
                lemma_pop_keeps_consistent(s, obj);
            },
            BufferOp::Complete => {},
        }
        let rest = ops.drop_first();
        assert forall|i: int|
            0 <= i < rest.len() implies (#[trigger] rest[i] matches BufferOp::Push { offset, data }
            ==> slice_of(obj, offset, data)) by {
        }
        lemma_run_delivers_prefix(s1, obj, rest);
        let (d, t) = run(s1, rest);
        assert(obj.subrange(0, s.cursor as int) + (d0 + d) =~= (obj.subrange(0, s.cursor as int)
            + d0) + d);
    }
}

impl View for ReorderBuffer {
    type V = ReorderView;

    closed spec fn view(&self) -> ReorderView {
        ReorderView {
            total_size: self.total_size,
            max_ahead: self.max_ahead,
            cursor: self.cursor,
            pending: Map::new(
                |k: u64| self.pending@.contains_key(k),
                |k: u64| self.pending@[k]@,
            ),
            complete: self.complete,
            error: match self.error {
                Some(e) => Some(e@),
                None => None,
            },
        }
    }
}

impl ReorderBuffer {
    /// An empty buffer for a file of `total_size` bytes that lets chunks be
    /// buffered up to `buffer_bytes` (at least 1) ahead of the cursor.
    pub fn new(total_size: u64, buffer_bytes: usize) -> (r: ReorderBuffer)
        ensures
            r@.total_size == total_size,
            r@.max_ahead == (if buffer_bytes < 1 {
                1
            } else {
                buffer_bytes
            }),
            r@.cursor == 0,
            r@.pending == Map::<u64, Seq<u8>>::empty(),
            !r@.complete,
            r@.error is None,
            reorder_wf(r@),
    {
        let r = ReorderBuffer {
            total_size,
            max_ahead: if buffer_bytes < 1 {
                1
            } else {
                buffer_bytes as u64
            },
            cursor: 0,
            pending: BTreeMap::new(),
            complete: false,
            error: None,
        };
        r
    }

    /// Bytes handed out so far.
    pub fn cursor(&self) -> (r: u64)
        ensures
            r == self@.cursor,
    {
        self.cursor
    }

    /// The download ended: no more chunks come.
    pub fn mark_complete(&mut self)
        ensures
            final(self)@ == (ReorderView { complete: true, ..old(self)@ }),
    {
        self.complete = true;
    }

    /// The download failed with `err`; the client gets the message.
    pub fn fail(&mut self, err: String)
        ensures
            final(self)@ == (ReorderView { complete: true, error: Some(err@), ..old(self)@ }),
    {
        self.complete = true;
        self.error = Some(err);
    }

    /// Whether a chunk at `offset` may be buffered now (see [`admitted`]).
    pub fn is_admitted(&self, offset: u64) -> (r: bool)
        ensures
            r == admitted(self@, offset),
    {
        if self.complete {
            return true;
        }
        offset <= self.cursor || offset - self.cursor < self.max_ahead
    }

    /// Offers the chunk `data` at `offset` (see [`push_view`]).
    pub fn push(&mut self, offset: u64, data: Vec<u8>) -> (r: PushOutcome)
        requires
            reorder_wf(old(self)@),
            offset + data@.len() <= u64::MAX,
        ensures
            (r, final(self)@) == push_view(old(self)@, offset, data@),
            reorder_wf(final(self)@),
    {
        if data.len() == 0 {
            return PushOutcome::Accepted;
        }
        if !self.is_admitted(offset) {
            return PushOutcome::MustWait;
        }
        let ghost d = data@;
        self.pending.insert(offset, data);
        assert(self@.pending =~= old(self)@.pending.insert(offset, d));
        PushOutcome::Accepted
    }

    /// Hands out what comes next (see [`pop_view`]).
    pub fn pop_next(&mut self) -> (r: PopOutcome)
        requires
            reorder_wf(old(self)@),
        ensures
            (r@, final(self)@) == pop_view(old(self)@),
            reorder_wf(final(self)@),
    {
        if let Some(err) = &self.error {
            return PopOutcome::Failed(err.clone());
        }
        if self.cursor >= self.total_size {
            return PopOutcome::Finished;
        }
        let cursor = self.cursor;
        match self.pending.remove(&cursor) {
            Some(bytes) => {
                assert(old(self)@.pending.contains_key(cursor));
                let next = cursor + bytes.len() as u64;
                self.cursor = next;
                assert(self@.pending =~= old(self)@.pending.remove(cursor));
                PopOutcome::Chunk(bytes)
            },
            None => {
                assert(self@.pending =~= old(self)@.pending);
                if self.complete {
                    let msg = vec![
                        's', 'e', 'g', 'm', 'e', 'n', 't', 'e', 'd', ' ', 'd', 'o', 'w', 'n', 'l', 'o', 'a', 'd',
                        ' ', 'e', 'n', 'd', 'e', 'd', ' ', 'b', 'e', 'f', 'o', 'r', 'e', ' ', 'a', 'l', 'l', ' ',
                        'b', 'y', 't', 'e', 's', ' ', 'w', 'e', 'r', 'e', ' ', 'r', 'e', 'c', 'e', 'i', 'v', 'e',
                        'd',
                    ];
                    PopOutcome::Failed(string_from_chars(&msg))
                } else {
                    PopOutcome::Wait
                }
            },
        }
    }
}

} // verus!
