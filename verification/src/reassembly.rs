//! Stateful reassembly of chunked frames.
//!
//! The assembler tracks exactly one in-flight sequence. A datagram with
//! a different sequence resets it, discarding any partially received
//! frame: the stream favours freshness over completeness. Duplicate
//! chunks are ignored, a zero total or an out-of-range index is
//! invalid and dropped, and once every chunk of the tracked sequence
//! has arrived the frame is returned and the state cleared.

use vstd::prelude::*;
use crate::packet::{chunk_count, chunk_at};

verus! {

/// How many slots hold a chunk.
pub open spec fn count_some(s: Seq<Option<Seq<u8>>>) -> nat
    decreases s.len(),
{
    if s.len() == 0 {
        0
    } else {
        (if s[0] is Some { 1nat } else { 0nat }) + count_some(s.drop_first())
    }
}

/// The bytes a slot contributes to the assembled frame.
pub open spec fn opt_bytes(o: Option<Seq<u8>>) -> Seq<u8> {
    match o {
        Some(b) => b,
        None => Seq::empty(),
    }
}

/// The slots concatenated in index order.
pub open spec fn concat_slots(s: Seq<Option<Seq<u8>>>) -> Seq<u8>
    decreases s.len(),
{
    if s.len() == 0 {
        Seq::empty()
    } else {
        opt_bytes(s[0]) + concat_slots(s.drop_first())
    }
}

/// Mathematical image of the assembler: whether a sequence is tracked,
/// which one, and one slot per expected chunk.
pub struct AssemblerView {
    pub active: bool,
    pub sequence: u32,
    pub slots: Seq<Option<Seq<u8>>>,
}

/// The state tracking nothing.
pub open spec fn idle_view() -> AssemblerView {
    AssemblerView { active: false, sequence: 0, slots: Seq::empty() }
}

/// The state right after a reset for `sequence` expecting `total` chunks.
pub open spec fn fresh_view(sequence: u32, total: nat) -> AssemblerView {
    AssemblerView { active: true, sequence, slots: Seq::new(total, |i: int| None) }
}

/// One assembler transition: the next state and the completed frame, if
/// this datagram completed one.
pub open spec fn asm_step(
    v: AssemblerView,
    seq: u32,
    idx: int,
    total: int,
    data: Seq<u8>,
) -> (AssemblerView, Option<Seq<u8>>) {
    if total <= 0 {
        (v, None)
    } else {
        let v1 = if !v.active || seq != v.sequence {
            fresh_view(seq, total as nat)
        } else {
            v
        };
        let v2 = if 0 <= idx < v1.slots.len() && v1.slots[idx] is None {
            AssemblerView { slots: v1.slots.update(idx, Some(data)), ..v1 }
        } else {
            v1
        };
        if count_some(v2.slots) == v2.slots.len() {
            (idle_view(), Some(concat_slots(v2.slots)))
        } else {
            (v2, None)
        }
    }
}

/// When every slot is filled, the count says so.
proof fn lemma_count_full(s: Seq<Option<Seq<u8>>>)
    requires
        count_some(s) == s.len(),
    ensures
        forall|j: int| 0 <= j < s.len() ==> s[j] is Some,
    decreases s.len(),
{
    if s.len() > 0 {
        lemma_count_some_le_len(s.drop_first());
        lemma_count_full(s.drop_first());
        assert forall|j: int| 0 <= j < s.len() implies s[j] is Some by {
            if j > 0 {
                assert(s.drop_first()[j - 1] is Some);
            }
        }
    }
}

/// Every chunk of `data`, in index order, concatenates back to `data`.
pub proof fn lemma_chunks_concat(data: Seq<u8>, cap: nat)
    requires
        0 < cap,
    ensures
        concat_slots(
            Seq::new(
                chunk_count(data.len(), cap) as nat,
                |i: int| Some(chunk_at(data, cap, i as nat)),
            ),
        ) == data,
    decreases data.len(),
{
    let total = chunk_count(data.len(), cap);
    let s = Seq::new(total as nat, |i: int| Some(chunk_at(data, cap, i as nat)));
    if data.len() == 0 {
        assert(total == 0) by (nonlinear_arith)
            requires
                0 < cap,
                total == chunk_count(data.len(), cap),
                data.len() == 0,
        ;
        assert(concat_slots(s) =~= data);
    } else if data.len() <= cap {
        assert(total == 1) by (nonlinear_arith)
            requires
                0 < cap,
                total == chunk_count(data.len(), cap),
                0 < data.len() <= cap,
        ;
        assert(0 * cap == 0 && 1 * cap == cap) by (nonlinear_arith);
        assert(chunk_at(data, cap, 0) =~= data);
        assert(s.drop_first() =~= Seq::<Option<Seq<u8>>>::empty());
        assert(concat_slots(s) == opt_bytes(s[0]) + concat_slots(s.drop_first()));
        assert(data + Seq::<u8>::empty() =~= data);
    } else {
        let tail = data.skip(cap as int);
        lemma_chunks_concat(tail, cap);
        let tt = chunk_count(tail.len(), cap);
        vstd::arithmetic::div_mod::lemma_div_plus_one(data.len() - 1, cap as int);
        assert(total == tt + 1);
        let stail = Seq::new(tt as nat, |i: int| Some(chunk_at(tail, cap, i as nat)));
        assert forall|i: int| 0 <= i < tt implies #[trigger] chunk_at(tail, cap, i as nat)
            == chunk_at(data, cap, (i + 1) as nat) by {
            assert((i + 1) * cap == i * cap + cap) by (nonlinear_arith);
            assert((i + 2) * cap == (i + 1) * cap + cap) by (nonlinear_arith);
            crate::packet::lemma_chunk_index_bound(tail.len(), cap, i as nat);
            assert(i * cap < tail.len());
            assert(chunk_at(tail, cap, i as nat) =~= chunk_at(data, cap, (i + 1) as nat));
        }
        assert(s.drop_first() =~= stail);
        assert(chunk_at(data, cap, 0) =~= data.take(cap as int));
        assert(concat_slots(s) == chunk_at(data, cap, 0) + concat_slots(stail));
        assert(data.take(cap as int) + tail =~= data);
    }
}

/// Contained in the rest exactly when contained beyond the head; the
/// head itself never recurs in a duplicate-free sequence.
proof fn lemma_drop_first_contains(order: Seq<int>, j: int)
    requires
        order.len() >= 1,
        order.no_duplicates(),
    ensures
        order.drop_first().contains(j) ==> order.contains(j),
        order.contains(j) && j != order[0] ==> order.drop_first().contains(j),
        !(order.drop_first().contains(j) && j == order[0]),
{
    let rest = order.drop_first();
    if rest.contains(j) {
        let k = choose|k: int| 0 <= k < rest.len() && rest[k] == j;
        assert(order[k + 1] == j);
        assert(order.contains(j));
        if j == order[0] {
            assert(order[0] == order[k + 1]);
            assert(false);
        }
    }
    if order.contains(j) && j != order[0] {
        let k = choose|k: int| 0 <= k < order.len() && order[k] == j;
        assert(k >= 1);
        assert(rest[k - 1] == j);
    }
}

/// How the assembler behaves over a whole arrival order: the state after
/// all the datagrams, and what the last one returned.
pub open spec fn feed(
    v: AssemblerView,
    seq: u32,
    data: Seq<u8>,
    cap: nat,
    order: Seq<int>,
) -> (AssemblerView, Option<Seq<u8>>)
    decreases order.len(),
{
    if order.len() == 0 {
        (v, None)
    } else {
        let total = chunk_count(data.len(), cap) as int;
        let step = asm_step(v, seq, order[0], total, chunk_at(data, cap, order[0] as nat));
        if order.len() == 1 {
            step
        } else {
            feed(step.0, seq, data, cap, order.drop_first())
        }
    }
}

/// While the tracked sequence is being filled chunk by chunk, the last
/// missing chunks arrive and the final one yields exactly `data`.
proof fn lemma_feed_completes(
    v: AssemblerView,
    seq: u32,
    data: Seq<u8>,
    cap: nat,
    order: Seq<int>,
)
    requires
        0 < cap,
        0 < data.len(),
        v.active,
        v.sequence == seq,
        v.slots.len() == chunk_count(data.len(), cap),
        1 <= order.len(),
        order.no_duplicates(),
        forall|k: int| 0 <= k < order.len() ==> 0 <= #[trigger] order[k] < v.slots.len(),
        forall|j: int|
            0 <= j < v.slots.len() && #[trigger] v.slots[j] is Some ==> !order.contains(j)
                && v.slots[j] == Some(chunk_at(data, cap, j as nat)),
        count_some(v.slots) == v.slots.len() - order.len(),
    ensures
        feed(v, seq, data, cap, order).1 == Some(data),
    decreases order.len(),
{
    let total = chunk_count(data.len(), cap) as int;
    let i0 = order[0];
    assert(order.contains(i0));
    assert(v.slots[i0] is None);
    let chunk0 = chunk_at(data, cap, i0 as nat);
    let slots1 = v.slots.update(i0, Some(chunk0));
    lemma_count_some_update(v.slots, i0, chunk0);
    let step = asm_step(v, seq, i0, total, chunk0);
    if order.len() == 1 {
        assert(count_some(slots1) == slots1.len());
        lemma_count_full(slots1);
        assert forall|j: int| 0 <= j < slots1.len() implies slots1[j] == Some(
            chunk_at(data, cap, j as nat),
        ) by {
            assert(slots1[j] is Some);
            if j != i0 {
                assert(v.slots[j] is Some);
            }
        }
        assert(slots1 =~= Seq::new(
            chunk_count(data.len(), cap) as nat,
            |i: int| Some(chunk_at(data, cap, i as nat)),
        ));
        lemma_chunks_concat(data, cap);
        assert(step.1 == Some(data));
    } else {
        assert(count_some(slots1) < slots1.len());
        assert(step.0 == AssemblerView { slots: slots1, ..v });
        let rest = order.drop_first();
        assert(rest.no_duplicates()) by {
            assert forall|a: int, b: int| 0 <= a < b < rest.len() implies rest[a] != rest[b] by {
                assert(rest[a] == order[a + 1] && rest[b] == order[b + 1]);
            }
        }
        assert forall|j: int|
            0 <= j < slots1.len() && #[trigger] slots1[j] is Some implies !rest.contains(j)
            && slots1[j] == Some(chunk_at(data, cap, j as nat)) by {
            lemma_drop_first_contains(order, j);
            if j != i0 {
                assert(v.slots[j] is Some);
            }
        }
        assert forall|k: int| 0 <= k < rest.len() implies 0 <= #[trigger] rest[k]
            < slots1.len() by {
            assert(rest[k] == order[k + 1]);
        }
        lemma_feed_completes(step.0, seq, data, cap, rest);
    }
}

/// Round trip: whatever the assembler held before, the chunks of a new
/// frame, arriving in any order, reassemble to exactly the frame.
pub proof fn lemma_round_trip_reassembly(
    v0: AssemblerView,
    seq: u32,
    data: Seq<u8>,
    cap: nat,
    order: Seq<int>,
)
    requires
        0 < cap,
        0 < data.len(),
        !v0.active || v0.sequence != seq,
        order.no_duplicates(),
        order.len() == chunk_count(data.len(), cap),
        forall|k: int|
            0 <= k < order.len() ==> 0 <= #[trigger] order[k] < chunk_count(data.len(), cap),
    ensures
        feed(v0, seq, data, cap, order).1 == Some(data),
{
    let total = chunk_count(data.len(), cap) as int;
    crate::packet::lemma_chunk_index_bound(data.len(), cap, 0);
    assert(total >= 1);
    let i0 = order[0];
    let chunk0 = chunk_at(data, cap, i0 as nat);
    let fresh = fresh_view(seq, total as nat);
    lemma_count_some_all_none(fresh.slots);
    assert(fresh.slots[i0] is None);
    let slots1 = fresh.slots.update(i0, Some(chunk0));
    lemma_count_some_update(fresh.slots, i0, chunk0);
    let step = asm_step(v0, seq, i0, total, chunk0);
    if order.len() == 1 {
        assert(count_some(slots1) == slots1.len());
        assert forall|j: int| 0 <= j < slots1.len() implies slots1[j] == Some(
            chunk_at(data, cap, j as nat),
        ) by {
            assert(j == i0);
        }
        assert(slots1 =~= Seq::new(
            chunk_count(data.len(), cap) as nat,
            |i: int| Some(chunk_at(data, cap, i as nat)),
        ));
        lemma_chunks_concat(data, cap);
    } else {
        assert(count_some(slots1) < slots1.len());
        assert(step.0 == AssemblerView { slots: slots1, ..fresh });
        let rest = order.drop_first();
        assert(rest.no_duplicates()) by {
            assert forall|a: int, b: int| 0 <= a < b < rest.len() implies rest[a] != rest[b] by {
                assert(rest[a] == order[a + 1] && rest[b] == order[b + 1]);
            }
        }
        assert forall|j: int|
            0 <= j < slots1.len() && #[trigger] slots1[j] is Some implies !rest.contains(j)
            && slots1[j] == Some(chunk_at(data, cap, j as nat)) by {
            lemma_drop_first_contains(order, j);
            assert(j == i0);
        }
        assert forall|k: int| 0 <= k < rest.len() implies 0 <= #[trigger] rest[k]
            < slots1.len() by {
            assert(rest[k] == order[k + 1]);
        }
        lemma_feed_completes(step.0, seq, data, cap, rest);
    }
}

/// What receiving one raw datagram does: parse it, drop it when
/// malformed, else take one assembler transition on its fields.
pub open spec fn receive_step(v: AssemblerView, raw: Seq<u8>) -> (AssemblerView, Option<Seq<u8>>) {
    match crate::packet::spec_parse_datagram(raw) {
        None => (v, None),
        Some(d) => asm_step(v, d.sequence, d.index as int, d.total as int, d.payload),
    }
}

/// The assembler after a whole sequence of raw datagrams, and what the
/// last one returned.
pub open spec fn receive_all(v: AssemblerView, raws: Seq<Seq<u8>>) -> (AssemblerView, Option<
    Seq<u8>,
>)
    decreases raws.len(),
{
    if raws.len() == 0 {
        (v, None)
    } else {
        let step = receive_step(v, raws[0]);
        if raws.len() == 1 {
            step
        } else {
            receive_all(step.0, raws.drop_first())
        }
    }
}

/// Receiving the packetized datagrams of a frame takes the same
/// transitions as feeding its chunks directly.
proof fn lemma_receive_matches_feed(
    v: AssemblerView,
    sequence: u32,
    data: Seq<u8>,
    order: Seq<int>,
)
    requires
        0 < data.len(),
        chunk_count(data.len(), crate::packet::VIDEO_CHUNK_CAPACITY as nat) <= u16::MAX,
        forall|k: int|
            0 <= k < order.len() ==> 0 <= #[trigger] order[k] < chunk_count(
                data.len(),
                crate::packet::VIDEO_CHUNK_CAPACITY as nat,
            ),
    ensures
        receive_all(
            v,
            Seq::new(
                order.len(),
                |k: int| crate::packet::video_datagram(data, sequence, order[k] as nat),
            ),
        ) == feed(v, sequence, data, crate::packet::VIDEO_CHUNK_CAPACITY as nat, order),
    decreases order.len(),
{
    let cap = crate::packet::VIDEO_CHUNK_CAPACITY as nat;
    let raws = Seq::new(
        order.len(),
        |k: int| crate::packet::video_datagram(data, sequence, order[k] as nat),
    );
    if order.len() > 0 {
        crate::packet::lemma_datagram_round_trip(data, sequence, order[0] as nat);
        let step = receive_step(v, raws[0]);
        assert(step == asm_step(
            v,
            sequence,
            order[0],
            chunk_count(data.len(), cap) as int,
            chunk_at(data, cap, order[0] as nat),
        ));
        if order.len() > 1 {
            lemma_receive_matches_feed(step.0, sequence, data, order.drop_first());
            assert(raws.drop_first() =~= Seq::new(
                order.drop_first().len(),
                |k: int| crate::packet::video_datagram(
                    data,
                    sequence,
                    order.drop_first()[k] as nat,
                ),
            ));
        }
    }
}

/// Round trip over the wire: packetizing a frame and receiving its
/// datagrams in any arrival order — parse, demultiplex, reassemble —
/// returns exactly the frame bytes, whatever the assembler held before.
pub proof fn lemma_stream_round_trip(
    v0: AssemblerView,
    sequence: u32,
    data: Seq<u8>,
    order: Seq<int>,
)
    requires
        0 < data.len(),
        chunk_count(data.len(), crate::packet::VIDEO_CHUNK_CAPACITY as nat) <= u16::MAX,
        !v0.active || v0.sequence != sequence,
        order.no_duplicates(),
        order.len() == chunk_count(data.len(), crate::packet::VIDEO_CHUNK_CAPACITY as nat),
        forall|k: int|
            0 <= k < order.len() ==> 0 <= #[trigger] order[k] < chunk_count(
                data.len(),
                crate::packet::VIDEO_CHUNK_CAPACITY as nat,
            ),
    ensures
        receive_all(
            v0,
            Seq::new(
                order.len(),
                |k: int| crate::packet::video_datagram(data, sequence, order[k] as nat),
            ),
        ).1 == Some(data),
{
    lemma_receive_matches_feed(v0, sequence, data, order);
    lemma_round_trip_reassembly(
        v0,
        sequence,
        data,
        crate::packet::VIDEO_CHUNK_CAPACITY as nat,
        order,
    );
}

/// Staleness: a datagram for a sequence other than the tracked one meets
/// a reset, so the outcome does not depend on the stale partial state.
pub proof fn lemma_stale_sequence_reset(
    v1: AssemblerView,
    v2: AssemblerView,
    seq: u32,
    idx: int,
    total: int,
    data: Seq<u8>,
)
    requires
        total > 0,
        !v1.active || v1.sequence != seq,
        !v2.active || v2.sequence != seq,
    ensures
        asm_step(v1, seq, idx, total, data) == asm_step(v2, seq, idx, total, data),
{
}

/// A duplicate of a chunk that did not complete the frame changes
/// nothing: the state stays as it was and nothing is returned.
pub proof fn lemma_duplicate_chunk_idempotent(
    v: AssemblerView,
    seq: u32,
    idx: int,
    total: int,
    data: Seq<u8>,
)
    requires
        total > 0,
        asm_step(v, seq, idx, total, data).1 is None,
    ensures
        asm_step(asm_step(v, seq, idx, total, data).0, seq, idx, total, data) == (
            asm_step(v, seq, idx, total, data).0,
            None::<Seq<u8>>,
        ),
{
}

/// Reassembles frames from their datagram chunks, one sequence at a time.
pub struct H264FrameAssembler {
    active: bool,
    current_seq: u32,
    chunks: Vec<Option<Vec<u8>>>,
    total: usize,
    received: usize,
}

/// The slot contents of a concrete chunk vector.
pub open spec fn slots_view(v: Seq<Option<Vec<u8>>>) -> Seq<Option<Seq<u8>>> {
    Seq::new(v.len(), |i: int| match v[i] {
        Some(b) => Some(b@),
        None => None,
    })
}

impl View for H264FrameAssembler {
    type V = AssemblerView;

    closed spec fn view(&self) -> AssemblerView {
        AssemblerView {
            active: self.active,
            sequence: self.current_seq,
            slots: slots_view(self.chunks@),
        }
    }
}

/// All-`None` slots hold nothing.
proof fn lemma_count_some_all_none(s: Seq<Option<Seq<u8>>>)
    requires
        forall|i: int| 0 <= i < s.len() ==> s[i] is None,
    ensures
        count_some(s) == 0,
    decreases s.len(),
{
    if s.len() > 0 {
        lemma_count_some_all_none(s.drop_first());
    }
}

/// Filling an empty slot raises the count by one.
proof fn lemma_count_some_update(s: Seq<Option<Seq<u8>>>, i: int, d: Seq<u8>)
    requires
        0 <= i < s.len(),
        s[i] is None,
    ensures
        count_some(s.update(i, Some(d))) == count_some(s) + 1,
    decreases s.len(),
{
    if i == 0 {
        assert(s.update(0, Some(d)).drop_first() =~= s.drop_first());
    } else {
        lemma_count_some_update(s.drop_first(), i - 1, d);
        assert(s.update(i, Some(d)).drop_first() =~= s.drop_first().update(i - 1, Some(d)));
    }
}

/// The count never passes the slot count.
proof fn lemma_count_some_le_len(s: Seq<Option<Seq<u8>>>)
    ensures
        count_some(s) <= s.len(),
    decreases s.len(),
{
    if s.len() > 0 {
        lemma_count_some_le_len(s.drop_first());
    }
}

/// A vector of `n` empty slots.
fn empty_slots(n: usize) -> (r: Vec<Option<Vec<u8>>>)
    ensures
        r@.len() == n,
        forall|i: int| 0 <= i < n ==> r@[i] is None,
{
    let mut r: Vec<Option<Vec<u8>>> = Vec::new();
    let mut i: usize = 0;
    while i < n
        invariant
            i <= n,
            r@.len() == i,
            forall|j: int| 0 <= j < i ==> r@[j] is None,
        decreases n - i,
    {
        r.push(None);
        i = i + 1;
    }
    r
}

impl H264FrameAssembler {
    /// The representation invariant: the slot vector matches the
    /// declared total, the received count matches the filled slots, and
    /// a tracked sequence is never left complete.
    pub closed spec fn wf(&self) -> bool {
        &&& self.chunks@.len() == self.total
        &&& self.received == count_some(slots_view(self.chunks@))
        &&& !self.active ==> self.total == 0
        &&& self.active ==> 0 < self.total && self.received < self.total
    }

    /// A fresh assembler tracking nothing.
    pub fn new() -> (r: Self)
        ensures
            r.wf(),
            r@ == idle_view(),
    {
        let r = H264FrameAssembler {
            active: false,
            current_seq: 0,
            chunks: Vec::new(),
            total: 0,
            received: 0,
        };
        proof {
            assert(slots_view(r.chunks@) =~= Seq::<Option<Seq<u8>>>::empty());
            assert(r@ == idle_view());
        }
        r
    }

    /// Takes one datagram's chunk and returns the assembled frame bytes
    /// once all chunks of the tracked sequence have arrived. The state
    /// change and the result are exactly one `asm_step` transition.
    pub fn add_chunk(&mut self, seq: u32, idx: usize, total: usize, data: &[u8]) -> (r: Option<
        Vec<u8>,
    >)
        requires
            old(self).wf(),
        ensures
            final(self).wf(),
            ({
                let (v2, out) = asm_step(old(self)@, seq, idx as int, total as int, data@);
                &&& final(self)@ == v2
                &&& (r is Some <==> out is Some)
                &&& (r is Some ==> r->Some_0@ == out->Some_0)
            }),
    {
        if total == 0 {
            return None;
        }
        let ghost v0 = self@;
        if !self.active || seq != self.current_seq {
            self.active = true;
            self.current_seq = seq;
            self.chunks = empty_slots(total);
            self.total = total;
            self.received = 0;
            proof {
                assert(slots_view(self.chunks@) =~= fresh_view(seq, total as nat).slots);
                lemma_count_some_all_none(slots_view(self.chunks@));
            }
        }
        let ghost v1 = if !v0.active || seq != v0.sequence {
            fresh_view(seq, total as nat)
        } else {
            v0
        };
        assert(self@ == v1);
        assert(self.received == count_some(v1.slots));
        if idx < self.total {
            let filled = self.chunks[idx].is_some();
            if !filled {
                proof {
                    lemma_count_some_update(slots_view(self.chunks@), idx as int, data@);
                }
                let ghost before = slots_view(self.chunks@);
                self.chunks[idx] = Some(vstd::slice::slice_to_vec(data));
                self.received = self.received + 1;
                proof {
                    assert(slots_view(self.chunks@) =~= before.update(idx as int, Some(data@)));
                }
            }
        }
        let ghost v2 = if 0 <= idx < v1.slots.len() && v1.slots[idx as int] is None {
            AssemblerView { slots: v1.slots.update(idx as int, Some(data@)), ..v1 }
        } else {
            v1
        };
        assert(self@ == v2);
        assert(self.received == count_some(v2.slots));
        proof {
            lemma_count_some_le_len(v2.slots);
        }
        if self.received == self.total {
            let ghost slots = slots_view(self.chunks@);
            let mut out: Vec<u8> = Vec::new();
            let n = self.chunks.len();
            let mut i: usize = 0;
            proof {
                assert(slots.skip(0) =~= slots);
                assert(out@ + concat_slots(slots) =~= concat_slots(slots));
            }
            while i < n
                invariant
                    n == self.chunks@.len(),
                    slots == slots_view(self.chunks@),
                    i <= n,
                    out@ + concat_slots(slots.skip(i as int)) == concat_slots(slots),
                decreases n - i,
            {
                proof {
                    assert(slots.skip(i as int).drop_first() =~= slots.skip(i as int + 1));
                }
                match &self.chunks[i] {
                    Some(d) => {
                        out.extend_from_slice(d.as_slice());
                    },
                    None => {
                    },
                }
                i = i + 1;
            }
            proof {
                assert(slots.skip(n as int) =~= Seq::<Option<Seq<u8>>>::empty());
                assert(out@ == concat_slots(slots));
            }
            self.active = false;
            self.current_seq = 0;
            self.chunks = Vec::new();
            self.total = 0;
            self.received = 0;
            proof {
                assert(slots_view(self.chunks@) =~= Seq::<Option<Seq<u8>>>::empty());
                assert(self@ == idle_view());
            }
            return Some(out);
        }
        None
    }

    /// Whether a sequence is currently tracked.
    pub fn is_active(&self) -> (r: bool)
        ensures
            r == self@.active,
    {
        self.active
    }

    /// The tracked sequence, meaningful while active.
    pub fn current_sequence(&self) -> (r: u32)
        ensures
            r == self@.sequence,
    {
        self.current_seq
    }

    /// How many chunks of the tracked sequence have arrived.
    pub fn received_count(&self) -> (r: usize)
        requires
            self.wf(),
        ensures
            r == count_some(self@.slots),
    {
        self.received
    }
}

} // verus!
