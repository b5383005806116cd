//! The resumable chunked file-transfer protocol.
//!
//! The sender prepares a plan (size, chunk count, SHA-256 digest, an
//! identifier) and serves single chunks, base64-spelt for the text side
//! channel. The receiver keeps one session record per transfer in a
//! table keyed by identifier: initialization computes the resume point
//! from the length of an existing backing file, each received chunk
//! yields the write (offset and bytes) the caller must apply to that
//! file, and finalization compares the file's digest with the expected
//! one — on a mismatch the session and the backing file are left alone,
//! so the transfer stays resumable and open to diagnosis. All file I/O
//! is the caller's: the library hands out offsets, bytes and names.

use vstd::prelude::*;
use crate::packet::chunk_count;
use crate::digest::{sha256_of, sha256_hex};
use crate::b64::{base64_decode_of, base64_decode};
use crate::text::hex_of;

verus! {

/// Bytes per chunk of the chunked protocol (64 KiB).
pub const CHUNK_SIZE: u64 = 65536;

/// One receiver-side transfer session.
#[derive(Debug)]
pub struct TransferState {
    pub file_name: String,
    pub file_size: u64,
    pub total_chunks: u32,
    pub received_chunks: u32,
    pub file_hash: String,
    pub temp_path: String,
    pub completed: bool,
}

/// Why a transfer call failed.
#[derive(Clone, Copy, PartialEq, Eq, Structural, Debug)]
pub enum TransferError {
    /// No session under the given identifier.
    NotFound,
    /// The chunk payload was not valid base64.
    DecodeError,
    /// The finalized file's digest differs from the expected one.
    HashMismatch,
}

/// The write one received chunk asks of the caller: put `bytes` at
/// `offset` in the backing file.
#[derive(Debug)]
pub struct ChunkWrite {
    pub offset: u64,
    pub bytes: Vec<u8>,
    pub received: u32,
    pub total: u32,
    pub progress: u32,
}

/// Whole-percent progress, zero when nothing is expected.
pub open spec fn spec_progress(received: int, total: int) -> int {
    if total == 0 {
        0
    } else {
        received * 100 / total
    }
}

/// The resume point an existing backing file of the given length gives:
/// its length in whole chunks.
pub open spec fn spec_resume_chunks(existing_len: Option<u64>) -> int {
    match existing_len {
        Some(l) => l as int / (CHUNK_SIZE as int),
        None => 0,
    }
}

/// The receiver's session table, one record per in-flight transfer.
pub struct TransferTable {
    entries: Vec<(String, TransferState)>,
}

impl TransferTable {
    /// Identifiers are unique in the table.
    pub closed spec fn wf(&self) -> bool {
        forall|i: int, j: int|
            0 <= i < j < self.entries@.len() ==> (#[trigger] self.entries@[i]).0@ != (
            #[trigger] self.entries@[j]).0@
    }

    /// Whether a session under this identifier exists.
    pub closed spec fn spec_has(&self, id: Seq<char>) -> bool {
        exists|i: int|
            0 <= i < self.entries@.len() && (#[trigger] self.entries@[i]).0@ == id
    }

    /// The session under this identifier (meaningful when it exists).
    pub closed spec fn spec_state(&self, id: Seq<char>) -> TransferState {
        self.entries@[choose|i: int|
            0 <= i < self.entries@.len() && (#[trigger] self.entries@[i]).0@ == id].1
    }

    /// How many sessions the table holds.
    pub closed spec fn spec_len(&self) -> nat {
        self.entries@.len()
    }

    /// An empty table.
    pub fn new() -> (r: Self)
        ensures
            r.wf(),
            r.spec_len() == 0,
            forall|o: Seq<char>| !r.spec_has(o),
    {
        TransferTable { entries: Vec::new() }
    }

    /// The position of the identifier's record.
    fn index_of(&self, id: &String) -> (r: Option<usize>)
        ensures
            match r {
                Some(i) => i < self.entries@.len() && self.entries@[i as int].0@ == id@,
                None => !self.spec_has(id@),
            },
    {
        let n = self.entries.len();
        let mut i: usize = 0;
        while i < n
            invariant
                n == self.entries@.len(),
                i <= n,
                forall|j: int| 0 <= j < i ==> (#[trigger] self.entries@[j]).0@ != id@,
            decreases n - i,
        {
            let e = &self.entries[i];
            if e.0.eq(id) {
                return Some(i);
            }
            i = i + 1;
        }
        None
    }

    /// The record at a valid position is the one its identifier finds.
    proof fn lemma_state_at(&self, i: int)
        requires
            self.wf(),
            0 <= i < self.entries@.len(),
        ensures
            self.spec_has(self.entries@[i].0@),
            self.spec_state(self.entries@[i].0@) == self.entries@[i].1,
    {
        let id = self.entries@[i].0@;
        assert(self.spec_has(id)) by {
            assert((self.entries@[i]).0@ == id);
        }
        let k = choose|k: int|
            0 <= k < self.entries@.len() && (#[trigger] self.entries@[k]).0@ == id;
        if k != i {
            if k < i {
                assert((self.entries@[k]).0@ != (self.entries@[i]).0@);
            } else {
                assert((self.entries@[i]).0@ != (self.entries@[k]).0@);
            }
        }
    }

    /// Opens (or resumes) a receive session: the record is created with
    /// the given shape and the resume point computed from the existing
    /// backing file's length, in whole chunks. Returns that resume
    /// point, so the sender can skip what is already on disk.
    pub fn init_file_receive(
        &mut self,
        transfer_id: String,
        file_name: String,
        file_size: u64,
        total_chunks: u32,
        file_hash: String,
        temp_path: String,
        existing_len: Option<u64>,
    ) -> (resume: u32)
        requires
            old(self).wf(),
            spec_resume_chunks(existing_len) <= u32::MAX,
        ensures
            final(self).wf(),
            resume == spec_resume_chunks(existing_len),
            final(self).spec_has(transfer_id@),
            final(self).spec_state(transfer_id@) == (TransferState {
                file_name,
                file_size,
                total_chunks,
                received_chunks: resume,
                file_hash,
                temp_path,
                completed: false,
            }),
            forall|o: Seq<char>|
                o != transfer_id@ ==> (final(self).spec_has(o) <==> old(self).spec_has(o)),
            forall|o: Seq<char>|
                o != transfer_id@ && old(self).spec_has(o) ==> final(self).spec_state(o) == old(
                    self,
                ).spec_state(o),
    {
        let resume: u32 = match existing_len {
            Some(l) => (l / CHUNK_SIZE) as u32,
            None => 0,
        };
        let state = TransferState {
            file_name,
            file_size,
            total_chunks,
            received_chunks: resume,
            file_hash,
            temp_path,
            completed: false,
        };
        let ghost old_entries = self.entries@;
        let found = self.index_of(&transfer_id);
        match found {
            Some(i) => {
                let ghost id_view = transfer_id@;
                self.entries[i] = (transfer_id, state);
                proof {
                    self.lemma_commute_replace(old_entries, i as int, id_view);
                }
            },
            None => {
                let ghost id_view = transfer_id@;
                self.entries.push((transfer_id, state));
                proof {
                    self.lemma_commute_push(old_entries, id_view);
                }
            },
        }
        resume
    }

    /// After replacing position `i` (whose identifier already was `id`)
    /// the table still has unique keys, finds the new record under `id`,
    /// and is unchanged elsewhere.
    proof fn lemma_commute_replace(&self, old_entries: Seq<(String, TransferState)>, i: int, id: Seq<char>)
        requires
            0 <= i < old_entries.len(),
            old_entries[i].0@ == id,
            self.entries@ == old_entries.update(i, self.entries@[i]),
            self.entries@[i].0@ == id,
            forall|a: int, b: int|
                0 <= a < b < old_entries.len() ==> (#[trigger] old_entries[a]).0@ != (
                #[trigger] old_entries[b]).0@,
        ensures
            self.wf(),
            self.spec_has(id),
            self.spec_state(id) == self.entries@[i].1,
            forall|o: Seq<char>|
                o != id ==> (self.spec_has(o) <==> spec_entries_has(old_entries, o)),
            forall|o: Seq<char>|
                o != id && spec_entries_has(old_entries, o) ==> self.spec_state(o)
                    == spec_entries_state(old_entries, o),
    {
        let es = self.entries@;
        assert forall|a: int, b: int| 0 <= a < b < es.len() implies (#[trigger] es[a]).0@ != (
        #[trigger] es[b]).0@ by {
            assert(old_entries[a].0@ != old_entries[b].0@);
        }
        self.lemma_state_at(i);
        assert forall|o: Seq<char>| o != id implies (self.spec_has(o) <==> spec_entries_has(
            old_entries,
            o,
        )) by {
            if self.spec_has(o) {
                let k = choose|k: int| 0 <= k < es.len() && (#[trigger] es[k]).0@ == o;
                assert(k != i);
                assert((old_entries[k]).0@ == o);
            }
            if spec_entries_has(old_entries, o) {
                let k = choose|k: int|
                    0 <= k < old_entries.len() && (#[trigger] old_entries[k]).0@ == o;
                assert(k != i);
                assert((es[k]).0@ == o);
            }
        }
        assert forall|o: Seq<char>|
            o != id && spec_entries_has(old_entries, o) implies self.spec_state(o)
            == spec_entries_state(old_entries, o) by {
            let k = choose|k: int|
                0 <= k < old_entries.len() && (#[trigger] old_entries[k]).0@ == o;
            assert(k != i);
            assert((es[k]).0@ == o);
            self.lemma_state_at(k);
            lemma_entries_state_at(old_entries, k);
        }
    }

    /// After pushing a record with a fresh identifier the table still
    /// has unique keys, finds the new record, and is unchanged elsewhere.
    proof fn lemma_commute_push(&self, old_entries: Seq<(String, TransferState)>, id: Seq<char>)
        requires
            self.entries@ == old_entries.push(self.entries@.last()),
            self.entries@.last().0@ == id,
            !spec_entries_has(old_entries, id),
            forall|a: int, b: int|
                0 <= a < b < old_entries.len() ==> (#[trigger] old_entries[a]).0@ != (
                #[trigger] old_entries[b]).0@,
        ensures
            self.wf(),
            self.spec_has(id),
            self.spec_state(id) == self.entries@.last().1,
            forall|o: Seq<char>|
                o != id ==> (self.spec_has(o) <==> spec_entries_has(old_entries, o)),
            forall|o: Seq<char>|
                o != id && spec_entries_has(old_entries, o) ==> self.spec_state(o)
                    == spec_entries_state(old_entries, o),
    {
        let es = self.entries@;
        let n = old_entries.len() as int;
        assert forall|a: int, b: int| 0 <= a < b < es.len() implies (#[trigger] es[a]).0@ != (
        #[trigger] es[b]).0@ by {
            if b < n {
                assert(old_entries[a].0@ != old_entries[b].0@);
            } else {
                assert(es[b] == es.last());
                assert((old_entries[a]).0@ == es[a].0@);
                if es[a].0@ == id {
                    assert(spec_entries_has(old_entries, id));
                }
            }
        }
        self.lemma_state_at(n);
        assert forall|o: Seq<char>| o != id implies (self.spec_has(o) <==> spec_entries_has(
            old_entries,
            o,
        )) by {
            if self.spec_has(o) {
                let k = choose|k: int| 0 <= k < es.len() && (#[trigger] es[k]).0@ == o;
                assert(k != n);
                assert((old_entries[k]).0@ == o);
            }
            if spec_entries_has(old_entries, o) {
                let k = choose|k: int|
                    0 <= k < old_entries.len() && (#[trigger] old_entries[k]).0@ == o;
                assert((es[k]).0@ == o);
            }
        }
        assert forall|o: Seq<char>|
            o != id && spec_entries_has(old_entries, o) implies self.spec_state(o)
            == spec_entries_state(old_entries, o) by {
            let k = choose|k: int|
                0 <= k < old_entries.len() && (#[trigger] old_entries[k]).0@ == o;
            assert((es[k]).0@ == o);
            self.lemma_state_at(k);
            lemma_entries_state_at(old_entries, k);
        }
    }
}

impl TransferTable {
    /// Whenever the identifier is known, the chunk index lies under its
    /// declared chunk total — the protocol addresses chunks `0..total`.
    pub open spec fn chunk_index_ok(&self, id: Seq<char>, chunk_index: u32) -> bool {
        self.spec_has(id) ==> chunk_index < self.spec_state(id).total_chunks
    }

    /// Takes one base64-spelt chunk for a session and says what to write
    /// where: `bytes` at `offset == chunk_index * CHUNK_SIZE` in the
    /// session's backing file. Repeated or out-of-order chunks are fine:
    /// the offset depends on the index alone, so the last write of an
    /// index wins and equal content makes that harmless. The record's
    /// received count becomes `chunk_index + 1`, and progress is whole
    /// percent of the declared total.
    pub fn receive_file_chunk(&mut self, transfer_id: &String, chunk_index: u32, data: &str) -> (r:
        Result<ChunkWrite, TransferError>)
        requires
            old(self).wf(),
            old(self).chunk_index_ok(transfer_id@, chunk_index),
        ensures
            final(self).wf(),
            match r {
                Err(TransferError::NotFound) => !old(self).spec_has(transfer_id@) && *final(self)
                    == *old(self),
                Err(TransferError::DecodeError) => old(self).spec_has(transfer_id@)
                    && base64_decode_of(data@) is None && *final(self) == *old(self),
                Err(TransferError::HashMismatch) => false,
                Ok(w) => {
                    let st = old(self).spec_state(transfer_id@);
                    &&& old(self).spec_has(transfer_id@)
                    &&& base64_decode_of(data@) == Some(w.bytes@)
                    &&& w.offset == chunk_index * CHUNK_SIZE
                    &&& w.received == chunk_index + 1
                    &&& w.total == st.total_chunks
                    &&& w.progress == spec_progress(chunk_index + 1, st.total_chunks as int)
                    &&& final(self).spec_has(transfer_id@)
                    &&& final(self).spec_state(transfer_id@) == (TransferState {
                        received_chunks: (chunk_index + 1) as u32,
                        ..st
                    })
                    &&& forall|o: Seq<char>|
                        o != transfer_id@ ==> (final(self).spec_has(o) <==> old(self).spec_has(o))
                    &&& forall|o: Seq<char>|
                        o != transfer_id@ && old(self).spec_has(o) ==> final(self).spec_state(o)
                            == old(self).spec_state(o)
                },
            },
    {
        let ghost old_entries = self.entries@;
        let found = self.index_of(transfer_id);
        let i = match found {
            Some(i) => i,
            None => {
                return Err(TransferError::NotFound);
            },
        };
        proof {
            self.lemma_state_at(i as int);
        }
        let bytes = match base64_decode(data) {
            Some(b) => b,
            None => {
                return Err(TransferError::DecodeError);
            },
        };
        let offset: u64 = (chunk_index as u64) * CHUNK_SIZE;
        let total = self.entries[i].1.total_chunks;
        let received = chunk_index + 1;
        let progress: u32 = if total == 0 {
            0
        } else {
            proof {
                assert((received as int) * 100 / (total as int) <= 100) by (nonlinear_arith)
                    requires
                        0 < total,
                        0 < received <= total,
                ;
            }
            ((received as u64) * 100 / (total as u64)) as u32
        };
        self.entries[i].1.received_chunks = received;
        proof {
            self.lemma_commute_replace(old_entries, i as int, transfer_id@);
        }
        Ok(ChunkWrite { offset, bytes, received, total, progress })
    }

    /// Checks a completed transfer: with the full backing-file bytes in
    /// hand, their SHA-256 digest must spell the expected hash. On a
    /// match the session record leaves the table and comes back marked
    /// completed, so the caller can rename the backing file; on a
    /// mismatch nothing changes — the record and the backing file stay,
    /// keeping the transfer resumable.
    pub fn finalize_file_transfer(&mut self, transfer_id: &String, file_bytes: &[u8]) -> (r: Result<
        TransferState,
        TransferError,
    >)
        requires
            old(self).wf(),
        ensures
            final(self).wf(),
            match r {
                Err(TransferError::NotFound) => !old(self).spec_has(transfer_id@) && *final(self)
                    == *old(self),
                Err(TransferError::HashMismatch) => {
                    &&& old(self).spec_has(transfer_id@)
                    &&& hex_of(sha256_of(file_bytes@)) != old(self).spec_state(
                        transfer_id@,
                    ).file_hash@
                    &&& *final(self) == *old(self)
                },
                Err(TransferError::DecodeError) => false,
                Ok(st) => {
                    &&& old(self).spec_has(transfer_id@)
                    &&& hex_of(sha256_of(file_bytes@)) == old(self).spec_state(
                        transfer_id@,
                    ).file_hash@
                    &&& st == (TransferState {
                        completed: true,
                        ..old(self).spec_state(transfer_id@)
                    })
                    &&& !final(self).spec_has(transfer_id@)
                    &&& forall|o: Seq<char>|
                        o != transfer_id@ ==> (final(self).spec_has(o) <==> old(self).spec_has(o))
                    &&& forall|o: Seq<char>|
                        o != transfer_id@ && old(self).spec_has(o) ==> final(self).spec_state(o)
                            == old(self).spec_state(o)
                },
            },
    {
        let ghost old_entries = self.entries@;
        let found = self.index_of(transfer_id);
        let i = match found {
            Some(i) => i,
            None => {
                return Err(TransferError::NotFound);
            },
        };
        proof {
            self.lemma_state_at(i as int);
        }
        let computed = sha256_hex(file_bytes);
        if !computed.eq(&self.entries[i].1.file_hash) {
            return Err(TransferError::HashMismatch);
        }
        let (_id, mut state) = self.entries.remove(i);
        state.completed = true;
        proof {
            self.lemma_commute_remove(old_entries, i as int, transfer_id@);
        }
        Ok(state)
    }

    /// The session's received count, declared total and completion flag,
    /// or `None` when the identifier is unknown.
    pub fn get_transfer_status(&self, transfer_id: &String) -> (r: Option<(u32, u32, bool)>)
        requires
            self.wf(),
        ensures
            match r {
                Some(t) => {
                    &&& self.spec_has(transfer_id@)
                    &&& t.0 == self.spec_state(transfer_id@).received_chunks
                    &&& t.1 == self.spec_state(transfer_id@).total_chunks
                    &&& t.2 == self.spec_state(transfer_id@).completed
                },
                None => !self.spec_has(transfer_id@),
            },
    {
        match self.index_of(transfer_id) {
            Some(i) => {
                proof {
                    self.lemma_state_at(i as int);
                }
                let st = &self.entries[i].1;
                Some((st.received_chunks, st.total_chunks, st.completed))
            },
            None => None,
        }
    }

    /// Drops a session and hands back its backing-file path so the
    /// caller can delete the file. Unknown identifiers are no error:
    /// there is nothing left to cancel.
    pub fn cancel_file_transfer(&mut self, transfer_id: &String) -> (r: Option<String>)
        requires
            old(self).wf(),
        ensures
            final(self).wf(),
            match r {
                Some(p) => {
                    &&& old(self).spec_has(transfer_id@)
                    &&& p == old(self).spec_state(transfer_id@).temp_path
                    &&& !final(self).spec_has(transfer_id@)
                    &&& forall|o: Seq<char>|
                        o != transfer_id@ ==> (final(self).spec_has(o) <==> old(self).spec_has(o))
                    &&& forall|o: Seq<char>|
                        o != transfer_id@ && old(self).spec_has(o) ==> final(self).spec_state(o)
                            == old(self).spec_state(o)
                },
                None => !old(self).spec_has(transfer_id@) && *final(self) == *old(self),
            },
    {
        let ghost old_entries = self.entries@;
        match self.index_of(transfer_id) {
            Some(i) => {
                proof {
                    self.lemma_state_at(i as int);
                }
                let (_id, state) = self.entries.remove(i);
                proof {
                    self.lemma_commute_remove(old_entries, i as int, transfer_id@);
                }
                Some(state.temp_path)
            },
            None => None,
        }
    }

    /// After removing position `i` (whose identifier was `id`) the table
    /// still has unique keys, no longer knows `id`, and is unchanged
    /// elsewhere.
    proof fn lemma_commute_remove(
        &self,
        old_entries: Seq<(String, TransferState)>,
        i: int,
        id: Seq<char>,
    )
        requires
            0 <= i < old_entries.len(),
            old_entries[i].0@ == id,
            self.entries@ == old_entries.remove(i),
            forall|a: int, b: int|
                0 <= a < b < old_entries.len() ==> (#[trigger] old_entries[a]).0@ != (
                #[trigger] old_entries[b]).0@,
        ensures
            self.wf(),
            !self.spec_has(id),
            forall|o: Seq<char>|
                o != id ==> (self.spec_has(o) <==> spec_entries_has(old_entries, o)),
            forall|o: Seq<char>|
                o != id && spec_entries_has(old_entries, o) ==> self.spec_state(o)
                    == spec_entries_state(old_entries, o),
    {
        let es = self.entries@;
        assert forall|k: int| 0 <= k < es.len() implies es[k] == (if k < i {
            old_entries[k]
        } else {
            old_entries[k + 1]
        }) by {}
        assert forall|a: int, b: int| 0 <= a < b < es.len() implies (#[trigger] es[a]).0@ != (
        #[trigger] es[b]).0@ by {
            let oa = if a < i { a } else { a + 1 };
            let ob = if b < i { b } else { b + 1 };
            assert(old_entries[oa].0@ != old_entries[ob].0@);
        }
        assert(!self.spec_has(id)) by {
            if self.spec_has(id) {
                let k = choose|k: int| 0 <= k < es.len() && (#[trigger] es[k]).0@ == id;
                let ok = if k < i { k } else { k + 1 };
                assert(old_entries[ok].0@ == id);
                if ok < i {
                    assert(old_entries[ok].0@ != old_entries[i].0@);
                } else {
                    assert(old_entries[i].0@ != old_entries[ok].0@);
                }
            }
        }
        assert forall|o: Seq<char>| o != id implies (self.spec_has(o) <==> spec_entries_has(
            old_entries,
            o,
        )) by {
            if self.spec_has(o) {
                let k = choose|k: int| 0 <= k < es.len() && (#[trigger] es[k]).0@ == o;
                let ok = if k < i { k } else { k + 1 };
                assert((old_entries[ok]).0@ == o);
            }
            if spec_entries_has(old_entries, o) {
                let k = choose|k: int|
                    0 <= k < old_entries.len() && (#[trigger] old_entries[k]).0@ == o;
                assert(k != i);
                let nk = if k < i { k } else { k - 1 };
                assert((es[nk]).0@ == o);
            }
        }
        assert forall|o: Seq<char>|
            o != id && spec_entries_has(old_entries, o) implies self.spec_state(o)
            == spec_entries_state(old_entries, o) by {
            let k = choose|k: int|
                0 <= k < old_entries.len() && (#[trigger] old_entries[k]).0@ == o;
            assert(k != i);
            let nk = if k < i { k } else { k - 1 };
            assert((es[nk]).0@ == o);
            self.lemma_state_at(nk);
            lemma_entries_state_at(old_entries, k);
            assert(es[nk] == old_entries[k]);
        }
    }
}

/// What the sender announces before any bytes move.
pub struct TransferPlan {
    pub transfer_id: String,
    pub file_size: u64,
    pub total_chunks: u32,
    pub file_hash: String,
    pub chunk_size: u64,
}

/// Plans a transfer of the given file bytes: SHA-256 digest in hex, the
/// chunk count at [`CHUNK_SIZE`], and an identifier spelt from the first
/// sixteen digest characters, an underscore and the creation time.
pub fn prepare_file_transfer(data: &[u8], now_secs: u64) -> (r: TransferPlan)
    requires
        chunk_count(data@.len(), CHUNK_SIZE as nat) <= u32::MAX,
    ensures
        r.file_hash@ == hex_of(sha256_of(data@)),
        r.file_size == data@.len(),
        r.total_chunks == chunk_count(data@.len(), CHUNK_SIZE as nat),
        r.chunk_size == CHUNK_SIZE,
        r.transfer_id@ == hex_of(sha256_of(data@)).take(16) + seq!['_'] + crate::text::dec_of(
            now_secs as nat,
        ),
{
    let file_hash = sha256_hex(data);
    let len = data.len();
    proof {
        crate::packet::lemma_chunk_index_bound(
            len as nat,
            CHUNK_SIZE as nat,
            (u32::MAX + 1) as nat,
        );
    }
    let total_chunks = (((len as u64) + CHUNK_SIZE - 1) / CHUNK_SIZE) as u32;
    proof {
        crate::text::lemma_hex_of_ascii(sha256_of(data@));
    }
    let prefix = file_hash.as_str().substring_ascii(0, 16);
    let mut transfer_id = String::from_str(prefix);
    proof {
        reveal_strlit("_");
    }
    transfer_id.append("_");
    let ts = crate::text::u64_to_decimal(now_secs);
    transfer_id.append(ts.as_str());
    proof {
        assert(transfer_id@ =~= hex_of(sha256_of(data@)).take(16) + seq!['_']
            + crate::text::dec_of(now_secs as nat));
    }
    TransferPlan { transfer_id, file_size: len as u64, total_chunks, file_hash, chunk_size: CHUNK_SIZE }
}

/// The bytes chunk `i` of a file covers: empty once past the end.
pub open spec fn spec_file_chunk(data: Seq<u8>, i: nat) -> Seq<u8> {
    if i * (CHUNK_SIZE as nat) >= data.len() {
        Seq::empty()
    } else {
        crate::packet::chunk_at(data, CHUNK_SIZE as nat, i)
    }
}

/// Serves one chunk of a file the sender holds, base64-spelt for the
/// side channel, along with the chunk's byte count. A chunk past the end
/// of the file is empty, as a read past the end would be.
pub fn read_file_chunk(data: &[u8], chunk_index: u32) -> (r: (String, usize))
    ensures
        r.0@ == crate::b64::base64_of(spec_file_chunk(data@, chunk_index as nat)),
        r.1 == spec_file_chunk(data@, chunk_index as nat).len(),
{
    let len = data.len();
    let offset64: u64 = (chunk_index as u64) * CHUNK_SIZE;
    if offset64 >= len as u64 {
        let empty: Vec<u8> = Vec::new();
        let encoded = crate::b64::base64_encode(empty.as_slice());
        proof {
            assert(spec_file_chunk(data@, chunk_index as nat) =~= Seq::<u8>::empty());
        }
        (encoded, 0)
    } else {
        let offset = offset64 as usize;
        let end = if len - offset > CHUNK_SIZE as usize {
            offset + CHUNK_SIZE as usize
        } else {
            len
        };
        let slice = vstd::slice::slice_subrange(data, offset, end);
        let encoded = crate::b64::base64_encode(slice);
        proof {
            let cap = CHUNK_SIZE as nat;
            let i = chunk_index as nat;
            assert((i + 1) * cap == i * cap + cap) by (nonlinear_arith);
            assert(slice@ =~= spec_file_chunk(data@, i));
        }
        (encoded, end - offset)
    }
}

/// The backing file after `data` lands at `offset`: shorter files are
/// zero-padded up to the offset first, longer ones keep their tail.
pub open spec fn write_at(file: Seq<u8>, offset: nat, data: Seq<u8>) -> Seq<u8> {
    let padded = if file.len() < offset {
        file + Seq::new((offset - file.len()) as nat, |i: int| 0u8)
    } else {
        file
    };
    padded.take(offset as int) + data + (if padded.len() > offset + data.len() {
        padded.skip((offset + data.len()) as int)
    } else {
        Seq::empty()
    })
}

/// Applies one chunk write to an in-memory image of the backing file,
/// exactly as the receiver's seek-and-write does on disk.
pub fn apply_chunk_write(file: &mut Vec<u8>, offset: usize, bytes: &[u8])
    requires
        offset + bytes@.len() <= usize::MAX,
    ensures
        final(file)@ == write_at(old(file)@, offset as nat, bytes@),
{
    let ghost orig = file@;
    let ghost padded = if orig.len() < offset {
        orig + Seq::new((offset - orig.len()) as nat, |i: int| 0u8)
    } else {
        orig
    };
    proof {
        if orig.len() < offset {
            assert(padded.take(orig.len() as int) =~= orig);
        }
    }
    while file.len() < offset
        invariant
            padded == (if orig.len() < offset {
                orig + Seq::new((offset - orig.len()) as nat, |i: int| 0u8)
            } else {
                orig
            }),
            orig.len() >= offset ==> file@ == orig,
            orig.len() < offset ==> orig.len() <= file@.len() <= offset && file@ == padded.take(
                file@.len() as int,
            ),
        decreases offset - file.len(),
    {
        file.push(0);
        proof {
            assert(file@ =~= padded.take(file@.len() as int));
        }
    }
    proof {
        if orig.len() < offset {
            assert(file@.len() == offset);
            assert(padded.take(padded.len() as int) =~= padded);
        }
        assert(file@ == padded);
    }
    let n = bytes.len();
    let mut j: usize = 0;
    proof {
        assert(bytes@.take(0) =~= Seq::<u8>::empty());
        assert(file@ =~= write_at(orig, offset as nat, bytes@.take(0)));
    }
    while j < n
        invariant
            n == bytes@.len(),
            j <= n,
            offset + n <= usize::MAX,
            padded == (if orig.len() < offset {
                orig + Seq::new((offset - orig.len()) as nat, |i: int| 0u8)
            } else {
                orig
            }),
            padded.len() >= offset,
            file@ == write_at(orig, offset as nat, bytes@.take(j as int)),
            file@.len() == (if padded.len() > offset + j {
                padded.len() as int
            } else {
                (offset + j) as int
            }),
        decreases n - j,
    {
        let ghost before = file@;
        let b = *vstd::slice::slice_index_get(bytes, j);
        if offset + j < file.len() {
            file[offset + j] = b;
        } else {
            file.push(b);
        }
        proof {
            assert(file@ =~= write_at(orig, offset as nat, bytes@.take(j as int + 1)));
        }
        j = j + 1;
    }
    proof {
        assert(bytes@.take(n as int) =~= bytes@);
    }
}

/// The backing file after chunks `from..to` of `data` land in order at
/// their offsets, chunk size `k`.
pub open spec fn apply_chunks(data: Seq<u8>, k: nat, from: nat, to: nat, file: Seq<u8>) -> Seq<u8>
    decreases to - from,
{
    if from >= to {
        file
    } else {
        apply_chunks(
            data,
            k,
            from + 1,
            to,
            write_at(file, from * k, crate::packet::chunk_at(data, k, from)),
        )
    }
}

/// The file contents after the first `i` chunks have landed in order.
pub open spec fn written_prefix(data: Seq<u8>, k: nat, i: nat) -> Seq<u8> {
    if i * k <= data.len() {
        data.take((i * k) as int)
    } else {
        data
    }
}

/// In-order chunk writes extend the written prefix, chunk by chunk.
proof fn lemma_apply_prefix(data: Seq<u8>, k: nat, from: nat, to: nat)
    requires
        0 < k,
        from <= to <= chunk_count(data.len(), k),
    ensures
        apply_chunks(data, k, from, to, written_prefix(data, k, from)) == written_prefix(
            data,
            k,
            to,
        ),
    decreases to - from,
{
    if from < to {
        let file = written_prefix(data, k, from);
        crate::packet::lemma_chunk_index_bound(data.len(), k, from);
        assert(from * k < data.len());
        assert((from + 1) * k == from * k + k) by (nonlinear_arith);
        let chunk = crate::packet::chunk_at(data, k, from);
        assert(write_at(file, from * k, chunk) =~= written_prefix(data, k, from + 1));
        lemma_apply_prefix(data, k, from + 1, to);
    }
}

/// Resume correctness: writing chunks `0..m` in order onto an empty
/// backing file leaves exactly the first `m * k` bytes, whose length in
/// whole chunks recovers `m` as the resume point; writing chunks
/// `m..total` on top completes the file bit for bit. Equal bytes carry
/// the same SHA-256 name, so finalizing the resumed transfer against the
/// plan's digest is bound to succeed.
pub proof fn lemma_resume_round_trip(data: Seq<u8>, k: nat, m: nat)
    requires
        0 < k,
        m <= chunk_count(data.len(), k),
    ensures
        ({
            let total = chunk_count(data.len(), k);
            let part = apply_chunks(data, k, 0, m, Seq::empty());
            &&& apply_chunks(data, k, m, total, part) == data
            &&& m < total ==> part.len() == m * k && (part.len() as int) / (k as int) == m
        }),
{
    let total = chunk_count(data.len(), k);
    let part = apply_chunks(data, k, 0, m, Seq::empty());
    assert(0 * k == 0) by (nonlinear_arith);
    assert(written_prefix(data, k, 0) =~= Seq::<u8>::empty());
    lemma_apply_prefix(data, k, 0, m);
    assert(part == written_prefix(data, k, m));
    lemma_apply_prefix(data, k, m, total);
    assert(total * k >= data.len()) by {
        crate::packet::lemma_chunk_index_bound(data.len(), k, total);
    }
    assert(written_prefix(data, k, total) =~= data);
    if m < total {
        crate::packet::lemma_chunk_index_bound(data.len(), k, m);
        assert(m * k < data.len());
        assert(part.len() == m * k);
        vstd::arithmetic::div_mod::lemma_div_multiples_vanish(m as int, k as int);
        assert((m * k) as int == (k as int) * (m as int)) by (nonlinear_arith);
    }
}

/// Whether an entry sequence holds the identifier.
pub open spec fn spec_entries_has(es: Seq<(String, TransferState)>, id: Seq<char>) -> bool {
    exists|i: int| 0 <= i < es.len() && (#[trigger] es[i]).0@ == id
}

/// The state an entry sequence holds under the identifier.
pub open spec fn spec_entries_state(es: Seq<(String, TransferState)>, id: Seq<char>) -> TransferState {
    es[choose|i: int| 0 <= i < es.len() && (#[trigger] es[i]).0@ == id].1
}

/// With unique keys, the record at a position is the one its identifier finds.
proof fn lemma_entries_state_at(es: Seq<(String, TransferState)>, i: int)
    requires
        0 <= i < es.len(),
        forall|a: int, b: int|
            0 <= a < b < es.len() ==> (#[trigger] es[a]).0@ != (#[trigger] es[b]).0@,
    ensures
        spec_entries_has(es, es[i].0@),
        spec_entries_state(es, es[i].0@) == es[i].1,
{
    let id = es[i].0@;
    assert(spec_entries_has(es, id)) by {
        assert((es[i]).0@ == id);
    }
    let k = choose|k: int| 0 <= k < es.len() && (#[trigger] es[k]).0@ == id;
    if k != i {
        if k < i {
            assert((es[k]).0@ != (es[i]).0@);
        } else {
            assert((es[i]).0@ != (es[k]).0@);
        }
    }
}

} // verus!
