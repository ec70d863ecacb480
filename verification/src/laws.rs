//! What holds of every run of an entry's state machine.

use vstd::prelude::*;
use crate::error::Error;
use crate::state::{upload_image, DownloadStep, FileState, FlushPlan, Status, Step};

verus! {

/// One step of an entry's life.
pub enum Op {
    /// A write of `data` at `offset`.
    Write { offset: nat, data: Seq<u8> },
    /// A truncation to `size`.
    Truncate { size: nat },
    /// A chunk from the downloader; `held` says whether anybody holds the
    /// entry.
    Chunk { data: Seq<u8>, held: bool },
    /// The end of the remote stream.
    StreamEnd,
    /// A failure of the remote stream.
    StreamError,
    /// A flush.
    Flush,
    /// The end of the upload stamped `epoch`.
    FinishUpload { epoch: u64, accepted: bool },
    /// The entry is superseded.
    Invalidate,
}

/// The entry after one step.
pub open spec fn apply(s: FileState, op: Op) -> FileState {
    match op {
        Op::Write { offset, data } => s.after_write(offset, data),
        Op::Truncate { size } => s.after_truncate(size),
        Op::Chunk { data, held } => s.after_chunk(data, held),
        Op::StreamEnd => s.after_stream_end(),
        Op::StreamError => s.after_stream_error(),
        Op::Flush => s.after_flush(),
        Op::FinishUpload { epoch, accepted } => s.after_finish_upload(epoch, accepted),
        Op::Invalidate => s.invalidated(),
    }
}

/// The entry after the steps `ops`, taken in order.
pub open spec fn run(s: FileState, ops: Seq<Op>) -> FileState
    decreases ops.len(),
{
    if ops.len() == 0 {
        s
    } else {
        apply(run(s, ops.drop_last()), ops.last())
    }
}

/// Whether a step can be taken within the machine's limits: a truncation
/// has an addressable size, and an epoch is left to stamp.
pub open spec fn feasible(s: FileState, op: Op) -> bool {
    &&& s.epochs < u64::MAX
    &&& op matches Op::Truncate { size } ==> size <= usize::MAX
}

/// Whether the step `op`, taken on `s`, stores the byte `b` at `i`: a served
/// write or a stored chunk that covers `i`.
pub open spec fn stores(s: FileState, op: Op, i: int, b: u8) -> bool {
    match op {
        Op::Write { offset, data } => s.serviceable() && offset + data.len() <= usize::MAX && offset
            <= i < offset + data.len() && data[i - offset] == b,
        Op::Chunk { data, held } => s.download_proceeds(held) && s.available <= i < s.available
            + s.chunk_take(data.len()) && data[i - s.available] == b,
        _ => false,
    }
}

/// Every feasible step keeps the invariant of an entry.
pub proof fn law_step_keeps_invariant(s: FileState, op: Op)
    requires
        s.wf(),
        feasible(s, op),
    ensures
        apply(s, op).wf(),
        apply(s, op).remote_id == s.remote_id,
        s.epochs <= apply(s, op).epochs <= s.epochs + 1,
{
    match op {
        Op::Chunk { data, held } => {
            if s.download_proceeds(held) {
                let stored = s.with_chunk(data);
                assert(stored.content.len() == s.content.len());
            }
        },
        _ => {},
    }
}

/// A superseded entry stays superseded, whatever happens to it.
pub proof fn law_invalidated_is_terminal(s: FileState, op: Op)
    requires
        s.status is Invalidated,
    ensures
        apply(s, op) == s,
{
}

/// A fresh epoch is larger than every epoch stamped before, and an entry
/// leaves `Dirty` for `Ready` only through the end of the upload stamped
/// with its current epoch.
pub proof fn law_epochs(s: FileState, op: Op)
    requires
        s.wf(),
        feasible(s, op),
    ensures
        s.status is Ready && apply(s, op).status is Dirty ==> apply(s, op).status->epoch > s.epochs,
        s.status matches Status::Dirty { epoch, uploading } ==> (apply(s, op).status is Ready ==> op
            == (Op::FinishUpload { epoch, accepted: true }) && uploading),
{
}

/// A new entry holds nothing but zeros.
pub proof fn law_new_entries_hold_zeros(remote_id: i32, size: nat, truncate_to: Option<u64>, j: int)
    requires
        0 <= j < size,
    ensures
        FileState::ready_empty(remote_id).content.len() == 0,
        FileState::downloading(remote_id, size, truncate_to).content.len() == size,
        FileState::downloading(remote_id, size, truncate_to).content[j] == 0,
{
}

/// Every byte of an entry that started out as zeros is zero or was stored
/// at its offset by a write or a chunk of the run.
pub proof fn law_bytes_were_stored(s: FileState, ops: Seq<Op>, i: int)
    requires
        forall|j: int| 0 <= j < s.content.len() ==> s.content[j] == 0,
        0 <= i < run(s, ops).content.len(),
    ensures
        run(s, ops).content[i] == 0 || exists|k: int|
            0 <= k < ops.len() && #[trigger] stores(
                run(s, ops.take(k)),
                ops[k],
                i,
                run(s, ops).content[i],
            ),
    decreases ops.len(),
{
    if ops.len() > 0 {
        let before = ops.drop_last();
        let prev = run(s, before);
        let op = ops.last();
        let cur = run(s, ops);
        let b = cur.content[i];
        let last = ops.len() - 1;
        assert(ops.take(last) =~= before);
        if stores(prev, op, i, b) {
            assert(stores(run(s, ops.take(last)), ops[last], i, b));
        } else if b != 0 {
            assert(0 <= i < prev.content.len() && prev.content[i] == b) by {
                match op {
                    Op::Chunk { data, held } => {
                        if prev.download_proceeds(held) {
                            let n = prev.chunk_take(data.len());
                            let stored = prev.with_chunk(data);
                            assert(data.take(n as int)[i - prev.available] == data[i
                                - prev.available] || !(prev.available <= i < prev.available + n));
                        }
                    },
                    _ => {},
                }
            }
            law_bytes_were_stored(s, before, i);
            let k = choose|k: int|
                0 <= k < before.len() && #[trigger] stores(run(s, before.take(k)), before[k], i, b);
            assert(before.take(k) =~= ops.take(k));
            assert(stores(run(s, ops.take(k)), ops[k], i, b));
        }
    }
}

/// While the download runs, the available prefix never shrinks, but for a
/// truncation to less than is available.
pub proof fn law_available_grows(s: FileState, op: Op)
    requires
        s.wf(),
        feasible(s, op),
        apply(s, op).status is Downloading,
        op matches Op::Truncate { size } ==> size >= s.available,
    ensures
        apply(s, op).available >= s.available,
{
}

/// The upload whose end makes an entry `Ready` carried the content that the
/// entry then has: what was handed out when the upload started is what the
/// entry holds when it is committed.
pub proof fn law_commit_carries_content(s: FileState, epoch: u64)
    requires
        s.wf(),
        s.finish_upload_result(epoch, true) is Committed,
    ensures
        s.after_finish_upload(epoch, true).status is Ready,
        s.after_finish_upload(epoch, true).content == s.content,
        s.in_flight == upload_image(s.content),
{
}

/// What the step `op`, taken on `s`, hands out for upload, if it starts one:
/// a flush of a dirty entry whose content is not being sent, or the
/// completion of a download with a pending truncation.
pub open spec fn starts_upload(s: FileState, op: Op) -> Option<Seq<u8>> {
    match op {
        Op::Flush => match s.status {
            Status::Dirty { uploading: false, .. } => Some(upload_image(s.content)),
            _ => None,
        },
        Op::Chunk { data, held } => if s.chunk_result(data, held) matches DownloadStep::Finished {
            upload: Some(_),
        } {
            Some(upload_image(s.after_chunk(data, held).content))
        } else {
            None
        },
        Op::StreamEnd => if s.stream_end_result() matches DownloadStep::Finished { upload: Some(_) } {
            Some(upload_image(s.after_stream_end().content))
        } else {
            None
        },
        _ => None,
    }
}

/// Whether every step of the run `ops` from `s` can be taken within the
/// machine's limits.
pub open spec fn feasible_run(s: FileState, ops: Seq<Op>) -> bool {
    forall|k: int| 0 <= k < ops.len() ==> feasible(run(s, #[trigger] ops.take(k)), ops[k])
}

/// The invariant holds throughout a feasible run, and while an upload is
/// marked as running, a step of the run has started it and handed out what
/// the entry records as in flight.
pub proof fn lemma_upload_was_started(s: FileState, ops: Seq<Op>)
    requires
        s.wf(),
        !(s.status is Dirty),
        feasible_run(s, ops),
    ensures
        run(s, ops).wf(),
        run(s, ops).status matches Status::Dirty { uploading: true, .. } ==> exists|k: int|
            0 <= k < ops.len() && #[trigger] starts_upload(run(s, ops.take(k)), ops[k]) == Some(
                run(s, ops).in_flight,
            ),
    decreases ops.len(),
{
    if ops.len() > 0 {
        let before = ops.drop_last();
        let last = ops.len() - 1;
        let op = ops.last();
        assert(ops.take(last) =~= before);
        assert forall|k: int| 0 <= k < before.len() implies feasible(
            run(s, #[trigger] before.take(k)),
            before[k],
        ) by {
            assert(before.take(k) =~= ops.take(k));
        }
        lemma_upload_was_started(s, before);
        let prev = run(s, before);
        let cur = run(s, ops);
        assert(feasible(run(s, ops.take(last)), ops[last]));
        law_step_keeps_invariant(prev, op);
        if cur.status matches Status::Dirty { uploading: true, .. } {
            if starts_upload(prev, op) is Some {
                assert(starts_upload(run(s, ops.take(last)), ops[last]) == Some(cur.in_flight));
            } else {
                assert(prev.status == cur.status && prev.in_flight == cur.in_flight);
                let k = choose|k: int|
                    0 <= k < before.len() && #[trigger] starts_upload(
                        run(s, before.take(k)),
                        before[k],
                    ) == Some(prev.in_flight);
                assert(before.take(k) =~= ops.take(k));
                assert(starts_upload(run(s, ops.take(k)), ops[k]) == Some(cur.in_flight));
            }
        }
    }
}

/// Whenever a run ends with the commit that makes the entry `Ready`, a step
/// of the run has started an upload of exactly the content that the entry
/// then has.
pub proof fn law_committed_content_was_sent(s: FileState, ops: Seq<Op>, epoch: u64)
    requires
        s.wf(),
        !(s.status is Dirty),
        feasible_run(s, ops),
        ops.len() > 0,
        ops.last() == (Op::FinishUpload { epoch, accepted: true }),
        run(s, ops.drop_last()).status is Dirty,
        run(s, ops).status is Ready,
    ensures
        exists|k: int|
            0 <= k < ops.len() - 1 && #[trigger] starts_upload(run(s, ops.take(k)), ops[k]) == Some(
                upload_image(run(s, ops).content),
            ),
{
    let before = ops.drop_last();
    assert forall|k: int| 0 <= k < before.len() implies feasible(
        run(s, #[trigger] before.take(k)),
        before[k],
    ) by {
        assert(before.take(k) =~= ops.take(k));
    }
    lemma_upload_was_started(s, before);
    let prev = run(s, before);
    assert(prev.upload_current(epoch));
    let k = choose|k: int|
        0 <= k < before.len() && #[trigger] starts_upload(run(s, before.take(k)), before[k]) == Some(
            prev.in_flight,
        );
    assert(before.take(k) =~= ops.take(k));
    assert(starts_upload(run(s, ops.take(k)), ops[k]) == Some(upload_image(run(s, ops).content)));
}

/// A flush that starts an upload records what it hands out, and no second
/// upload starts while that one runs.
pub proof fn law_upload_starts_once(s: FileState, block: bool, again: bool)
    requires
        s.wf(),
        s.flush_result(block) is Ok,
        s.flush_result(block)->Ok_0 is Upload,
    ensures
        s.after_flush().in_flight == upload_image(s.content),
        s.after_flush().upload_current(s.flush_result(block)->Ok_0->Upload_epoch),
        !(s.after_flush().flush_result(again) matches Ok(FlushPlan::Upload { .. })),
{
}

/// Of two flushes in a row, with or without the commit of the first
/// between them, at most one starts an upload.
pub proof fn law_flush_is_idempotent(s: FileState, first: bool, second: bool, epoch: u64)
    requires
        s.wf(),
    ensures
        !(s.flush_result(first) matches Ok(FlushPlan::Upload { .. })
            && s.after_flush().flush_result(second) matches Ok(FlushPlan::Upload { .. })),
        !(s.after_flush().after_finish_upload(epoch, true).flush_result(second) matches Ok(
            FlushPlan::Upload { .. },
        )),
        s.status is Ready ==> s.flush_result(first) == Ok::<FlushPlan, Error>(FlushPlan::Done)
            && s.after_flush() == s,
{
}

/// After a truncation that was carried out on the entry, the entry has the
/// new size, and a read from the start that asks for at least that much
/// returns exactly that many bytes once it is served.
pub proof fn law_truncate_then_read(s: FileState, new_size: nat, size: nat)
    requires
        s.wf(),
        s.truncates_in_place(),
        size >= new_size,
    ensures
        s.after_truncate(new_size).size() == new_size,
        s.after_truncate(new_size).status is Dirty ==> s.after_truncate(new_size).read_result(0, size)
            is Ok,
        s.after_truncate(new_size).read_result(0, size) matches Ok(Step::Done(bytes)) ==> bytes.len()
            == new_size,
        !(s.after_truncate(new_size).read_result(0, size) is Err),
{
    let t = s.after_truncate(new_size);
    assert(t.content.len() == new_size);
}

/// All chunks of `chunks`, one after the other.
pub open spec fn joined(chunks: Seq<Seq<u8>>) -> Seq<u8>
    decreases chunks.len(),
{
    if chunks.len() == 0 {
        Seq::empty()
    } else {
        joined(chunks.drop_last()) + chunks.last()
    }
}

/// The entry after the downloader handed over `chunks` while the entry was
/// held.
pub open spec fn fed(s: FileState, chunks: Seq<Seq<u8>>) -> FileState
    decreases chunks.len(),
{
    if chunks.len() == 0 {
        s
    } else {
        fed(s, chunks.drop_last()).after_chunk(chunks.last(), true)
    }
}

/// A held entry that is downloading `total` bytes without a truncation
/// holds, after any chunks, what of them fits into `total`; it is `Ready`
/// as soon as nothing is missing.
pub proof fn lemma_fed(remote_id: i32, total: nat, chunks: Seq<Seq<u8>>)
    requires
        0 < total <= usize::MAX,
    ensures
        ({
            let s = fed(FileState::downloading(remote_id, total, None), chunks);
            let got = joined(chunks);
            &&& s.content.len() == total
            &&& s.remote_id == remote_id
            &&& s.epochs == 0
            &&& if got.len() < total {
                &&& s.status == (Status::Downloading { truncate_to: None })
                &&& s.available == got.len()
                &&& s.content.take(got.len() as int) == got
            } else {
                &&& s.status is Ready
                &&& s.content == got.take(total as int)
            }
        }),
    decreases chunks.len(),
{
    let start = FileState::downloading(remote_id, total, None);
    if chunks.len() > 0 {
        let before = chunks.drop_last();
        let prev = fed(start, before);
        let had = joined(before);
        let chunk = chunks.last();
        let got = joined(chunks);
        lemma_fed(remote_id, total, before);
        let s = fed(start, chunks);
        if had.len() < total {
            let n = prev.chunk_take(chunk.len());
            let stored = prev.with_chunk(chunk);
            assert(stored.content.len() == total);
            assert(stored.content.take((had.len() + n) as int) =~= got.take((had.len() + n) as int)) by {
                assert forall|j: int| 0 <= j < had.len() + n implies stored.content[j] == got[j] by {
                    if j < had.len() {
                        assert(prev.content.take(had.len() as int)[j] == had[j]);
                    }
                }
            }
            if got.len() < total {
                assert(got.take(got.len() as int) =~= got);
            } else {
                assert(stored.content.take(total as int) =~= stored.content);
            }
        } else {
            assert(got.take(total as int) =~= had.take(total as int));
        }
    } else {
        assert(start.content.take(0) =~= Seq::<u8>::empty());
    }
}

/// Round trip. What is written at the start of a new, empty file is what
/// its flush uploads, with one zero byte standing in for no bytes at all;
/// and an entry opened anew on a document with those bytes holds them, and
/// returns them to a read, once the downloader has handed them over in
/// whatever chunks.
pub proof fn law_round_trip(remote_id: i32, bytes: Seq<u8>, chunks: Seq<Seq<u8>>, size: nat)
    requires
        bytes.len() <= usize::MAX,
        joined(chunks) == upload_image(bytes),
        size >= upload_image(bytes).len(),
    ensures
        ({
            let written = FileState::ready_empty(remote_id).after_write(0, bytes);
            let sent = upload_image(written.content);
            let reopened = fed(FileState::downloading(remote_id, sent.len(), None), chunks);
            &&& written.content == bytes
            &&& written.flush_result(true) matches Ok(FlushPlan::Upload { .. })
            &&& written.after_flush().in_flight == sent
            &&& sent == upload_image(bytes)
            &&& reopened.status is Ready
            &&& reopened.read_result(0, size) == Ok::<Step<Seq<u8>>, Error>(Step::Done(sent))
        }),
{
    let written = FileState::ready_empty(remote_id).after_write(0, bytes);
    assert(written.content =~= bytes);
    let sent = upload_image(bytes);
    lemma_fed(remote_id, sent.len(), chunks);
    let reopened = fed(FileState::downloading(remote_id, sent.len(), None), chunks);
    assert(sent.take(sent.len() as int) =~= sent);
    assert(reopened.content.subrange(0, sent.len() as int) =~= sent);
}

} // verus!
