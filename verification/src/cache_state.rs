//! The cache table as a mathematical model: the recency-ordered table from
//! remote ids to handles, the entries by handle, and what each operation of
//! the cache makes of them. The executable cache in `cache` refines these
//! functions.

use vstd::prelude::*;
use crate::error::Error;
use crate::state::{
    min_nat, upload_image, DownloadStep, FileState, FlushPlan, Status, Step, UploadOutcome,
};
use crate::table::{
    distinct_keys, has_key, has_value, lemma_fronted, lemma_position, lemma_removed, lemma_touched,
    lookup, origin, position, skip, touched,
};

verus! {

/// An entry together with the number of callers that hold it.
pub struct SlotState {
    /// The entry.
    pub file: FileState,
    /// How many callers hold the entry across a wait.
    pub holders: nat,
}

/// The model of the cache.
pub struct CacheState {
    /// The pairs of remote id and handle, the most recently used first.
    pub table: Seq<(i32, u64)>,
    /// How many pairs the table holds at most.
    pub capacity: nat,
    /// The entries by handle. An entry can outlive its place in the table.
    pub entries: Map<u64, SlotState>,
    /// How many steps were taken; the next handle.
    pub ticks: nat,
}

/// A remote message, as far as the cache reads it.
pub struct MessageState {
    /// The id of the message.
    pub id: i32,
    /// Whether the message has no text: such a message stands for an empty
    /// file.
    pub text_empty: bool,
    /// The media, if any.
    pub media: Option<Media>,
}

/// The media of a remote message.
#[derive(Debug, Clone, Copy, PartialEq, Eq)]
pub enum Media {
    /// A document of `size` bytes.
    Document { size: u64 },
    /// Anything else.
    Unsupported,
}

/// What an upload sends.
pub struct UploadState {
    /// The handle of the entry.
    pub handle: u64,
    /// The remote message to edit.
    pub remote_id: i32,
    /// The epoch of the upload.
    pub epoch: u64,
    /// The bytes to send.
    pub payload: Seq<u8>,
}

/// The outcome of an operation by remote id that may have to wait. The
/// caller that has to wait holds the entry under `handle`, goes on with the
/// operation on the held entry, and lets go of it at the end.
#[derive(Debug, PartialEq, Eq)]
pub enum Held<T> {
    /// The operation is complete.
    Done(T),
    /// The caller waits for the entry to change.
    Wait { handle: u64 },
}

/// What a truncation asks of its caller.
#[derive(Debug, Clone, Copy, PartialEq, Eq)]
pub enum TruncatePlan {
    /// The truncation is done.
    Done,
    /// The file is not cached and becomes empty: upload the placeholder to
    /// the message, then insert an empty entry.
    Placeholder,
    /// Fetch the message and install it with the new size as truncation.
    Fetch,
}

/// What the upload of the entry `file`, held under `h`, sends under `epoch`.
pub open spec fn upload_of(h: u64, file: FileState, epoch: u64) -> UploadState {
    UploadState { handle: h, remote_id: file.remote_id, epoch, payload: upload_image(file.content) }
}

impl CacheState {
    /// The handle that the table holds for `rid`.
    pub open spec fn handle_of(self, rid: i32) -> Option<u64> {
        lookup(self.table, rid)
    }

    /// Whether the table holds the entry `h`.
    pub open spec fn in_table(self, h: u64) -> bool {
        has_value(self.table, h)
    }

    /// Whether the table or a caller holds the entry `h`.
    pub open spec fn held(self, h: u64) -> bool {
        self.in_table(h) || self.entries[h].holders > 0
    }

    /// The invariant of the cache.
    pub open spec fn wf(self) -> bool {
        &&& distinct_keys(self.table)
        &&& 0 < self.capacity
        &&& self.table.len() <= self.capacity
        &&& self.ticks <= u64::MAX
        &&& forall|i: int|
            0 <= i < self.table.len() ==> self.entries.contains_key((#[trigger] self.table[i]).1)
                && self.entries[self.table[i].1].file.remote_id == self.table[i].0
        &&& forall|h: u64| #[trigger]
            self.entries.contains_key(h) ==> {
                &&& h < self.ticks
                &&& self.entries[h].holders <= self.ticks
                &&& self.entries[h].file.wf()
                &&& self.entries[h].file.epochs <= self.ticks
                &&& (self.held(h) || self.entries[h].file.status is Downloading)
            }
    }

    /// The invariant but for the last clause on the entry `h`, which may be
    /// held by nobody: the state between taking a reference away and
    /// collecting the entry.
    pub open spec fn wf_but(self, h: u64) -> bool {
        &&& distinct_keys(self.table)
        &&& 0 < self.capacity
        &&& self.table.len() <= self.capacity
        &&& self.ticks <= u64::MAX
        &&& forall|i: int|
            0 <= i < self.table.len() ==> self.entries.contains_key((#[trigger] self.table[i]).1)
                && self.entries[self.table[i].1].file.remote_id == self.table[i].0
        &&& forall|o: u64| #[trigger]
            self.entries.contains_key(o) ==> {
                &&& o < self.ticks
                &&& self.entries[o].holders <= self.ticks
                &&& self.entries[o].file.wf()
                &&& self.entries[o].file.epochs <= self.ticks
                &&& (o != h ==> self.held(o) || self.entries[o].file.status is Downloading)
            }
    }

    /// Whether the steps of one more operation can be counted.
    pub open spec fn has_room(self) -> bool {
        self.ticks + 2 <= u64::MAX
    }

    /// An empty cache that holds at most `capacity` entries in its table.
    pub open spec fn empty(capacity: nat) -> CacheState {
        CacheState { table: Seq::empty(), capacity, entries: Map::empty(), ticks: 0 }
    }

    /// The cache after one more step was counted.
    pub open spec fn tick(self) -> CacheState {
        CacheState { ticks: self.ticks + 1, ..self }
    }

    /// The cache with the pair of `rid` moved to the front of the table.
    pub open spec fn touch(self, rid: i32) -> CacheState {
        if has_key(self.table, rid) {
            CacheState { table: touched(self.table, position(self.table, rid)), ..self }
        } else {
            self
        }
    }

    /// The cache with `file` as the entry `h`.
    pub open spec fn set_file(self, h: u64, file: FileState) -> CacheState {
        CacheState {
            entries: self.entries.insert(h, SlotState { file, holders: self.entries[h].holders }),
            ..self
        }
    }

    /// The cache with one more caller holding the entry `h`.
    pub open spec fn acquire(self, h: u64) -> CacheState {
        CacheState {
            entries: self.entries.insert(
                h,
                SlotState { file: self.entries[h].file, holders: self.entries[h].holders + 1 },
            ),
            ..self
        }
    }

    /// The cache without the entry `h`, where neither the table nor a
    /// caller holds it and no download fills it.
    pub open spec fn collect(self, h: u64) -> CacheState {
        if self.entries.contains_key(h) && !self.held(h) && !(self.entries[h].file.status
            is Downloading) {
            CacheState { entries: self.entries.remove(h), ..self }
        } else {
            self
        }
    }

    /// The cache without the entry `h`, where neither the table nor a
    /// caller holds it: its downloader has stopped.
    pub open spec fn abandon(self, h: u64) -> CacheState {
        if self.entries.contains_key(h) && !self.held(h) {
            CacheState { entries: self.entries.remove(h), ..self }
        } else {
            self
        }
    }

    /// The cache after a caller let go of the entry `h`.
    pub open spec fn release(self, h: u64) -> CacheState {
        if self.entries.contains_key(h) && self.entries[h].holders > 0 {
            CacheState {
                entries: self.entries.insert(
                    h,
                    SlotState {
                        file: self.entries[h].file,
                        holders: (self.entries[h].holders - 1) as nat,
                    },
                ),
                ..self
            }.collect(h)
        } else {
            self
        }
    }

    /// The cache after `get`: the pair of `rid` is the most recently used
    /// and the caller holds its entry.
    pub open spec fn get(self, rid: i32) -> CacheState {
        match self.handle_of(rid) {
            Some(h) => self.touch(rid).acquire(h).tick(),
            None => self,
        }
    }

    /// The cache after the pair of `rid` left the table.
    pub open spec fn remove(self, rid: i32) -> CacheState {
        match self.handle_of(rid) {
            Some(h) => CacheState {
                table: self.table.remove(position(self.table, rid)),
                ..self
            }.collect(h),
            None => self,
        }
    }

    /// The handle that the next installed entry gets.
    pub open spec fn next_handle(self) -> u64 {
        self.ticks as u64
    }

    /// The handle of the entry that loses its place in the table when an
    /// entry is installed under `rid`: the one that stood under `rid`, or
    /// else the least recently used one of a full table.
    pub open spec fn displaced(self, rid: i32) -> Option<u64> {
        if has_key(self.table, rid) {
            Some(self.table[position(self.table, rid)].1)
        } else if self.table.len() == self.capacity {
            Some(self.table.last().1)
        } else {
            None
        }
    }

    /// The cache with `file` installed under `rid`, before the displaced
    /// entry is collected. An entry that stood under `rid` is superseded.
    pub open spec fn installed(self, rid: i32, file: FileState) -> CacheState {
        let h = self.next_handle();
        let slot = SlotState { file, holders: 0 };
        if has_key(self.table, rid) {
            let i = position(self.table, rid);
            let old = self.table[i].1;
            CacheState {
                table: seq![(rid, h)] + self.table.remove(i),
                entries: self.entries.insert(h, slot).insert(
                    old,
                    SlotState {
                        file: self.entries[old].file.invalidated(),
                        holders: self.entries[old].holders,
                    },
                ),
                ticks: self.ticks + 1,
                ..self
            }
        } else if self.table.len() == self.capacity {
            CacheState {
                table: seq![(rid, h)] + self.table.drop_last(),
                entries: self.entries.insert(h, slot),
                ticks: self.ticks + 1,
                ..self
            }
        } else {
            CacheState {
                table: seq![(rid, h)] + self.table,
                entries: self.entries.insert(h, slot),
                ticks: self.ticks + 1,
                ..self
            }
        }
    }

    /// The cache after `file` was installed under `rid`. An entry that stood
    /// under `rid` is superseded; otherwise a full table loses its least
    /// recently used pair. Either entry goes on for those who hold it.
    pub open spec fn install(self, rid: i32, file: FileState) -> CacheState {
        match self.displaced(rid) {
            Some(gone) => self.installed(rid, file).collect(gone),
            None => self.installed(rid, file),
        }
    }

    /// The size and the download cap of an entry installed for a document of
    /// `media_size` bytes under a pending truncation.
    pub open spec fn installed_size(truncate: Option<u64>, media_size: u64) -> (u64, Option<u64>) {
        match truncate {
            None => (media_size, None),
            Some(new_size) => (new_size, Some(min_nat(media_size as nat, new_size as nat) as u64)),
        }
    }

    /// What `try_alloc_and_fetch` returns: the handle of the entry whose
    /// download has to start, `None` where `rid` is cached already.
    pub open spec fn fetch_result(self, rid: i32, truncate: Option<u64>, media_size: u64) -> Result<
        Option<u64>,
        Error,
    > {
        if has_key(self.table, rid) {
            Ok(None)
        } else if Self::installed_size(truncate, media_size).0 > usize::MAX {
            Err(Error::Io)
        } else {
            Ok(Some(self.next_handle()))
        }
    }

    /// The cache after `try_alloc_and_fetch`.
    pub open spec fn after_fetch(self, rid: i32, truncate: Option<u64>, media_size: u64) -> CacheState {
        let (size, cap) = Self::installed_size(truncate, media_size);
        if has_key(self.table, rid) {
            self.touch(rid)
        } else if size > usize::MAX {
            self
        } else {
            self.install(rid, FileState::downloading(rid, size as nat, cap))
        }
    }

    /// What `allocate` returns for the message that the remote side gave for
    /// `rid`.
    pub open spec fn allocate_result(
        self,
        rid: i32,
        truncate: Option<u64>,
        message: Option<MessageState>,
    ) -> Result<Option<u64>, Error> {
        match message {
            None => Err(Error::NotFound),
            Some(m) => if m.text_empty {
                Ok(None)
            } else {
                match m.media {
                    Some(Media::Document { size }) => self.fetch_result(rid, truncate, size),
                    _ => Err(Error::MediaInvalid),
                }
            },
        }
    }

    /// The cache after `allocate`.
    pub open spec fn after_allocate(
        self,
        rid: i32,
        truncate: Option<u64>,
        message: Option<MessageState>,
    ) -> CacheState {
        match message {
            None => self,
            Some(m) => if m.text_empty {
                self.install(m.id, FileState::ready_empty(m.id))
            } else {
                match m.media {
                    Some(Media::Document { size }) => self.after_fetch(rid, truncate, size),
                    _ => self,
                }
            },
        }
    }

    /// What a truncation of `rid` asks of the caller.
    pub open spec fn truncate_result(self, rid: i32, new_size: u64) -> TruncatePlan {
        match self.handle_of(rid) {
            Some(h) => if self.entries[h].file.truncates_in_place() {
                TruncatePlan::Done
            } else {
                TruncatePlan::Fetch
            },
            None => if new_size == 0 {
                TruncatePlan::Placeholder
            } else {
                TruncatePlan::Fetch
            },
        }
    }

    /// The cache after a truncation of `rid`.
    pub open spec fn after_truncate(self, rid: i32, new_size: u64) -> CacheState {
        match self.handle_of(rid) {
            Some(h) => self.touch(rid).set_file(
                h,
                self.entries[h].file.after_truncate(new_size as nat),
            ).tick(),
            None => self,
        }
    }

    /// The cache after a write to the held entry `h`.
    pub open spec fn after_write(self, h: u64, offset: u64, data: Seq<u8>) -> CacheState {
        if self.entries.contains_key(h) {
            self.set_file(h, self.entries[h].file.after_write(offset as nat, data)).tick()
        } else {
            self
        }
    }

    /// What a write to the held entry `h` returns.
    pub open spec fn write_result(self, h: u64, offset: u64, data: Seq<u8>, mtime: u32) -> Result<
        Step<(u64, u32)>,
        Error,
    > {
        if self.entries.contains_key(h) {
            self.entries[h].file.write_result(offset as nat, data, mtime)
        } else {
            Err(Error::NotFound)
        }
    }

    /// The cache after a write to the file under `rid`: the entry was looked
    /// up and written to, and the caller holds it where it has to wait.
    pub open spec fn after_write_file(self, rid: i32, offset: u64, data: Seq<u8>, mtime: u32) -> CacheState {
        match self.handle_of(rid) {
            Some(h) => {
                let written = self.get(rid).after_write(h, offset, data);
                if self.entries[h].file.write_result(offset as nat, data, mtime) == Ok::<
                    Step<(u64, u32)>,
                    Error,
                >(Step::Wait) {
                    written
                } else {
                    written.release(h)
                }
            },
            None => self,
        }
    }

    /// What a write to the file under `rid` returns.
    pub open spec fn write_file_result(self, rid: i32, offset: u64, data: Seq<u8>, mtime: u32) -> Result<
        Held<(u64, u32)>,
        Error,
    > {
        match self.handle_of(rid) {
            Some(h) => match self.entries[h].file.write_result(offset as nat, data, mtime) {
                Ok(Step::Done(done)) => Ok(Held::Done(done)),
                Ok(Step::Wait) => Ok(Held::Wait { handle: h }),
                Err(e) => Err(e),
            },
            None => Err(Error::NotFound),
        }
    }

    /// The cache after a flush of the file under `rid`: the entry was
    /// looked up and flushed, and the caller holds it where it has to wait.
    pub open spec fn after_flush_file(self, rid: i32, block: bool) -> CacheState {
        match self.handle_of(rid) {
            Some(h) => {
                let flushed = self.get(rid).after_flush(h);
                if Self::flush_waits(self.entries[h].file.flush_result(block), block) {
                    flushed
                } else {
                    flushed.release(h)
                }
            },
            None => self,
        }
    }

    /// What a read of the held entry `h` returns.
    pub open spec fn read_result(self, h: u64, offset: u64, size: usize) -> Result<
        Step<Seq<u8>>,
        Error,
    > {
        if self.entries.contains_key(h) {
            self.entries[h].file.read_result(offset as nat, size as nat)
        } else {
            Err(Error::NotFound)
        }
    }

    /// The cache after a flush of the held entry `h`.
    pub open spec fn after_flush(self, h: u64) -> CacheState {
        if self.entries.contains_key(h) {
            self.set_file(h, self.entries[h].file.after_flush())
        } else {
            self
        }
    }

    /// What a flush of the held entry `h` asks of the caller.
    pub open spec fn flush_result(self, h: u64, block: bool) -> Result<FlushPlan, Error> {
        if self.entries.contains_key(h) {
            self.entries[h].file.flush_result(block)
        } else {
            Err(Error::NotFound)
        }
    }

    /// Whether the caller of a flush with this result goes on holding the
    /// entry: it waits for a download or, where it blocks, for a commit.
    pub open spec fn flush_waits(r: Result<FlushPlan, Error>, block: bool) -> bool {
        match r {
            Ok(FlushPlan::WaitDownload) => true,
            Ok(FlushPlan::WaitUpload { .. }) => true,
            Ok(FlushPlan::Upload { .. }) => block,
            _ => false,
        }
    }

    /// The cache after the downloader of entry `h` handed over `chunk`.
    pub open spec fn after_chunk(self, h: u64, chunk: Seq<u8>) -> CacheState {
        if self.entries.contains_key(h) {
            let file = self.entries[h].file;
            let next = self.set_file(h, file.after_chunk(chunk, self.held(h))).tick();
            if file.chunk_result(chunk, self.held(h)) is Continue {
                next
            } else {
                next.abandon(h)
            }
        } else {
            self
        }
    }

    /// What the downloader of entry `h` is told after it handed over
    /// `chunk`.
    pub open spec fn chunk_result(self, h: u64, chunk: Seq<u8>) -> DownloadStep {
        if self.entries.contains_key(h) {
            self.entries[h].file.chunk_result(chunk, self.held(h))
        } else {
            DownloadStep::Abort
        }
    }

    /// The cache after the remote stream of entry `h` ended.
    pub open spec fn after_stream_end(self, h: u64) -> CacheState {
        if self.entries.contains_key(h) {
            self.set_file(h, self.entries[h].file.after_stream_end()).tick().abandon(h)
        } else {
            self
        }
    }

    /// What the downloader of entry `h` is told after the remote stream
    /// ended.
    pub open spec fn stream_end_result(self, h: u64) -> DownloadStep {
        if self.entries.contains_key(h) {
            self.entries[h].file.stream_end_result()
        } else {
            DownloadStep::Abort
        }
    }

    /// The cache after the remote stream of entry `h` broke.
    pub open spec fn after_stream_error(self, h: u64) -> CacheState {
        if self.entries.contains_key(h) {
            self.set_file(h, self.entries[h].file.after_stream_error()).abandon(h)
        } else {
            self
        }
    }

    /// What the end of the upload of entry `h` stamped `epoch` means.
    pub open spec fn finish_upload_result(self, h: u64, epoch: u64, accepted: bool) -> UploadOutcome {
        if self.entries.contains_key(h) {
            self.entries[h].file.finish_upload_result(epoch, accepted)
        } else {
            UploadOutcome::Superseded
        }
    }

    /// The cache after the upload of entry `h` stamped `epoch` ended.
    pub open spec fn after_finish_upload(self, h: u64, epoch: u64, accepted: bool) -> CacheState {
        if self.entries.contains_key(h) {
            self.set_file(h, self.entries[h].file.after_finish_upload(epoch, accepted))
        } else {
            self
        }
    }
}

/// In a cache that meets its invariant, the table holds an entry exactly
/// under the entry's own remote id.
pub proof fn lemma_in_table(c: CacheState, h: u64)
    requires
        c.wf_but(h) || c.wf(),
        c.entries.contains_key(h),
    ensures
        c.in_table(h) <==> c.handle_of(c.entries[h].file.remote_id) == Some(h),
{
    let rid = c.entries[h].file.remote_id;
    if c.in_table(h) {
        let i = choose|i: int| 0 <= i < c.table.len() && (#[trigger] c.table[i]).1 == h;
        lemma_position(c.table, rid, i);
    }
    if c.handle_of(rid) == Some(h) {
        let i = position(c.table, rid);
        assert(c.table[i].1 == h);
    }
}

/// A handle found in the table names an entry of that remote id.
pub proof fn lemma_handle_of(c: CacheState, rid: i32)
    requires
        c.wf(),
    ensures
        c.handle_of(rid) matches Some(h) ==> c.entries.contains_key(h) && c.entries[h].file.remote_id
            == rid && c.in_table(h) && c.held(h),
        c.handle_of(rid) is Some <==> has_key(c.table, rid),
{
    if has_key(c.table, rid) {
        let i = position(c.table, rid);
        assert(c.table[i].0 == rid);
        assert(c.entries.contains_key(c.table[i].1));
    }
}

/// Touching keeps the invariant, the handles and who is in the table.
pub proof fn lemma_touch(c: CacheState, rid: i32)
    requires
        c.wf(),
    ensures
        c.touch(rid).wf(),
        forall|k: i32| c.touch(rid).handle_of(k) == c.handle_of(k),
        forall|h: u64| c.touch(rid).in_table(h) == c.in_table(h),
        forall|h: u64| c.touch(rid).held(h) == c.held(h),
        c.touch(rid).entries == c.entries,
        c.touch(rid).ticks == c.ticks,
{
    if has_key(c.table, rid) {
        let i = position(c.table, rid);
        lemma_touched(c.table, i);
        let t = c.touch(rid);
        assert forall|j: int| 0 <= j < t.table.len() implies t.entries.contains_key(
            (#[trigger] t.table[j]).1,
        ) && t.entries[t.table[j].1].file.remote_id == t.table[j].0 by {
            assert(t.table[j] == c.table[origin(i, j)]);
        }
        assert forall|h: u64| #[trigger] t.entries.contains_key(h) implies t.held(h)
            || t.entries[h].file.status is Downloading by {
            assert(c.entries.contains_key(h));
            assert(t.in_table(h) == c.in_table(h));
        }
    }
}

/// Replacing an entry by one of the same remote id keeps the invariant but
/// for that entry's need to be held, and keeps it whole where the entry is
/// held or still downloading.
pub proof fn lemma_set_file(c: CacheState, h: u64, file: FileState)
    requires
        c.wf(),
        c.entries.contains_key(h),
        file.wf(),
        file.remote_id == c.entries[h].file.remote_id,
        file.epochs <= c.ticks + 1,
        c.ticks < u64::MAX,
    ensures
        c.set_file(h, file).tick().wf_but(h),
        c.held(h) || file.status is Downloading ==> c.set_file(h, file).tick().wf(),
        c.set_file(h, file).tick().table == c.table,
        forall|o: u64| c.set_file(h, file).tick().held(o) == c.held(o),
{
    let t = c.set_file(h, file).tick();
    assert forall|o: u64| #[trigger] t.entries.contains_key(o) implies {
        &&& o < t.ticks
        &&& t.entries[o].holders <= t.ticks
        &&& t.entries[o].file.wf()
        &&& t.entries[o].file.epochs <= t.ticks
        &&& (o != h ==> t.held(o) || t.entries[o].file.status is Downloading)
    } by {
        assert(c.entries.contains_key(o));
        assert(t.in_table(o) == c.in_table(o));
    }
    assert forall|i: int| 0 <= i < t.table.len() implies t.entries.contains_key(
        (#[trigger] t.table[i]).1,
    ) && t.entries[t.table[i].1].file.remote_id == t.table[i].0 by {
        assert(c.entries.contains_key(c.table[i].1));
    }
}

/// Replacing an entry without counting a step keeps the invariant in the
/// same way, where no epoch was stamped.
pub proof fn lemma_set_file_still(c: CacheState, h: u64, file: FileState)
    requires
        c.wf(),
        c.entries.contains_key(h),
        file.wf(),
        file.remote_id == c.entries[h].file.remote_id,
        file.epochs <= c.ticks,
    ensures
        c.set_file(h, file).wf_but(h),
        c.held(h) || file.status is Downloading ==> c.set_file(h, file).wf(),
        c.set_file(h, file).table == c.table,
        forall|o: u64| c.set_file(h, file).held(o) == c.held(o),
{
    let t = c.set_file(h, file);
    assert forall|o: u64| #[trigger] t.entries.contains_key(o) implies {
        &&& o < t.ticks
        &&& t.entries[o].holders <= t.ticks
        &&& t.entries[o].file.wf()
        &&& t.entries[o].file.epochs <= t.ticks
        &&& (o != h ==> t.held(o) || t.entries[o].file.status is Downloading)
    } by {
        assert(c.entries.contains_key(o));
        assert(t.in_table(o) == c.in_table(o));
    }
    assert forall|i: int| 0 <= i < t.table.len() implies t.entries.contains_key(
        (#[trigger] t.table[i]).1,
    ) && t.entries[t.table[i].1].file.remote_id == t.table[i].0 by {
        assert(c.entries.contains_key(c.table[i].1));
    }
}

/// One more holder keeps the invariant.
pub proof fn lemma_acquire(c: CacheState, h: u64)
    requires
        c.wf(),
        c.entries.contains_key(h),
        c.ticks < u64::MAX,
    ensures
        c.acquire(h).tick().wf(),
        c.acquire(h).tick().held(h),
{
    let t = c.acquire(h).tick();
    assert forall|o: u64| #[trigger] t.entries.contains_key(o) implies {
        &&& o < t.ticks
        &&& t.entries[o].holders <= t.ticks
        &&& t.entries[o].file.wf()
        &&& t.entries[o].file.epochs <= t.ticks
        &&& (t.held(o) || t.entries[o].file.status is Downloading)
    } by {
        assert(c.entries.contains_key(o));
        assert(t.in_table(o) == c.in_table(o));
    }
    assert forall|i: int| 0 <= i < t.table.len() implies t.entries.contains_key(
        (#[trigger] t.table[i]).1,
    ) && t.entries[t.table[i].1].file.remote_id == t.table[i].0 by {
        assert(c.entries.contains_key(c.table[i].1));
    }
}

/// Collecting an entry restores the invariant.
pub proof fn lemma_collect(c: CacheState, h: u64)
    requires
        c.wf_but(h),
    ensures
        c.collect(h).wf(),
        c.collect(h).table == c.table,
        c.collect(h).ticks == c.ticks,
{
    let t = c.collect(h);
    assert forall|i: int| 0 <= i < t.table.len() implies t.entries.contains_key(
        (#[trigger] t.table[i]).1,
    ) && t.entries[t.table[i].1].file.remote_id == t.table[i].0 by {
        assert(c.entries.contains_key(c.table[i].1));
        if c.table[i].1 == h {
            assert(c.in_table(h));
        }
    }
    assert forall|o: u64| #[trigger] t.entries.contains_key(o) implies {
        &&& o < t.ticks
        &&& t.entries[o].holders <= t.ticks
        &&& t.entries[o].file.wf()
        &&& t.entries[o].file.epochs <= t.ticks
        &&& (t.held(o) || t.entries[o].file.status is Downloading)
    } by {
        assert(c.entries.contains_key(o));
        assert(t.in_table(o) == c.in_table(o));
    }
}

/// Abandoning an entry whose downloader stopped restores the invariant.
pub proof fn lemma_abandon(c: CacheState, h: u64)
    requires
        c.wf_but(h),
    ensures
        c.abandon(h).wf(),
        c.abandon(h).table == c.table,
        c.abandon(h).ticks == c.ticks,
{
    let t = c.abandon(h);
    assert forall|i: int| 0 <= i < t.table.len() implies t.entries.contains_key(
        (#[trigger] t.table[i]).1,
    ) && t.entries[t.table[i].1].file.remote_id == t.table[i].0 by {
        assert(c.entries.contains_key(c.table[i].1));
        if c.table[i].1 == h {
            assert(c.in_table(h));
        }
    }
    assert forall|o: u64| #[trigger] t.entries.contains_key(o) implies {
        &&& o < t.ticks
        &&& t.entries[o].holders <= t.ticks
        &&& t.entries[o].file.wf()
        &&& t.entries[o].file.epochs <= t.ticks
        &&& (t.held(o) || t.entries[o].file.status is Downloading)
    } by {
        assert(c.entries.contains_key(o));
        assert(t.in_table(o) == c.in_table(o));
    }
}

/// Letting go of an entry keeps the invariant.
pub proof fn lemma_release(c: CacheState, h: u64)
    requires
        c.wf(),
    ensures
        c.release(h).wf(),
{
    if c.entries.contains_key(h) && c.entries[h].holders > 0 {
        let slot = SlotState { file: c.entries[h].file, holders: (c.entries[h].holders - 1) as nat };
        let t = CacheState { entries: c.entries.insert(h, slot), ..c };
        assert forall|i: int| 0 <= i < t.table.len() implies t.entries.contains_key(
            (#[trigger] t.table[i]).1,
        ) && t.entries[t.table[i].1].file.remote_id == t.table[i].0 by {
            assert(c.entries.contains_key(c.table[i].1));
        }
        assert forall|o: u64| #[trigger] t.entries.contains_key(o) implies {
            &&& o < t.ticks
            &&& t.entries[o].holders <= t.ticks
            &&& t.entries[o].file.wf()
            &&& t.entries[o].file.epochs <= t.ticks
            &&& (o != h ==> t.held(o) || t.entries[o].file.status is Downloading)
        } by {
            assert(c.entries.contains_key(o));
            assert(t.in_table(o) == c.in_table(o));
        }
        lemma_collect(t, h);
    }
}

/// Once a remote id has left the table, the invariant holds but for its
/// entry, which still has to be collected.
pub proof fn lemma_unlisted(c: CacheState, rid: i32)
    requires
        c.wf(),
        has_key(c.table, rid),
    ensures
        (CacheState { table: c.table.remove(position(c.table, rid)), ..c }).wf_but(
            c.table[position(c.table, rid)].1,
        ),
{
    let i = position(c.table, rid);
    let h = c.table[i].1;
    lemma_removed(c.table, i);
    let t = CacheState { table: c.table.remove(i), ..c };
    assert forall|j: int| 0 <= j < t.table.len() implies t.entries.contains_key(
        (#[trigger] t.table[j]).1,
    ) && t.entries[t.table[j].1].file.remote_id == t.table[j].0 by {
        assert(t.table[j] == c.table[skip(i, j)]);
        assert(c.entries.contains_key(c.table[skip(i, j)].1));
    }
    assert forall|o: u64| #[trigger] t.entries.contains_key(o) implies {
        &&& o < t.ticks
        &&& t.entries[o].holders <= t.ticks
        &&& t.entries[o].file.wf()
        &&& t.entries[o].file.epochs <= t.ticks
        &&& (o != h ==> t.held(o) || t.entries[o].file.status is Downloading)
    } by {
        assert(c.entries.contains_key(o));
        if o != h && c.in_table(o) {
            assert(has_value(t.table, o));
        }
    }
}

/// Taking a remote id out of the table keeps the invariant and leaves the
/// other ids where they were.
pub proof fn lemma_remove(c: CacheState, rid: i32)
    requires
        c.wf(),
    ensures
        c.remove(rid).wf(),
        c.remove(rid).handle_of(rid) is None,
        forall|k: i32| k != rid ==> c.remove(rid).handle_of(k) == c.handle_of(k),
{
    lemma_handle_of(c, rid);
    if has_key(c.table, rid) {
        let i = position(c.table, rid);
        let h = c.table[i].1;
        lemma_removed(c.table, i);
        lemma_unlisted(c, rid);
        let t = CacheState { table: c.table.remove(i), ..c };
        lemma_collect(t, h);
    }
}

/// After an entry was installed, the invariant holds but for the displaced
/// entry, which still has to be collected.
pub proof fn lemma_installed(c: CacheState, rid: i32, file: FileState)
    requires
        c.wf(),
        c.ticks < u64::MAX,
        file.wf(),
        file.remote_id == rid,
        file.epochs == 0,
    ensures
        match c.displaced(rid) {
            Some(gone) => c.installed(rid, file).wf_but(gone) && c.entries.contains_key(gone)
                && gone != c.next_handle(),
            None => c.installed(rid, file).wf(),
        },
        !c.entries.contains_key(c.next_handle()),
        c.installed(rid, file).handle_of(rid) == Some(c.next_handle()),
        c.installed(rid, file).entries.contains_key(c.next_handle()),
        c.installed(rid, file).entries[c.next_handle()] == (SlotState { file, holders: 0 }),
{
    let h = c.next_handle();
    let slot = SlotState { file, holders: 0 };
    assert(!c.entries.contains_key(h));
    let t = c.installed(rid, file);
    if has_key(c.table, rid) {
        let i = position(c.table, rid);
        let old = c.table[i].1;
        assert(c.entries.contains_key(old));
        lemma_removed(c.table, i);
        lemma_fronted(c.table.remove(i), rid, h);
        let rest = c.table.remove(i);
        assert forall|j: int| 0 <= j < t.table.len() implies t.entries.contains_key(
            (#[trigger] t.table[j]).1,
        ) && t.entries[t.table[j].1].file.remote_id == t.table[j].0 by {
            if j > 0 {
                assert(t.table[j] == rest[j - 1]);
                assert(rest[j - 1] == c.table[skip(i, j - 1)]);
                assert(c.entries.contains_key(c.table[skip(i, j - 1)].1));
                if rest[j - 1].1 == old {
                    assert(rest[j - 1].0 == rid);
                    assert(has_key(rest, rid));
                }
            }
        }
        assert forall|o: u64| #[trigger] t.entries.contains_key(o) implies {
            &&& o < t.ticks
            &&& t.entries[o].holders <= t.ticks
            &&& t.entries[o].file.wf()
            &&& t.entries[o].file.epochs <= t.ticks
            &&& (o != old ==> t.held(o) || t.entries[o].file.status is Downloading)
        } by {
            if o != h && o != old {
                assert(c.entries.contains_key(o));
                if c.in_table(o) {
                    assert(has_value(rest, o));
                    assert(has_value(t.table, o));
                }
            }
            if o == h {
                assert(has_value(t.table, h));
            }
            if o == old {
                assert(c.entries.contains_key(o));
            }
        }
    } else if c.table.len() == c.capacity {
        let last = c.table.len() - 1;
        let gone = c.table.last().1;
        assert(c.table.drop_last() =~= c.table.remove(last));
        lemma_removed(c.table, last);
        let rest = c.table.remove(last);
        assert(!has_key(rest, rid)) by {
            if has_key(rest, rid) {
                assert(has_key(c.table, rid));
            }
        }
        lemma_fronted(rest, rid, h);
        assert(c.entries.contains_key(gone));
        assert forall|j: int| 0 <= j < t.table.len() implies t.entries.contains_key(
            (#[trigger] t.table[j]).1,
        ) && t.entries[t.table[j].1].file.remote_id == t.table[j].0 by {
            if j > 0 {
                assert(t.table[j] == rest[j - 1]);
                assert(rest[j - 1] == c.table[skip(last, j - 1)]);
                assert(c.entries.contains_key(c.table[skip(last, j - 1)].1));
            }
        }
        assert forall|o: u64| #[trigger] t.entries.contains_key(o) implies {
            &&& o < t.ticks
            &&& t.entries[o].holders <= t.ticks
            &&& t.entries[o].file.wf()
            &&& t.entries[o].file.epochs <= t.ticks
            &&& (o != gone ==> t.held(o) || t.entries[o].file.status is Downloading)
        } by {
            if o != h {
                assert(c.entries.contains_key(o));
                if o != gone && c.in_table(o) {
                    assert(has_value(rest, o));
                    assert(has_value(t.table, o));
                }
            } else {
                assert(has_value(t.table, h));
            }
        }
    } else {
        lemma_fronted(c.table, rid, h);
        assert forall|j: int| 0 <= j < t.table.len() implies t.entries.contains_key(
            (#[trigger] t.table[j]).1,
        ) && t.entries[t.table[j].1].file.remote_id == t.table[j].0 by {
            if j > 0 {
                assert(t.table[j] == c.table[j - 1]);
                assert(c.entries.contains_key(c.table[j - 1].1));
            }
        }
        assert forall|o: u64| #[trigger] t.entries.contains_key(o) implies {
            &&& o < t.ticks
            &&& t.entries[o].holders <= t.ticks
            &&& t.entries[o].file.wf()
            &&& t.entries[o].file.epochs <= t.ticks
            &&& (t.held(o) || t.entries[o].file.status is Downloading)
        } by {
            if o != h {
                assert(c.entries.contains_key(o));
                if c.in_table(o) {
                    assert(has_value(t.table, o));
                }
            } else {
                assert(has_value(t.table, h));
            }
        }
    }
}

/// Installing an entry keeps the invariant. Afterwards the table holds the
/// new entry, unheld, under the remote id, and the new handle was never
/// used before.
pub proof fn law_install(c: CacheState, rid: i32, file: FileState)
    requires
        c.wf(),
        c.ticks < u64::MAX,
        file.wf(),
        file.remote_id == rid,
        file.epochs == 0,
    ensures
        c.install(rid, file).wf(),
        !c.entries.contains_key(c.next_handle()),
        c.install(rid, file).handle_of(rid) == Some(c.next_handle()),
        c.install(rid, file).entries.contains_key(c.next_handle()),
        c.install(rid, file).entries[c.next_handle()] == (SlotState { file, holders: 0 }),
        c.install(rid, file).ticks == c.ticks + 1,
{
    lemma_installed(c, rid, file);
    match c.displaced(rid) {
        Some(gone) => {
            lemma_collect(c.installed(rid, file), gone);
        },
        None => {},
    }
}

/// Duplicate admission. When an entry is installed under a remote id that
/// the table already holds, the old entry is superseded: it is gone, or it
/// goes on as `Invalidated` for those who hold it, so that each of their
/// reads and writes that reaches the content fails with `Invalidated`.
pub proof fn law_install_supersedes(c: CacheState, rid: i32, file: FileState, old: u64)
    requires
        c.wf(),
        c.ticks < u64::MAX,
        file.wf(),
        file.remote_id == rid,
        file.epochs == 0,
        c.handle_of(rid) == Some(old),
    ensures
        c.install(rid, file).handle_of(rid) != Some(old),
        c.install(rid, file).entries.contains_key(old) <==> c.entries[old].holders > 0,
        c.install(rid, file).entries.contains_key(old) ==> {
            let left = c.install(rid, file).entries[old].file;
            &&& left.status is Invalidated
            &&& left.content == c.entries[old].file.content
            &&& forall|offset: nat, size: nat|
                offset < left.size() && size > 0 ==> left.read_result(offset, size) == Err::<
                    Step<Seq<u8>>,
                    Error,
                >(Error::Invalidated)
            &&& forall|offset: nat, data: Seq<u8>, mtime: u32| #[trigger]
                left.write_result(offset, data, mtime) == Err::<Step<(u64, u32)>, Error>(
                    Error::Invalidated,
                )
        },
{
    law_install(c, rid, file);
    lemma_handle_of(c, rid);
    lemma_installed(c, rid, file);
    let i = position(c.table, rid);
    let t = c.installed(rid, file);
    lemma_removed(c.table, i);
    lemma_fronted(c.table.remove(i), rid, c.next_handle());
    assert(!t.in_table(old)) by {
        if has_value(c.table.remove(i), old) {
            let j = choose|j: int|
                0 <= j < c.table.remove(i).len() && (#[trigger] c.table.remove(i)[j]).1 == old;
            assert(c.table.remove(i)[j] == c.table[skip(i, j)]);
            assert(c.table[skip(i, j)].0 == rid);
            assert(has_key(c.table.remove(i), rid));
        }
    }
}

/// A download that nobody waits for stops. Once an entry that is
/// downloading without a pending truncation has left the table and no
/// caller holds it, the next chunk is not stored, the downloader is told to
/// stop, and the entry is dropped.
pub proof fn law_unheld_download_stops(c: CacheState, h: u64, chunk: Seq<u8>)
    requires
        c.wf(),
        c.entries.contains_key(h),
        c.entries[h].file.status == (Status::Downloading { truncate_to: None }),
        !c.held(h),
    ensures
        c.chunk_result(h, chunk) is Abort,
        !c.after_chunk(h, chunk).entries.contains_key(h),
        forall|o: u64| o != h ==> c.after_chunk(h, chunk).entries.contains_key(o)
            == c.entries.contains_key(o),
        forall|o: u64|
            o != h && c.entries.contains_key(o) ==> c.after_chunk(h, chunk).entries[o]
                == c.entries[o],
        c.after_chunk(h, chunk).table == c.table,
{
    let next = c.set_file(h, c.entries[h].file).tick();
    assert(!next.held(h)) by {
        assert(next.in_table(h) == c.in_table(h));
    }
}

} // verus!
