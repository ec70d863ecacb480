//! The cache: a bounded, recency-ordered table from remote ids to entries.
//! Callers that have to wait hold an entry by its handle, so that an entry
//! can leave the table and still serve those who hold it.

use vstd::prelude::*;
use std::collections::HashMap;
use bytes::Bytes;
use lru::LruCache;
use crate::cache_state::{
    lemma_abandon, lemma_acquire, lemma_collect, lemma_handle_of, lemma_in_table, lemma_installed, lemma_release, lemma_remove, lemma_set_file, lemma_set_file_still,
    lemma_touch, lemma_unlisted, upload_of, CacheState, Held, Media, MessageState, SlotState,
    TruncatePlan, UploadState,
};
use crate::error::Error;
use crate::file::{read_agrees, FileCache};
use crate::state::{
    upload_image, DownloadStep, FileState, FlushPlan, Status, Step, UploadOutcome,
};
use crate::table::{
    has_key, lemma_position, lru_capacity, lru_entries, lru_get, lru_new, lru_peek, lru_pop,
    lru_push, position, touched,
};

verus! {

broadcast use vstd::std_specs::hash::group_hash_axioms;

/// How many entries the table of a cache holds unless told otherwise.
pub const CACHE_SIZE: usize = 1024;

/// An entry and the number of callers that hold it.
struct Slot {
    file: FileCache,
    holders: u64,
}

impl Slot {
    spec fn model(self) -> SlotState {
        SlotState { file: self.file@, holders: self.holders as nat }
    }
}

/// A remote message, as far as the cache reads it.
#[derive(Debug, Clone)]
pub struct Message {
    /// The id of the message.
    pub id: i32,
    /// The text. A message without text stands for an empty file.
    pub text: String,
    /// The media, if any.
    pub media: Option<Media>,
}

impl View for Message {
    type V = MessageState;

    open spec fn view(&self) -> MessageState {
        MessageState { id: self.id, text_empty: self.text@.len() == 0, media: self.media }
    }
}

/// An upload to start: the message `remote_id` is to be edited to carry
/// `payload`, and the outcome reported under `handle` and `epoch`.
#[derive(Debug, PartialEq, Eq)]
pub struct UploadJob {
    /// The handle of the entry.
    pub handle: u64,
    /// The remote message to edit.
    pub remote_id: i32,
    /// The epoch of the upload.
    pub epoch: u64,
    /// The bytes to send.
    pub payload: Vec<u8>,
}

impl View for UploadJob {
    type V = UploadState;

    open spec fn view(&self) -> UploadState {
        UploadState {
            handle: self.handle,
            remote_id: self.remote_id,
            epoch: self.epoch,
            payload: self.payload@,
        }
    }
}

/// What a flush asks of its caller.
#[derive(Debug, PartialEq, Eq)]
pub enum FlushStep {
    /// Nothing to commit.
    Done,
    /// Start this upload and report its end with `finish_upload`.
    Upload(UploadJob),
    /// An upload of the current content is running: wait for its end.
    WaitUpload { handle: u64, epoch: u64 },
    /// The download has to settle first: wait, then flush the held entry
    /// again.
    WaitDownload { handle: u64 },
}

/// What the downloader does next.
#[derive(Debug, PartialEq, Eq)]
pub enum DownloadAction {
    /// Hand over the next chunk.
    Continue,
    /// Stop quietly.
    Abort,
    /// The download is complete. With `upload` set a truncation was
    /// pending: start this upload.
    Finished { upload: Option<UploadJob> },
    /// The stream ended early; the entry has failed.
    Failed,
}

/// Whether the executable result of a flush of entry `h` is the one the
/// model gives; `file` is the entry before the flush.
pub open spec fn flush_agrees(
    r: Result<FlushStep, Error>,
    plan: Result<FlushPlan, Error>,
    h: u64,
    file: FileState,
) -> bool {
    match (r, plan) {
        (Err(e), Err(expected)) => e == expected,
        (Ok(FlushStep::Done), Ok(FlushPlan::Done)) => true,
        (Ok(FlushStep::Upload(job)), Ok(FlushPlan::Upload { epoch })) => job@ == upload_of(
            h,
            file,
            epoch,
        ),
        (Ok(FlushStep::WaitUpload { handle, epoch }), Ok(FlushPlan::WaitUpload { epoch: e })) => handle
            == h && epoch == e,
        (Ok(FlushStep::WaitDownload { handle }), Ok(FlushPlan::WaitDownload)) => handle == h,
        _ => false,
    }
}

/// Whether what the downloader of entry `h` is told is what the model
/// gives; `file` is the entry after the step.
pub open spec fn download_agrees(r: DownloadAction, step: DownloadStep, h: u64, file: FileState) -> bool {
    match (r, step) {
        (DownloadAction::Continue, DownloadStep::Continue) => true,
        (DownloadAction::Abort, DownloadStep::Abort) => true,
        (DownloadAction::Failed, DownloadStep::Failed) => true,
        (DownloadAction::Finished { upload: None }, DownloadStep::Finished { upload: None }) => true,
        (
            DownloadAction::Finished { upload: Some(job) },
            DownloadStep::Finished { upload: Some(epoch) },
        ) => job@ == upload_of(h, file, epoch),
        _ => false,
    }
}

/// The cache.
pub struct DiskCache {
    files: LruCache<i32, u64>,
    entries: HashMap<u64, Slot>,
    ticks: u64,
}

impl View for DiskCache {
    type V = CacheState;

    closed spec fn view(&self) -> CacheState {
        CacheState {
            table: lru_entries(self.files),
            capacity: lru_capacity(self.files),
            entries: self.entries@.map_values(|slot: Slot| slot.model()),
            ticks: self.ticks as nat,
        }
    }
}

impl DiskCache {
    /// The invariant of the cache.
    pub open spec fn wf(&self) -> bool {
        self@.wf()
    }

    /// An empty cache of the usual capacity.
    pub fn new() -> (cache: Self)
        ensures
            cache.wf(),
            cache@ == CacheState::empty(CACHE_SIZE as nat),
    {
        Self::with_capacity(CACHE_SIZE)
    }

    /// An empty cache whose table holds at most `capacity` entries.
    pub fn with_capacity(capacity: usize) -> (cache: Self)
        requires
            capacity > 0,
        ensures
            cache.wf(),
            cache@ == CacheState::empty(capacity as nat),
    {
        let cache = DiskCache { files: lru_new(capacity), entries: HashMap::new(), ticks: 0 };
        assert(cache@.entries =~= Map::<u64, SlotState>::empty());
        cache
    }

    /// Whether another step can be counted. Every operation that stamps an
    /// epoch, hands out a handle or adds a holder counts one.
    pub fn can_step(&self) -> (b: bool)
        ensures
            b == self@.has_room(),
    {
        self.ticks < u64::MAX - 1
    }

    /// Moves the pair of `rid` to the front of the table.
    fn touch(&mut self, rid: i32) -> (r: Option<u64>)
        requires
            old(self).wf(),
        ensures
            final(self).wf(),
            final(self)@ == old(self)@.touch(rid),
            r == old(self)@.handle_of(rid),
            final(self).entries == old(self).entries,
            final(self).ticks == old(self).ticks,
    {
        let r = lru_get(&mut self.files, rid);
        proof {
            lemma_touch(old(self)@, rid);
            match r {
                Some(v) => {
                    let i = choose|i: int|
                        0 <= i < old(self)@.table.len() && #[trigger] old(self)@.table[i] == (rid, v)
                            && self@.table == touched(old(self)@.table, i);
                    lemma_position(old(self)@.table, rid, i);
                },
                None => {},
            }
        }
        r
    }

    /// Whether the table holds the entry `h`, which caches `rid`.
    fn in_table(&self, h: u64, rid: i32) -> (b: bool)
        requires
            self@.wf() || self@.wf_but(h),
            self@.entries.contains_key(h),
            self@.entries[h].file.remote_id == rid,
        ensures
            b == self@.in_table(h),
    {
        let found = lru_peek(&self.files, rid);
        proof {
            lemma_in_table(self@, h);
            match found {
                Some(v) => {
                    let i = choose|i: int|
                        0 <= i < self@.table.len() && #[trigger] self@.table[i] == (rid, v);
                    lemma_position(self@.table, rid, i);
                },
                None => {},
            }
        }
        match found {
            Some(v) => v == h,
            None => false,
        }
    }

    /// Adds a holder to the entry `h`.
    fn acquire(&mut self, h: u64)
        requires
            old(self).wf(),
            old(self)@.entries.contains_key(h),
            old(self)@.ticks < u64::MAX,
        ensures
            final(self).wf(),
            final(self)@ == old(self)@.acquire(h).tick(),
    {
        let taken = self.entries.remove(&h);
        match taken {
            Some(slot) => {
                let slot = Slot { file: slot.file, holders: slot.holders + 1 };
                self.entries.insert(h, slot);
                self.ticks = self.ticks + 1;
                proof {
                    lemma_acquire(old(self)@, h);
                    assert(self@.entries =~= old(self)@.acquire(h).tick().entries);
                }
            },
            None => {},
        }
    }

    /// Drops the entry `h` where nothing refers to it any more.
    fn collect(&mut self, h: u64)
        requires
            old(self)@.wf_but(h),
        ensures
            final(self).wf(),
            final(self)@ == old(self)@.collect(h),
    {
        let dead = match self.entries.get(&h) {
            Some(slot) => slot.holders == 0 && !self.in_table(h, slot.file.remote_id()) && (
            match slot.file.status() {
                Status::Downloading { .. } => false,
                _ => true,
            }),
            None => false,
        };
        if dead {
            self.entries.remove(&h);
        }
        proof {
            lemma_collect(old(self)@, h);
            assert(self@.entries =~= old(self)@.collect(h).entries);
        }
    }

    /// Drops the entry `h`, whose downloader has stopped, where nobody
    /// holds it.
    fn abandon(&mut self, h: u64)
        requires
            old(self)@.wf_but(h),
        ensures
            final(self).wf(),
            final(self)@ == old(self)@.abandon(h),
    {
        let dead = match self.entries.get(&h) {
            Some(slot) => slot.holders == 0 && !self.in_table(h, slot.file.remote_id()),
            None => false,
        };
        if dead {
            self.entries.remove(&h);
        }
        proof {
            lemma_abandon(old(self)@, h);
            assert(self@.entries =~= old(self)@.abandon(h).entries);
        }
    }

    /// Looks `remote_id` up, makes it the most recently used, and hands its
    /// entry to the caller, who holds it until `release`.
    pub fn get(&mut self, remote_id: &i32) -> (r: Option<u64>)
        requires
            old(self).wf(),
            old(self)@.ticks < u64::MAX,
        ensures
            final(self).wf(),
            final(self)@ == old(self)@.get(*remote_id),
            r == old(self)@.handle_of(*remote_id),
    {
        proof {
            lemma_handle_of(old(self)@, *remote_id);
            lemma_touch(old(self)@, *remote_id);
        }
        match self.touch(*remote_id) {
            Some(h) => {
                self.acquire(h);
                Some(h)
            },
            None => None,
        }
    }

    /// Lets go of an entry that `get`, or an operation that had to wait,
    /// handed out. An entry that nothing refers to any more is dropped.
    pub fn release(&mut self, handle: u64)
        requires
            old(self).wf(),
        ensures
            final(self).wf(),
            final(self)@ == old(self)@.release(handle),
    {
        proof {
            lemma_release(old(self)@, handle);
        }
        let taken = self.entries.remove(&handle);
        match taken {
            Some(slot) => {
                if slot.holders > 0 {
                    let slot = Slot { file: slot.file, holders: slot.holders - 1 };
                    self.entries.insert(handle, slot);
                    let ghost mid = CacheState {
                        entries: old(self)@.entries.insert(
                            handle,
                            SlotState {
                                file: old(self)@.entries[handle].file,
                                holders: (old(self)@.entries[handle].holders - 1) as nat,
                            },
                        ),
                        ..old(self)@
                    };
                    assert(self@.entries =~= mid.entries);
                    assert(self@ == mid);
                    assert(mid.wf_but(handle)) by {
                        assert forall|o: u64| #[trigger] mid.entries.contains_key(o) implies {
                            &&& o < mid.ticks
                            &&& mid.entries[o].holders <= mid.ticks
                            &&& mid.entries[o].file.wf()
                            &&& mid.entries[o].file.epochs <= mid.ticks
                            &&& (o != handle ==> mid.held(o) || mid.entries[o].file.status
                                is Downloading)
                        } by {
                            assert(old(self)@.entries.contains_key(o));
                        }
                        assert forall|i: int| 0 <= i < mid.table.len() implies mid.entries.contains_key(
                            (#[trigger] mid.table[i]).1,
                        ) && mid.entries[mid.table[i].1].file.remote_id == mid.table[i].0 by {
                            assert(old(self)@.entries.contains_key(old(self)@.table[i].1));
                        }
                    }
                    self.collect(handle);
                } else {
                    self.entries.insert(handle, slot);
                    assert(self@.entries =~= old(self)@.entries);
                }
            },
            None => {
                assert(self@.entries =~= old(self)@.entries);
            },
        }
    }

    /// Takes `remote_id` out of the table. Its entry goes on for those who
    /// hold it; a download that nobody waits for stops at its next chunk.
    pub fn remove(&mut self, remote_id: &i32)
        requires
            old(self).wf(),
        ensures
            final(self).wf(),
            final(self)@ == old(self)@.remove(*remote_id),
    {
        let rid = *remote_id;
        proof {
            lemma_remove(old(self)@, rid);
            lemma_handle_of(old(self)@, rid);
        }
        match lru_pop(&mut self.files, rid) {
            Some(h) => {
                proof {
                    let i = choose|i: int|
                        0 <= i < old(self)@.table.len() && #[trigger] old(self)@.table[i] == (rid, h)
                            && self@.table == old(self)@.table.remove(i);
                    lemma_position(old(self)@.table, rid, i);
                    lemma_unlisted(old(self)@, rid);
                }
                self.collect(h);
            },
            None => {},
        }
    }

    /// Installs `file` under `rid` and returns its handle.
    fn install(&mut self, rid: i32, file: FileCache) -> (h: u64)
        requires
            old(self).wf(),
            old(self)@.ticks < u64::MAX,
            file.wf(),
            file@.remote_id == rid,
            file@.epochs == 0,
        ensures
            final(self).wf(),
            final(self)@ == old(self)@.install(rid, file@),
            h == old(self)@.next_handle(),
    {
        let ghost before = self@;
        let ghost model = file@;
        proof {
            lemma_installed(before, rid, model);
            lemma_handle_of(before, rid);
        }
        let h = self.ticks;
        self.ticks = self.ticks + 1;
        self.entries.insert(h, Slot { file, holders: 0 });
        let pushed = lru_push(&mut self.files, rid, h);
        match pushed {
            Some((k, gone)) => {
                if k == rid {
                    proof {
                        let i = choose|i: int|
                            0 <= i < before.table.len() && (#[trigger] before.table[i]).0 == rid
                                && pushed == Some(before.table[i]) && self@.table == seq![(rid, h)]
                                + before.table.remove(i);
                        lemma_position(before.table, rid, i);
                    }
                    let taken = self.entries.remove(&gone);
                    match taken {
                        Some(slot) => {
                            let mut old_file = slot.file;
                            old_file.invalidate();
                            self.entries.insert(gone, Slot { file: old_file, holders: slot.holders });
                        },
                        None => {},
                    }
                } else {
                    proof {
                        if has_key(before.table, rid) {
                            let i = position(before.table, rid);
                            assert(before.table[i].0 == rid);
                        }
                    }
                }
                assert(self@.entries =~= before.installed(rid, model).entries);
                assert(self@ == before.installed(rid, model));
                self.collect(gone);
            },
            None => {
                assert(self@.entries =~= before.installed(rid, model).entries);
                assert(self@ == before.installed(rid, model));
            },
        }
        h
    }

    /// Installs an empty entry under `remote_id`, in step with the remote
    /// side, and returns its handle. An entry that stood under
    /// `remote_id` is superseded: whoever still holds it gets `Invalidated`.
    pub fn insert_empty(&mut self, remote_id: i32) -> (h: u64)
        requires
            old(self).wf(),
            old(self)@.ticks < u64::MAX,
        ensures
            final(self).wf(),
            final(self)@ == old(self)@.install(remote_id, FileState::ready_empty(remote_id)),
            h == old(self)@.next_handle(),
    {
        let file = FileCache::ready_empty(remote_id);
        self.install(remote_id, file)
    }

    /// Installs an entry for the document of `media_size` bytes that the
    /// remote side holds under `remote_id`, unless one is cached already.
    /// With `truncate` set the entry has that size and the download stops
    /// there at the latest. Returns the handle of the entry whose download
    /// the caller has to start. An entry too large to address fails with
    /// `Io`.
    pub fn try_alloc_and_fetch(&mut self, remote_id: i32, truncate: Option<u64>, media_size: u64) -> (r:
        Result<Option<u64>, Error>)
        requires
            old(self).wf(),
            old(self)@.ticks < u64::MAX,
        ensures
            final(self).wf(),
            final(self)@ == old(self)@.after_fetch(remote_id, truncate, media_size),
            r == old(self)@.fetch_result(remote_id, truncate, media_size),
    {
        let (size, cap) = match truncate {
            None => (media_size, None),
            Some(new_size) => (
                new_size,
                Some(
                    if media_size <= new_size {
                        media_size
                    } else {
                        new_size
                    },
                ),
            ),
        };
        proof {
            lemma_handle_of(old(self)@, remote_id);
        }
        if self.touch(remote_id).is_some() {
            return Ok(None);
        }
        if size > usize::MAX as u64 {
            return Err(Error::Io);
        }
        let file = FileCache::downloading(remote_id, size, cap);
        let h = self.install(remote_id, file);
        Ok(Some(h))
    }

    /// Installs what the remote side holds under `remote_id`, given as
    /// `message`: an empty entry for a message without text, a downloading
    /// entry for a document. No message is `NotFound`; a message with text
    /// but without a document is `MediaInvalid`.
    pub fn allocate(&mut self, remote_id: i32, truncate: Option<u64>, message: Option<&Message>) -> (r:
        Result<Option<u64>, Error>)
        requires
            old(self).wf(),
            old(self)@.ticks < u64::MAX,
        ensures
            final(self).wf(),
            final(self)@ == old(self)@.after_allocate(
                remote_id,
                truncate,
                match message {
                    Some(m) => Some(m@),
                    None => None,
                },
            ),
            r == old(self)@.allocate_result(
                remote_id,
                truncate,
                match message {
                    Some(m) => Some(m@),
                    None => None,
                },
            ),
    {
        match message {
            None => Err(Error::NotFound),
            Some(m) => {
                if m.text.as_str().is_empty() {
                    self.insert_empty(m.id);
                    Ok(None)
                } else {
                    match m.media {
                        Some(Media::Document { size }) => self.try_alloc_and_fetch(
                            remote_id,
                            truncate,
                            size,
                        ),
                        _ => Err(Error::MediaInvalid),
                    }
                }
            },
        }
    }

    /// Says whether `remote_id` is cached, and makes it the most recently
    /// used if so. Where it is not, the caller fetches the message and
    /// hands it to `allocate`.
    pub fn open(&mut self, remote_id: i32) -> (cached: bool)
        requires
            old(self).wf(),
        ensures
            final(self).wf(),
            final(self)@ == old(self)@.touch(remote_id),
            cached == old(self)@.handle_of(remote_id) is Some,
    {
        self.touch(remote_id).is_some()
    }

    /// Forgets `remote_id`, whose message the caller then deletes on the
    /// remote side.
    pub fn delete(&mut self, remote_id: i32)
        requires
            old(self).wf(),
        ensures
            final(self).wf(),
            final(self)@ == old(self)@.remove(remote_id),
    {
        self.remove(&remote_id);
    }

    /// The status of the held entry `handle`.
    pub fn status(&self, handle: u64) -> (r: Option<Status>)
        requires
            self.wf(),
        ensures
            r == (if self@.entries.contains_key(handle) {
                Some(self@.entries[handle].file.status)
            } else {
                None
            }),
    {
        match self.entries.get(&handle) {
            Some(slot) => Some(slot.file.status()),
            None => None,
        }
    }

    /// The logical size of the held entry `handle`.
    pub fn size(&self, handle: u64) -> (r: Option<u64>)
        requires
            self.wf(),
        ensures
            r == (if self@.entries.contains_key(handle) {
                Some(self@.entries[handle].file.size() as u64)
            } else {
                None
            }),
    {
        match self.entries.get(&handle) {
            Some(slot) => Some(slot.file.size()),
            None => None,
        }
    }

    /// The available prefix of the held entry `handle`.
    pub fn available(&self, handle: u64) -> (r: Option<u64>)
        requires
            self.wf(),
        ensures
            r == (if self@.entries.contains_key(handle) {
                Some(self@.entries[handle].file.available as u64)
            } else {
                None
            }),
    {
        match self.entries.get(&handle) {
            Some(slot) => Some(slot.file.available()),
            None => None,
        }
    }

    /// Reads from the held entry `handle`. An entry that is gone is
    /// `NotFound`.
    pub fn read(&self, handle: u64, offset: u64, size: usize) -> (r: Result<Step<Bytes>, Error>)
        requires
            self.wf(),
        ensures
            read_agrees(r, self@.read_result(handle, offset, size)),
    {
        match self.entries.get(&handle) {
            Some(slot) => {
                assert(self@.entries.contains_key(handle));
                slot.file.read(offset, size)
            },
            None => Err(Error::NotFound),
        }
    }

    /// Writes to the held entry `handle`. An entry that is gone is
    /// `NotFound`.
    pub fn write(&mut self, handle: u64, offset: u64, data: &[u8], mtime: u32) -> (r: Result<
        Step<(u64, u32)>,
        Error,
    >)
        requires
            old(self).wf(),
            old(self)@.ticks < u64::MAX,
        ensures
            final(self).wf(),
            final(self)@ == old(self)@.after_write(handle, offset, data@),
            r == old(self)@.write_result(handle, offset, data@, mtime),
    {
        let taken = self.entries.remove(&handle);
        match taken {
            Some(slot) => {
                assert(old(self)@.entries.contains_key(handle));
                let mut file = slot.file;
                let r = file.write(offset, data, mtime);
                self.entries.insert(handle, Slot { file, holders: slot.holders });
                self.ticks = self.ticks + 1;
                proof {
                    lemma_set_file(old(self)@, handle, file@);
                    assert(self@.entries =~= old(self)@.after_write(handle, offset, data@).entries);
                }
                r
            },
            None => {
                assert(self@.entries =~= old(self)@.entries);
                Err(Error::NotFound)
            },
        }
    }

    /// The upload of the entry `handle` under `epoch`, which has just been
    /// marked as running.
    fn job(file: &FileCache, handle: u64, epoch: u64) -> (job: UploadJob)
        requires
            file.wf(),
            file@.upload_current(epoch),
        ensures
            job@ == upload_of(handle, file@, epoch),
    {
        let payload = match file.upload_payload(epoch) {
            Some(bytes) => bytes,
            None => Vec::new(),
        };
        UploadJob { handle, remote_id: file.remote_id(), epoch, payload }
    }

    /// Flushes the held entry `handle`: says what has to happen for its
    /// content to reach the remote side. An entry that is gone is
    /// `NotFound`.
    pub fn flush_entry(&mut self, handle: u64, block: bool) -> (r: Result<FlushStep, Error>)
        requires
            old(self).wf(),
        ensures
            final(self).wf(),
            final(self)@ == old(self)@.after_flush(handle),
            old(self)@.entries.contains_key(handle) ==> flush_agrees(
                r,
                old(self)@.flush_result(handle, block),
                handle,
                old(self)@.entries[handle].file,
            ),
            !old(self)@.entries.contains_key(handle) ==> r matches Err(Error::NotFound),
    {
        let taken = self.entries.remove(&handle);
        match taken {
            Some(slot) => {
                assert(old(self)@.entries.contains_key(handle));
                let mut file = slot.file;
                let plan = file.flush(block);
                let r = match plan {
                    Ok(FlushPlan::Done) => Ok(FlushStep::Done),
                    Ok(FlushPlan::Upload { epoch }) => Ok(
                        FlushStep::Upload(Self::job(&file, handle, epoch)),
                    ),
                    Ok(FlushPlan::WaitUpload { epoch }) => Ok(FlushStep::WaitUpload { handle, epoch }),
                    Ok(FlushPlan::WaitDownload) => Ok(FlushStep::WaitDownload { handle }),
                    Err(e) => Err(e),
                };
                self.entries.insert(handle, Slot { file, holders: slot.holders });
                proof {
                    lemma_set_file_still(old(self)@, handle, file@);
                    assert(self@.entries =~= old(self)@.after_flush(handle).entries);
                }
                r
            },
            None => {
                assert(self@.entries =~= old(self)@.entries);
                Err(Error::NotFound)
            },
        }
    }

    /// Takes the end of the upload of entry `handle` stamped `epoch`;
    /// `accepted` says whether the remote side took it. An entry that is
    /// gone was superseded.
    pub fn finish_upload(&mut self, handle: u64, epoch: u64, accepted: bool) -> (outcome:
        UploadOutcome)
        requires
            old(self).wf(),
        ensures
            final(self).wf(),
            final(self)@ == old(self)@.after_finish_upload(handle, epoch, accepted),
            outcome == old(self)@.finish_upload_result(handle, epoch, accepted),
    {
        let taken = self.entries.remove(&handle);
        match taken {
            Some(slot) => {
                assert(old(self)@.entries.contains_key(handle));
                let mut file = slot.file;
                let outcome = file.finish_upload(epoch, accepted);
                self.entries.insert(handle, Slot { file, holders: slot.holders });
                proof {
                    lemma_set_file_still(old(self)@, handle, file@);
                    assert(self@.entries =~= old(self)@.after_finish_upload(
                        handle,
                        epoch,
                        accepted,
                    ).entries);
                }
                outcome
            },
            None => {
                assert(self@.entries =~= old(self)@.entries);
                UploadOutcome::Superseded
            },
        }
    }

    /// Takes the next chunk of the remote stream of entry `handle`. For an
    /// entry that is gone the downloader stops.
    pub fn download_chunk(&mut self, handle: u64, chunk: &[u8]) -> (r: DownloadAction)
        requires
            old(self).wf(),
            old(self)@.ticks < u64::MAX,
            old(self)@.entries.contains_key(handle) ==> old(self)@.entries[handle].file.status
                is Downloading || old(self)@.entries[handle].file.status is Invalidated,
        ensures
            final(self).wf(),
            final(self)@ == old(self)@.after_chunk(handle, chunk@),
            old(self)@.entries.contains_key(handle) ==> download_agrees(
                r,
                old(self)@.chunk_result(handle, chunk@),
                handle,
                old(self)@.entries[handle].file.after_chunk(chunk@, old(self)@.held(handle)),
            ),
            !old(self)@.entries.contains_key(handle) ==> r is Abort,
    {
        let held = match self.entries.get(&handle) {
            Some(slot) => slot.holders > 0 || self.in_table(handle, slot.file.remote_id()),
            None => false,
        };
        let taken = self.entries.remove(&handle);
        match taken {
            Some(slot) => {
                assert(old(self)@.entries.contains_key(handle));
                let mut file = slot.file;
                let step = file.download_chunk(chunk, held);
                let r = match step {
                    DownloadStep::Continue => DownloadAction::Continue,
                    DownloadStep::Abort => DownloadAction::Abort,
                    DownloadStep::Failed => DownloadAction::Failed,
                    DownloadStep::Finished { upload: None } => DownloadAction::Finished {
                        upload: None,
                    },
                    DownloadStep::Finished { upload: Some(epoch) } => DownloadAction::Finished {
                        upload: Some(Self::job(&file, handle, epoch)),
                    },
                };
                self.entries.insert(handle, Slot { file, holders: slot.holders });
                self.ticks = self.ticks + 1;
                proof {
                    lemma_set_file(old(self)@, handle, file@);
                    assert(self@.entries =~= old(self)@.set_file(handle, file@).tick().entries);
                }
                match step {
                    DownloadStep::Continue => {},
                    _ => {
                        self.abandon(handle);
                    },
                }
                r
            },
            None => {
                assert(self@.entries =~= old(self)@.entries);
                DownloadAction::Abort
            },
        }
    }

    /// Takes the end of the remote stream of entry `handle`. For an entry
    /// that is gone the downloader stops.
    pub fn download_end(&mut self, handle: u64) -> (r: DownloadAction)
        requires
            old(self).wf(),
            old(self)@.ticks < u64::MAX,
            old(self)@.entries.contains_key(handle) ==> old(self)@.entries[handle].file.status
                is Downloading || old(self)@.entries[handle].file.status is Invalidated,
        ensures
            final(self).wf(),
            final(self)@ == old(self)@.after_stream_end(handle),
            old(self)@.entries.contains_key(handle) ==> download_agrees(
                r,
                old(self)@.stream_end_result(handle),
                handle,
                old(self)@.entries[handle].file.after_stream_end(),
            ),
            !old(self)@.entries.contains_key(handle) ==> r is Abort,
    {
        let taken = self.entries.remove(&handle);
        match taken {
            Some(slot) => {
                assert(old(self)@.entries.contains_key(handle));
                let mut file = slot.file;
                let step = file.download_end();
                let r = match step {
                    DownloadStep::Continue => DownloadAction::Continue,
                    DownloadStep::Abort => DownloadAction::Abort,
                    DownloadStep::Failed => DownloadAction::Failed,
                    DownloadStep::Finished { upload: None } => DownloadAction::Finished {
                        upload: None,
                    },
                    DownloadStep::Finished { upload: Some(epoch) } => DownloadAction::Finished {
                        upload: Some(Self::job(&file, handle, epoch)),
                    },
                };
                self.entries.insert(handle, Slot { file, holders: slot.holders });
                self.ticks = self.ticks + 1;
                proof {
                    lemma_set_file(old(self)@, handle, file@);
                    assert(self@.entries =~= old(self)@.set_file(handle, file@).tick().entries);
                }
                self.abandon(handle);
                r
            },
            None => {
                assert(self@.entries =~= old(self)@.entries);
                DownloadAction::Abort
            },
        }
    }

    /// Takes a failure of the remote stream of entry `handle`.
    pub fn download_error(&mut self, handle: u64)
        requires
            old(self).wf(),
        ensures
            final(self).wf(),
            final(self)@ == old(self)@.after_stream_error(handle),
    {
        let taken = self.entries.remove(&handle);
        match taken {
            Some(slot) => {
                assert(old(self)@.entries.contains_key(handle));
                let mut file = slot.file;
                file.download_error();
                self.entries.insert(handle, Slot { file, holders: slot.holders });
                proof {
                    lemma_set_file_still(old(self)@, handle, file@);
                    assert(self@.entries =~= old(self)@.set_file(handle, file@).entries);
                }
                self.abandon(handle);
            },
            None => {
                assert(self@.entries =~= old(self)@.entries);
            },
        }
    }

    /// Sets the size of the file under `remote_id` to `new_size`. A cached
    /// file is truncated in place, unless its entry has failed or is
    /// superseded. Otherwise the caller has work to do first: for a file
    /// that is not cached and becomes empty, upload the placeholder and
    /// insert an empty entry; in every other case fetch the message and
    /// hand it to `allocate` with `new_size` as truncation.
    pub fn truncate_file(&mut self, remote_id: i32, new_size: u64) -> (plan: TruncatePlan)
        requires
            old(self).wf(),
            old(self)@.ticks < u64::MAX,
            new_size <= usize::MAX,
        ensures
            final(self).wf(),
            final(self)@ == old(self)@.after_truncate(remote_id, new_size),
            plan == old(self)@.truncate_result(remote_id, new_size),
    {
        proof {
            lemma_handle_of(old(self)@, remote_id);
            lemma_touch(old(self)@, remote_id);
        }
        match self.touch(remote_id) {
            Some(h) => {
                let ghost touched = self@;
                let taken = self.entries.remove(&h);
                match taken {
                    Some(slot) => {
                        let mut file = slot.file;
                        let in_place = file.truncate(new_size);
                        self.entries.insert(h, Slot { file, holders: slot.holders });
                        self.ticks = self.ticks + 1;
                        proof {
                            lemma_set_file(touched, h, file@);
                            assert(self@.entries =~= touched.set_file(h, file@).tick().entries);
                        }
                        if in_place {
                            TruncatePlan::Done
                        } else {
                            TruncatePlan::Fetch
                        }
                    },
                    None => TruncatePlan::Fetch,
                }
            },
            None => {
                if new_size == 0 {
                    TruncatePlan::Placeholder
                } else {
                    TruncatePlan::Fetch
                }
            },
        }
    }

    /// Writes `data` at `offset` into the file under `remote_id`, which is
    /// `NotFound` where it is not cached. A caller that has to wait holds
    /// the entry and goes on with `write`.
    pub fn write_file(&mut self, remote_id: i32, offset: u64, data: &[u8], mtime: u32) -> (r: Result<
        Held<(u64, u32)>,
        Error,
    >)
        requires
            old(self).wf(),
            old(self)@.has_room(),
        ensures
            final(self).wf(),
            final(self)@ == old(self)@.after_write_file(remote_id, offset, data@, mtime),
            r == old(self)@.write_file_result(remote_id, offset, data@, mtime),
    {
        proof {
            lemma_handle_of(old(self)@, remote_id);
            lemma_touch(old(self)@, remote_id);
        }
        match self.get(&remote_id) {
            Some(h) => {
                match self.write(h, offset, data, mtime) {
                    Ok(Step::Done(done)) => {
                        self.release(h);
                        Ok(Held::Done(done))
                    },
                    Ok(Step::Wait) => Ok(Held::Wait { handle: h }),
                    Err(e) => {
                        self.release(h);
                        Err(e)
                    },
                }
            },
            None => Err(Error::NotFound),
        }
    }

    /// Flushes the file under `remote_id`, which is `NotFound` where it is
    /// not cached. With `block` the caller waits for the commit. A caller
    /// that has to wait holds the entry, goes on with `flush_entry` after a
    /// download, and lets go of it at the end.
    pub fn flush(&mut self, remote_id: i32, block: bool) -> (r: Result<FlushStep, Error>)
        requires
            old(self).wf(),
            old(self)@.has_room(),
        ensures
            final(self).wf(),
            final(self)@ == old(self)@.after_flush_file(remote_id, block),
            match old(self)@.handle_of(remote_id) {
                Some(h) => flush_agrees(
                    r,
                    old(self)@.entries[h].file.flush_result(block),
                    h,
                    old(self)@.entries[h].file,
                ),
                None => r matches Err(Error::NotFound),
            },
    {
        proof {
            lemma_handle_of(old(self)@, remote_id);
            lemma_touch(old(self)@, remote_id);
        }
        match self.get(&remote_id) {
            Some(h) => {
                let r = self.flush_entry(h, block);
                let waits = match &r {
                    Ok(FlushStep::WaitDownload { .. }) => true,
                    Ok(FlushStep::WaitUpload { .. }) => true,
                    Ok(FlushStep::Upload(_)) => block,
                    _ => false,
                };
                if !waits {
                    self.release(h);
                }
                r
            },
            None => Err(Error::NotFound),
        }
    }

    /// The bytes uploaded for an empty file: one zero byte, since the
    /// remote side refuses empty files.
    pub fn placeholder() -> (bytes: Vec<u8>)
        ensures
            bytes@ == upload_image(Seq::<u8>::empty()),
    {
        let mut bytes: Vec<u8> = Vec::new();
        bytes.push(0u8);
        assert(bytes@ =~= seq![0u8]);
        bytes
    }

    /// Installs the empty entry of a file whose placeholder the caller has
    /// uploaded: under `remote_id` where the placeholder went to that
    /// message, else under `sent_id`, the id of the message sent for it.
    /// Returns the id used.
    pub fn upload_empty_file(&mut self, remote_id: Option<i32>, sent_id: i32) -> (id: i32)
        requires
            old(self).wf(),
            old(self)@.ticks < u64::MAX,
        ensures
            final(self).wf(),
            id == (match remote_id {
                Some(given) => given,
                None => sent_id,
            }),
            final(self)@ == old(self)@.install(id, FileState::ready_empty(id)),
    {
        let id = match remote_id {
            Some(given) => given,
            None => sent_id,
        };
        self.insert_empty(id);
        id
    }

    /// Installs the empty entry of a file just created, whose placeholder
    /// the caller has sent as the message `sent_id`. Returns the file handle
    /// for the kernel, which is always 0, and the remote id.
    pub fn open_create_empty(&mut self, sent_id: i32) -> (r: (u64, i32))
        requires
            old(self).wf(),
            old(self)@.ticks < u64::MAX,
        ensures
            final(self).wf(),
            r == (0u64, sent_id),
            final(self)@ == old(self)@.install(sent_id, FileState::ready_empty(sent_id)),
    {
        let id = self.upload_empty_file(None, sent_id);
        (0, id)
    }
}

} // verus!
