//! The state machine of one cache entry, as a mathematical model: what an
//! entry is and what each operation makes of it. The executable entry in
//! `file` refines these functions step by step.

use vstd::prelude::*;
use crate::backing::{overwritten, resized};
use crate::error::Error;

verus! {

/// Where an entry stands between remote and local content.
#[derive(Debug, Clone, Copy, PartialEq, Eq)]
pub enum Status {
    /// The first download is running. `truncate_to`, when set, is where the
    /// download stops, and an upload follows its completion.
    Downloading { truncate_to: Option<u64> },
    /// The download failed; the entry has to be removed before a retry.
    DownloadFailed,
    /// The content is the last committed remote revision.
    Ready,
    /// The content differs from the remote side since `epoch`. `uploading`
    /// says that an upload of exactly this content is under way.
    Dirty { epoch: u64, uploading: bool },
    /// The entry was superseded. It never leaves this status.
    Invalidated,
}

/// The outcome of an operation that may have to wait for a background task.
#[derive(Debug, PartialEq, Eq)]
pub enum Step<T> {
    /// The operation is complete.
    Done(T),
    /// Nothing was done: the caller waits for the entry to change and asks
    /// again.
    Wait,
}

/// What the downloader does after it has handed over a chunk or the end of
/// the stream.
#[derive(Debug, Clone, Copy, PartialEq, Eq)]
pub enum DownloadStep {
    /// More data is needed.
    Continue,
    /// The entry is superseded or nobody holds it any more: stop quietly.
    Abort,
    /// The download is complete. With `upload` set, a truncation was pending
    /// and the content has to be uploaded under that epoch.
    Finished { upload: Option<u64> },
    /// The stream ended early; the entry is now `DownloadFailed`.
    Failed,
}

/// How an upload ended, as seen by the entry.
#[derive(Debug, Clone, Copy, PartialEq, Eq)]
pub enum UploadOutcome {
    /// The entry is `Ready`: the upload carried its content.
    Committed,
    /// The entry changed while the upload ran; nothing was done.
    Superseded,
    /// The remote side refused; the entry stays dirty for a later flush.
    Failed,
}

/// What a flush asks of its caller.
#[derive(Debug, Clone, Copy, PartialEq, Eq)]
pub enum FlushPlan {
    /// Nothing to commit.
    Done,
    /// Start the upload of the current content under `epoch`.
    Upload { epoch: u64 },
    /// An upload of the current content is already running under `epoch`.
    WaitUpload { epoch: u64 },
    /// The download has to settle first; ask again afterwards.
    WaitDownload,
}

/// What is sent to the remote side for `content`: the content itself, or one
/// zero byte where it is empty, since the remote side refuses empty files.
pub open spec fn upload_image(content: Seq<u8>) -> Seq<u8> {
    if content.len() == 0 {
        seq![0u8]
    } else {
        content
    }
}

/// The smaller of two numbers.
pub open spec fn min_nat(a: nat, b: nat) -> nat {
    if a <= b {
        a
    } else {
        b
    }
}

/// The model of one cache entry.
pub struct FileState {
    /// The remote message that the entry caches.
    pub remote_id: i32,
    /// The local bytes; their number is the logical size.
    pub content: Seq<u8>,
    /// How many bytes at the head are valid while the download runs.
    pub available: nat,
    /// The status.
    pub status: Status,
    /// How many epochs were stamped so far.
    pub epochs: nat,
    /// What the upload of the current epoch carries, while one is running.
    pub in_flight: Seq<u8>,
}

impl FileState {
    /// The logical size.
    pub open spec fn size(self) -> nat {
        self.content.len()
    }

    /// The invariant of an entry.
    pub open spec fn wf(self) -> bool {
        &&& self.available <= self.size()
        &&& self.size() <= usize::MAX
        &&& self.epochs <= u64::MAX
        &&& match self.status {
            Status::Downloading { truncate_to: Some(cap) } => self.available <= cap <= self.size(),
            Status::Dirty { epoch, uploading } => 1 <= epoch <= self.epochs && (uploading
                ==> self.in_flight == upload_image(self.content)),
            _ => true,
        }
    }

    /// A new entry without content, in step with the remote side.
    pub open spec fn ready_empty(remote_id: i32) -> FileState {
        FileState {
            remote_id,
            content: Seq::empty(),
            available: 0,
            status: Status::Ready,
            epochs: 0,
            in_flight: Seq::empty(),
        }
    }

    /// A new entry of `size` zero bytes whose download is about to start.
    pub open spec fn downloading(remote_id: i32, size: nat, truncate_to: Option<u64>) -> FileState {
        FileState {
            remote_id,
            content: resized(Seq::empty(), size),
            available: 0,
            status: Status::Downloading { truncate_to },
            epochs: 0,
            in_flight: Seq::empty(),
        }
    }

    /// Whether reads and writes are served from the local content.
    pub open spec fn serviceable(self) -> bool {
        self.status is Ready || self.status is Dirty
    }

    /// Where the download stops.
    pub open spec fn download_end(self) -> nat {
        match self.status {
            Status::Downloading { truncate_to: Some(cap) } => cap as nat,
            _ => self.size(),
        }
    }

    /// The entry after its content was changed locally: a `Ready` entry
    /// becomes `Dirty` under a fresh epoch, and so does a `Dirty` one whose
    /// upload is running, which thereby is superseded. A `Dirty` entry
    /// without an upload keeps its epoch.
    pub open spec fn marked_dirty(self) -> FileState {
        match self.status {
            Status::Ready | Status::Dirty { uploading: true, .. } => FileState {
                status: Status::Dirty { epoch: (self.epochs + 1) as u64, uploading: false },
                epochs: self.epochs + 1,
                ..self
            },
            _ => self,
        }
    }

    /// What a read of `size` bytes at `offset` returns.
    pub open spec fn read_result(self, offset: nat, size: nat) -> Result<Step<Seq<u8>>, Error> {
        if self.size() <= offset || size == 0 {
            Ok(Step::Done(Seq::empty()))
        } else {
            let end = min_nat(offset + size, self.size());
            match self.status {
                Status::Invalidated => Err(Error::Invalidated),
                Status::DownloadFailed => Err(Error::DownloadFailed),
                Status::Downloading { .. } if end > self.available => Ok(Step::Wait),
                _ => Ok(Step::Done(self.content.subrange(offset as int, end as int))),
            }
        }
    }

    /// What a write of `data` at `offset` returns: the new size and `mtime`.
    pub open spec fn write_result(self, offset: nat, data: Seq<u8>, mtime: u32) -> Result<
        Step<(u64, u32)>,
        Error,
    > {
        match self.status {
            Status::Invalidated => Err(Error::Invalidated),
            Status::DownloadFailed => Err(Error::DownloadFailed),
            Status::Downloading { .. } => Ok(Step::Wait),
            _ => if offset + data.len() <= usize::MAX {
                Ok(Step::Done((overwritten(self.content, offset, data).len() as u64, mtime)))
            } else {
                Err(Error::Io)
            },
        }
    }

    /// The entry after a write of `data` at `offset`.
    pub open spec fn after_write(self, offset: nat, data: Seq<u8>) -> FileState {
        if self.serviceable() {
            if offset + data.len() <= usize::MAX {
                FileState { content: overwritten(self.content, offset, data), ..self.marked_dirty() }
            } else {
                self.marked_dirty()
            }
        } else {
            self
        }
    }

    /// Whether a truncation is carried out on the entry itself. On a failed
    /// or superseded entry it is not, and the file has to be opened anew.
    pub open spec fn truncates_in_place(self) -> bool {
        !(self.status is DownloadFailed || self.status is Invalidated)
    }

    /// The entry after a truncation to `new_size`.
    pub open spec fn after_truncate(self, new_size: nat) -> FileState {
        match self.status {
            Status::Downloading { .. } => FileState {
                content: resized(self.content, new_size),
                available: min_nat(self.available, new_size),
                status: Status::Downloading {
                    truncate_to: Some(min_nat(self.download_end(), new_size) as u64),
                },
                ..self
            },
            Status::Ready | Status::Dirty { .. } => FileState {
                content: resized(self.content, new_size),
                available: min_nat(self.available, new_size),
                ..self.marked_dirty()
            },
            _ => self,
        }
    }

    /// Whether the downloader goes on with the next chunk. It stops on a
    /// superseded entry, and on one that nobody holds and that has no
    /// truncation pending.
    pub open spec fn download_proceeds(self, held: bool) -> bool {
        match self.status {
            Status::Downloading { truncate_to: Some(_) } => true,
            Status::Downloading { truncate_to: None } => held,
            _ => false,
        }
    }

    /// How many bytes of a chunk of `len` bytes are stored.
    pub open spec fn chunk_take(self, len: nat) -> nat {
        min_nat(len, (self.download_end() - self.available) as nat)
    }

    /// The entry once its download is complete: `Ready`, or, where a
    /// truncation was pending, `Dirty` with the upload of its content
    /// running under a fresh epoch.
    pub open spec fn completed(self) -> FileState {
        match self.status {
            Status::Downloading { truncate_to: Some(_) } => FileState {
                available: self.size(),
                status: Status::Dirty { epoch: (self.epochs + 1) as u64, uploading: true },
                epochs: self.epochs + 1,
                in_flight: upload_image(self.content),
                ..self
            },
            _ => FileState { available: self.size(), status: Status::Ready, ..self },
        }
    }

    /// The epoch of the upload that `completed` starts, if it starts one.
    pub open spec fn completion_upload(self) -> Option<u64> {
        match self.status {
            Status::Downloading { truncate_to: Some(_) } => Some((self.epochs + 1) as u64),
            _ => None,
        }
    }

    /// The entry with the stored part of `chunk` written at the download
    /// position and the position advanced.
    pub open spec fn with_chunk(self, chunk: Seq<u8>) -> FileState {
        let n = self.chunk_take(chunk.len());
        FileState {
            content: overwritten(self.content, self.available, chunk.take(n as int)),
            available: self.available + n,
            ..self
        }
    }

    /// The entry after the downloader handed over `chunk`.
    pub open spec fn after_chunk(self, chunk: Seq<u8>, held: bool) -> FileState {
        if self.download_proceeds(held) {
            let stored = self.with_chunk(chunk);
            if stored.available < stored.download_end() {
                stored
            } else {
                stored.completed()
            }
        } else {
            self
        }
    }

    /// What the downloader is told after it handed over `chunk`.
    pub open spec fn chunk_result(self, chunk: Seq<u8>, held: bool) -> DownloadStep {
        if self.download_proceeds(held) {
            let stored = self.with_chunk(chunk);
            if stored.available < stored.download_end() {
                DownloadStep::Continue
            } else {
                DownloadStep::Finished { upload: stored.completion_upload() }
            }
        } else {
            DownloadStep::Abort
        }
    }

    /// The entry after the remote stream ended.
    pub open spec fn after_stream_end(self) -> FileState {
        if self.status is Downloading {
            if self.available < self.download_end() {
                FileState { status: Status::DownloadFailed, ..self }
            } else {
                self.completed()
            }
        } else {
            self
        }
    }

    /// What the downloader is told after the remote stream ended.
    pub open spec fn stream_end_result(self) -> DownloadStep {
        if self.status is Downloading {
            if self.available < self.download_end() {
                DownloadStep::Failed
            } else {
                DownloadStep::Finished { upload: self.completion_upload() }
            }
        } else {
            DownloadStep::Abort
        }
    }

    /// The entry after the remote stream broke.
    pub open spec fn after_stream_error(self) -> FileState {
        if self.status is Downloading {
            FileState { status: Status::DownloadFailed, ..self }
        } else {
            self
        }
    }

    /// The entry after an upload was asked for.
    pub open spec fn after_begin_upload(self) -> FileState {
        match self.status {
            Status::Dirty { epoch, uploading: false } => FileState {
                status: Status::Dirty { epoch, uploading: true },
                in_flight: upload_image(self.content),
                ..self
            },
            _ => self,
        }
    }

    /// Whether the upload stamped `epoch` is the one running for the
    /// entry's current content.
    pub open spec fn upload_current(self, epoch: u64) -> bool {
        self.status == (Status::Dirty { epoch, uploading: true })
    }

    /// The entry after the upload stamped `epoch` ended; `accepted` says
    /// whether the remote side took it.
    pub open spec fn after_finish_upload(self, epoch: u64, accepted: bool) -> FileState {
        if self.upload_current(epoch) {
            if accepted {
                FileState { status: Status::Ready, ..self }
            } else {
                FileState { status: Status::Dirty { epoch, uploading: false }, ..self }
            }
        } else {
            self
        }
    }

    /// What the end of the upload stamped `epoch` means for the entry.
    pub open spec fn finish_upload_result(self, epoch: u64, accepted: bool) -> UploadOutcome {
        if self.upload_current(epoch) {
            if accepted {
                UploadOutcome::Committed
            } else {
                UploadOutcome::Failed
            }
        } else {
            UploadOutcome::Superseded
        }
    }

    /// What a flush returns. `block` says whether the caller waits for the
    /// commit.
    pub open spec fn flush_result(self, block: bool) -> Result<FlushPlan, Error> {
        match self.status {
            Status::DownloadFailed => Err(Error::DownloadFailed),
            Status::Ready | Status::Invalidated => Ok(FlushPlan::Done),
            Status::Downloading { .. } => Ok(FlushPlan::WaitDownload),
            Status::Dirty { epoch, uploading: false } => Ok(FlushPlan::Upload { epoch }),
            Status::Dirty { epoch, uploading: true } => if block {
                Ok(FlushPlan::WaitUpload { epoch })
            } else {
                Ok(FlushPlan::Done)
            },
        }
    }

    /// The entry after a flush: an upload that became due is running.
    pub open spec fn after_flush(self) -> FileState {
        self.after_begin_upload()
    }

    /// The entry after it was superseded.
    pub open spec fn invalidated(self) -> FileState {
        FileState { status: Status::Invalidated, ..self }
    }
}

} // verus!
