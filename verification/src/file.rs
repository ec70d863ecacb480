//! One cache entry: the local copy of a remote file together with its
//! status. Every operation is one step of the state machine in `state`.

use vstd::prelude::*;
use vstd::slice::slice_subrange;
use bytes::Bytes;
use crate::backing::BackingFile;
use crate::buffer::{bytes_from_vec, bytes_new, bytes_view};
use crate::error::Error;
use crate::state::{
    upload_image, DownloadStep, FileState, FlushPlan, Status, Step, UploadOutcome,
};

verus! {

/// Whether the executable result of a read is the one the model gives.
pub open spec fn read_agrees(r: Result<Step<Bytes>, Error>, model: Result<Step<Seq<u8>>, Error>) -> bool {
    match (r, model) {
        (Ok(Step::Done(buffer)), Ok(Step::Done(bytes))) => bytes_view(buffer) == bytes,
        (Ok(Step::Wait), Ok(Step::Wait)) => true,
        (Err(e), Err(expected)) => e == expected,
        _ => false,
    }
}

/// A cache entry.
pub struct FileCache {
    remote_id: i32,
    file: BackingFile,
    available: u64,
    status: Status,
    epochs: u64,
    in_flight: Ghost<Seq<u8>>,
}

impl View for FileCache {
    type V = FileState;

    closed spec fn view(&self) -> FileState {
        FileState {
            remote_id: self.remote_id,
            content: self.file@,
            available: self.available as nat,
            status: self.status,
            epochs: self.epochs as nat,
            in_flight: self.in_flight@,
        }
    }
}

impl FileCache {
    /// The invariant of an entry.
    pub open spec fn wf(&self) -> bool {
        self@.wf()
    }

    /// A new entry without content, in step with the remote side.
    pub fn ready_empty(remote_id: i32) -> (entry: Self)
        ensures
            entry.wf(),
            entry@ == FileState::ready_empty(remote_id),
    {
        FileCache {
            remote_id,
            file: BackingFile::new(),
            available: 0,
            status: Status::Ready,
            epochs: 0,
            in_flight: Ghost(Seq::empty()),
        }
    }

    /// A new entry of `size` zero bytes whose download is about to start and
    /// stops at `truncate_to`, where that is set.
    pub fn downloading(remote_id: i32, size: u64, truncate_to: Option<u64>) -> (entry: Self)
        requires
            size <= usize::MAX,
            truncate_to matches Some(cap) ==> cap <= size,
        ensures
            entry.wf(),
            entry@ == FileState::downloading(remote_id, size as nat, truncate_to),
    {
        let mut file = BackingFile::new();
        file.set_len(size);
        FileCache {
            remote_id,
            file,
            available: 0,
            status: Status::Downloading { truncate_to },
            epochs: 0,
            in_flight: Ghost(Seq::empty()),
        }
    }

    /// The remote message that the entry caches.
    pub fn remote_id(&self) -> (id: i32)
        ensures
            id == self@.remote_id,
    {
        self.remote_id
    }

    /// The logical size.
    pub fn size(&self) -> (n: u64)
        ensures
            n == self@.size(),
    {
        self.file.len()
    }

    /// How many bytes at the head are valid while the download runs.
    pub fn available(&self) -> (n: u64)
        ensures
            n == self@.available,
    {
        self.available
    }

    /// The status.
    pub fn status(&self) -> (status: Status)
        ensures
            status == self@.status,
    {
        self.status
    }

    /// Whether another epoch can be stamped on this entry.
    pub fn can_stamp(&self) -> (b: bool)
        ensures
            b == (self@.epochs < u64::MAX),
    {
        self.epochs < u64::MAX
    }

    /// Reads up to `size` bytes at `offset`. A read at or past the end, or of
    /// no bytes, returns an empty buffer whatever the status. While the
    /// download runs, a read that reaches past the available prefix has to
    /// wait.
    pub fn read(&self, offset: u64, size: usize) -> (r: Result<Step<Bytes>, Error>)
        requires
            self.wf(),
        ensures
            read_agrees(r, self@.read_result(offset as nat, size as nat)),
    {
        let file_size = self.file.len();
        if file_size <= offset || size == 0 {
            return Ok(Step::Done(bytes_new()));
        }
        let rest: u64 = file_size - offset;
        let len: usize = if (size as u64) < rest {
            size
        } else {
            rest as usize
        };
        match self.status {
            Status::Invalidated => {
                return Err(Error::Invalidated);
            },
            Status::DownloadFailed => {
                return Err(Error::DownloadFailed);
            },
            Status::Downloading { .. } => {
                if self.available < offset || self.available - offset < len as u64 {
                    return Ok(Step::Wait);
                }
            },
            _ => {},
        }
        let out = self.file.read_exact_at(offset, len);
        Ok(Step::Done(bytes_from_vec(out)))
    }

    /// Stamps a fresh epoch where the content is about to diverge from what
    /// the remote side has or is being sent.
    fn mark_dirty(&mut self)
        requires
            old(self).wf(),
            old(self)@.epochs < u64::MAX,
        ensures
            final(self)@ == old(self)@.marked_dirty(),
            final(self).file == old(self).file,
    {
        match self.status {
            Status::Ready | Status::Dirty { uploading: true, .. } => {
                self.epochs = self.epochs + 1;
                self.status = Status::Dirty { epoch: self.epochs, uploading: false };
            },
            _ => {},
        }
    }

    /// Writes `data` at `offset` and returns the new size with `mtime`, the
    /// caller's time of the write. While the download runs the write has to
    /// wait, wherever it falls. A served write leaves the entry dirty. Where
    /// the end of the write cannot be addressed the write fails with `Io`
    /// and the content stays as it was.
    pub fn write(&mut self, offset: u64, data: &[u8], mtime: u32) -> (r: Result<
        Step<(u64, u32)>,
        Error,
    >)
        requires
            old(self).wf(),
            old(self)@.epochs < u64::MAX,
        ensures
            final(self).wf(),
            final(self)@ == old(self)@.after_write(offset as nat, data@),
            r == old(self)@.write_result(offset as nat, data@, mtime),
    {
        match self.status {
            Status::Invalidated => {
                return Err(Error::Invalidated);
            },
            Status::DownloadFailed => {
                return Err(Error::DownloadFailed);
            },
            Status::Downloading { .. } => {
                return Ok(Step::Wait);
            },
            _ => {},
        }
        self.mark_dirty();
        match self.file.write_all_at(offset, data) {
            Ok(()) => Ok(Step::Done((self.file.len(), mtime))),
            Err(e) => Err(e),
        }
    }

    /// Sets the logical size to `new_size`. On a downloading entry the
    /// download is capped and an upload follows its completion; a
    /// serviceable entry becomes dirty. A failed or superseded entry is left
    /// alone and `false` is returned: the file has to be opened anew.
    pub fn truncate(&mut self, new_size: u64) -> (in_place: bool)
        requires
            old(self).wf(),
            old(self)@.epochs < u64::MAX,
            new_size <= usize::MAX,
        ensures
            final(self).wf(),
            final(self)@ == old(self)@.after_truncate(new_size as nat),
            in_place == old(self)@.truncates_in_place(),
    {
        match self.status {
            Status::Downloading { truncate_to } => {
                let end = match truncate_to {
                    Some(cap) => cap,
                    None => self.file.len(),
                };
                let cap = if end <= new_size {
                    end
                } else {
                    new_size
                };
                self.status = Status::Downloading { truncate_to: Some(cap) };
            },
            Status::Ready | Status::Dirty { .. } => {
                self.mark_dirty();
            },
            _ => {
                return false;
            },
        }
        self.file.set_len(new_size);
        if self.available > new_size {
            self.available = new_size;
        }
        true
    }

    /// Ends the download: the whole content is valid, and the entry is
    /// `Ready` or, after a truncation, dirty with its upload running.
    fn complete(&mut self) -> (upload: Option<u64>)
        requires
            old(self).wf(),
            old(self)@.status is Downloading,
            old(self)@.epochs < u64::MAX,
        ensures
            final(self).wf(),
            final(self)@ == old(self)@.completed(),
            upload == old(self)@.completion_upload(),
    {
        self.available = self.file.len();
        match self.status {
            Status::Downloading { truncate_to: Some(_) } => {
                self.epochs = self.epochs + 1;
                self.status = Status::Dirty { epoch: self.epochs, uploading: true };
                self.in_flight = Ghost(upload_image(self.file@));
                Some(self.epochs)
            },
            _ => {
                self.status = Status::Ready;
                None
            },
        }
    }

    /// Takes the next chunk of the remote stream. `held` says whether the
    /// table or a caller still holds the entry. The chunk is cut to what is
    /// still missing and stored at the download position.
    pub fn download_chunk(&mut self, chunk: &[u8], held: bool) -> (step: DownloadStep)
        requires
            old(self).wf(),
            old(self)@.status is Downloading || old(self)@.status is Invalidated,
            old(self)@.epochs < u64::MAX,
        ensures
            final(self).wf(),
            final(self)@ == old(self)@.after_chunk(chunk@, held),
            step == old(self)@.chunk_result(chunk@, held),
    {
        let end: u64 = match self.status {
            Status::Downloading { truncate_to: Some(cap) } => cap,
            Status::Downloading { truncate_to: None } => {
                if !held {
                    return DownloadStep::Abort;
                }
                self.file.len()
            },
            _ => {
                return DownloadStep::Abort;
            },
        };
        let rest: u64 = end - self.available;
        let take: usize = if (chunk.len() as u64) <= rest {
            chunk.len()
        } else {
            rest as usize
        };
        let part = slice_subrange(chunk, 0, take);
        assert(part@ == chunk@.take(take as int));
        let ghost before = self@;
        let stored = self.file.write_all_at(self.available, part);
        assert(stored is Ok);
        self.available = self.available + take as u64;
        assert(self@ == before.with_chunk(chunk@));
        if self.available < end {
            DownloadStep::Continue
        } else {
            let upload = self.complete();
            DownloadStep::Finished { upload }
        }
    }

    /// Takes the end of the remote stream: the download is complete where
    /// nothing is missing, and has failed otherwise.
    pub fn download_end(&mut self) -> (step: DownloadStep)
        requires
            old(self).wf(),
            old(self)@.status is Downloading || old(self)@.status is Invalidated,
            old(self)@.epochs < u64::MAX,
        ensures
            final(self).wf(),
            final(self)@ == old(self)@.after_stream_end(),
            step == old(self)@.stream_end_result(),
    {
        let end: u64 = match self.status {
            Status::Downloading { truncate_to: Some(cap) } => cap,
            Status::Downloading { truncate_to: None } => self.file.len(),
            _ => {
                return DownloadStep::Abort;
            },
        };
        if self.available < end {
            self.status = Status::DownloadFailed;
            DownloadStep::Failed
        } else {
            let upload = self.complete();
            DownloadStep::Finished { upload }
        }
    }

    /// Takes a failure of the remote stream: a downloading entry has failed.
    pub fn download_error(&mut self)
        requires
            old(self).wf(),
        ensures
            final(self).wf(),
            final(self)@ == old(self)@.after_stream_error(),
    {
        match self.status {
            Status::Downloading { .. } => {
                self.status = Status::DownloadFailed;
            },
            _ => {},
        }
    }

    /// Says what has to happen for the content to reach the remote side, and
    /// marks the upload as running where one becomes due.
    pub fn flush(&mut self, block: bool) -> (r: Result<FlushPlan, Error>)
        requires
            old(self).wf(),
        ensures
            final(self).wf(),
            final(self)@ == old(self)@.after_flush(),
            r == old(self)@.flush_result(block),
    {
        match self.status {
            Status::DownloadFailed => Err(Error::DownloadFailed),
            Status::Ready | Status::Invalidated => Ok(FlushPlan::Done),
            Status::Downloading { .. } => Ok(FlushPlan::WaitDownload),
            Status::Dirty { epoch, uploading } => {
                if !uploading {
                    self.status = Status::Dirty { epoch, uploading: true };
                    self.in_flight = Ghost(upload_image(self.file@));
                    Ok(FlushPlan::Upload { epoch })
                } else if block {
                    Ok(FlushPlan::WaitUpload { epoch })
                } else {
                    Ok(FlushPlan::Done)
                }
            },
        }
    }

    /// The bytes that the upload stamped `epoch` sends, or `None` where that
    /// upload is no longer the one of the entry's content.
    pub fn upload_payload(&self, epoch: u64) -> (payload: Option<Vec<u8>>)
        requires
            self.wf(),
        ensures
            payload is Some <==> self@.upload_current(epoch),
            payload matches Some(bytes) ==> bytes@ == upload_image(self@.content),
    {
        match self.status {
            Status::Dirty { epoch: current, uploading: true } => {
                if current != epoch {
                    return None;
                }
            },
            _ => {
                return None;
            },
        }
        let size = self.file.len();
        if size == 0 {
            let mut bytes: Vec<u8> = Vec::new();
            bytes.push(0u8);
            assert(bytes@ =~= seq![0u8]);
            Some(bytes)
        } else {
            let bytes = self.file.read_exact_at(0, size as usize);
            assert(bytes@ =~= self.file@);
            Some(bytes)
        }
    }

    /// Takes the end of the upload stamped `epoch`; `accepted` says whether
    /// the remote side took it. Only the upload of the current content
    /// changes the entry: accepted, it makes the entry `Ready`.
    pub fn finish_upload(&mut self, epoch: u64, accepted: bool) -> (outcome: UploadOutcome)
        requires
            old(self).wf(),
        ensures
            final(self).wf(),
            final(self)@ == old(self)@.after_finish_upload(epoch, accepted),
            outcome == old(self)@.finish_upload_result(epoch, accepted),
    {
        match self.status {
            Status::Dirty { epoch: current, uploading: true } => {
                if current != epoch {
                    UploadOutcome::Superseded
                } else if accepted {
                    self.status = Status::Ready;
                    UploadOutcome::Committed
                } else {
                    self.status = Status::Dirty { epoch, uploading: false };
                    UploadOutcome::Failed
                }
            },
            _ => UploadOutcome::Superseded,
        }
    }

    /// Marks the entry as superseded.
    pub fn invalidate(&mut self)
        requires
            old(self).wf(),
        ensures
            final(self).wf(),
            final(self)@ == old(self)@.invalidated(),
    {
        self.status = Status::Invalidated;
    }
}

} // verus!
