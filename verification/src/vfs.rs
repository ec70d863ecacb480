//! The filesystem above the cache: what each request does once the
//! metadata store has answered.

use vstd::prelude::*;
use bytes::Bytes;
use crate::buffer::bytes_view;
use crate::cache::{flush_agrees, DiskCache, FlushStep};
use crate::cache_state::{lemma_handle_of, lemma_touch, CacheState, Held, TruncatePlan};
use crate::error::Error;
use crate::inode::{low32, stored_size, InodeAttr};
use crate::state::Step;

verus! {

/// What opening a file asks of the caller.
#[derive(Debug, Clone, Copy, PartialEq, Eq)]
pub enum OpenPlan {
    /// The file is cached; `fh` is the file handle for the kernel.
    Opened { fh: u64 },
    /// The file is not cached: fetch the message `remote_id` and hand it to
    /// the cache.
    Fetch { remote_id: i32 },
}

/// What creating a file asks of the caller.
#[derive(Debug, Clone)]
pub enum CreatePlan {
    /// The name is free: create the remote placeholder and the node.
    Create,
    /// The file exists and is to be opened as it is.
    Open(InodeAttr),
    /// The file exists and is to be truncated by the kernel's next request.
    Existing(InodeAttr),
}

/// The attributes after a request to set size and modification time, as
/// far as each is given; `now` is the time of the request.
pub open spec fn attr_after_set(attr: InodeAttr, size: Option<u64>, mtime: Option<u32>, now: u32) -> InodeAttr {
    match (size, mtime) {
        (Some(new_size), _) if attr.size != low32(new_size) => InodeAttr {
            size: low32(new_size),
            mtime: match mtime {
                Some(given) => given,
                None => now,
            },
            ..attr
        },
        (_, Some(given)) => InodeAttr { mtime: given, ..attr },
        (_, None) => attr,
    }
}

/// The size to which a request to set attributes truncates the file, if it
/// does.
pub open spec fn truncation_of(attr: InodeAttr, size: Option<u64>) -> Option<u64> {
    match size {
        Some(new_size) if attr.size != low32(new_size) => Some(new_size),
        _ => None,
    }
}

/// The filesystem above the cache.
pub struct Vfs {
    cache: DiskCache,
}

impl View for Vfs {
    type V = CacheState;

    closed spec fn view(&self) -> CacheState {
        self.cache@
    }
}

impl Vfs {
    /// The invariant of the filesystem.
    pub open spec fn wf(&self) -> bool {
        self@.wf()
    }

    /// A filesystem over `cache`.
    pub fn new(cache: DiskCache) -> (vfs: Self)
        requires
            cache.wf(),
        ensures
            vfs.wf(),
            vfs@ == cache@,
    {
        Vfs { cache }
    }

    /// The cache.
    pub closed spec fn inner(&self) -> DiskCache {
        self.cache
    }

    /// The cache, for the steps that the plans of this type ask for.
    pub fn cache(&mut self) -> (cache: &mut DiskCache)
        ensures
            *cache == old(self).inner(),
            *final(cache) == final(self).inner(),
    {
        &mut self.cache
    }

    /// The node that a lookup in the metadata store gave, or `NotFound`.
    pub fn lookup(found: Option<InodeAttr>) -> (r: Result<InodeAttr, Error>)
        ensures
            r == (match found {
                Some(attr) => Ok::<InodeAttr, Error>(attr),
                None => Err(Error::NotFound),
            }),
    {
        match found {
            Some(attr) => Ok(attr),
            None => Err(Error::NotFound),
        }
    }

    /// The attributes that the metadata store gave, or `NotFound`.
    pub fn get_attr(found: Option<InodeAttr>) -> (r: Result<InodeAttr, Error>)
        ensures
            r == (match found {
                Some(attr) => Ok::<InodeAttr, Error>(attr),
                None => Err(Error::NotFound),
            }),
    {
        Self::lookup(found)
    }

    /// Opens the file `attr`. A node that the metadata store does not know
    /// is `MediaInvalid`.
    pub fn open_file(&mut self, attr: Option<&InodeAttr>) -> (r: Result<OpenPlan, Error>)
        requires
            old(self).wf(),
        ensures
            final(self).wf(),
            match attr {
                Some(a) => final(self)@ == old(self)@.touch(a.remote_id) && r == Ok::<
                    OpenPlan,
                    Error,
                >(
                    if old(self)@.handle_of(a.remote_id) is Some {
                        OpenPlan::Opened { fh: 0 }
                    } else {
                        OpenPlan::Fetch { remote_id: a.remote_id }
                    },
                ),
                None => final(self)@ == old(self)@ && r == Err::<OpenPlan, Error>(
                    Error::MediaInvalid,
                ),
            },
    {
        match attr {
            Some(a) => {
                if self.cache.open(a.remote_id) {
                    Ok(OpenPlan::Opened { fh: 0 })
                } else {
                    Ok(OpenPlan::Fetch { remote_id: a.remote_id })
                }
            },
            None => Err(Error::MediaInvalid),
        }
    }

    /// Creates or opens the file that a lookup gave as `found`. An
    /// existing file that is neither to be truncated nor to be opened is
    /// `FileExists`.
    pub fn open_create_file(found: Option<InodeAttr>, truncate: bool, exclusive: bool) -> (r: Result<
        CreatePlan,
        Error,
    >)
        ensures
            r == (match found {
                None => Ok::<CreatePlan, Error>(CreatePlan::Create),
                Some(attr) => if truncate {
                    Ok(CreatePlan::Existing(attr))
                } else if exclusive {
                    Err(Error::FileExists)
                } else {
                    Ok(CreatePlan::Open(attr))
                },
            }),
    {
        match found {
            None => Ok(CreatePlan::Create),
            Some(attr) => {
                if truncate {
                    Ok(CreatePlan::Existing(attr))
                } else if exclusive {
                    Err(Error::FileExists)
                } else {
                    Ok(CreatePlan::Open(attr))
                }
            },
        }
    }

    /// Flushes the file `attr` without waiting for the commit. A node that
    /// the metadata store does not know is `NotFound`.
    pub fn close_file(&mut self, attr: Option<&InodeAttr>) -> (r: Result<FlushStep, Error>)
        requires
            old(self).wf(),
            old(self)@.has_room(),
        ensures
            final(self).wf(),
            old(self)@.flushed(final(self)@, r, attr, false),
    {
        self.flush(attr, false)
    }

    /// Flushes the file `attr` and has the caller wait for the commit. A
    /// node that the metadata store does not know is `NotFound`.
    pub fn sync_file(&mut self, attr: Option<&InodeAttr>) -> (r: Result<FlushStep, Error>)
        requires
            old(self).wf(),
            old(self)@.has_room(),
        ensures
            final(self).wf(),
            old(self)@.flushed(final(self)@, r, attr, true),
    {
        self.flush(attr, true)
    }

    fn flush(&mut self, attr: Option<&InodeAttr>, block: bool) -> (r: Result<FlushStep, Error>)
        requires
            old(self).wf(),
            old(self)@.has_room(),
        ensures
            final(self).wf(),
            old(self)@.flushed(final(self)@, r, attr, block),
    {
        match attr {
            Some(a) => self.cache.flush(a.remote_id, block),
            None => Err(Error::NotFound),
        }
    }

    /// Reads from the file `attr`. A node that the metadata store does not
    /// know, and a file that is not cached, is `NotFound`. A caller that
    /// has to wait holds the entry and goes on with the cache's `read`.
    pub fn read_file(&mut self, attr: Option<&InodeAttr>, offset: u64, size: usize) -> (r: Result<
        Held<Bytes>,
        Error,
    >)
        requires
            old(self).wf(),
            old(self)@.ticks < u64::MAX,
        ensures
            final(self).wf(),
            old(self)@.was_read(final(self)@, r, attr, offset, size),
    {
        match attr {
            Some(a) => {
                proof {
                    lemma_handle_of(old(self)@, a.remote_id);
                    lemma_touch(old(self)@, a.remote_id);
                }
                match self.cache.get(&a.remote_id) {
                    Some(h) => {
                        match self.cache.read(h, offset, size) {
                            Ok(Step::Done(bytes)) => {
                                self.cache.release(h);
                                Ok(Held::Done(bytes))
                            },
                            Ok(Step::Wait) => Ok(Held::Wait { handle: h }),
                            Err(e) => {
                                self.cache.release(h);
                                Err(e)
                            },
                        }
                    },
                    None => Err(Error::NotFound),
                }
            },
            None => Err(Error::NotFound),
        }
    }

    /// Writes to the file `attr`. A node that the metadata store does not
    /// know, and a file that is not cached, is `NotFound`. The caller
    /// records the size and time returned in the metadata store.
    pub fn write_file(&mut self, attr: Option<&InodeAttr>, offset: u64, data: &[u8], mtime: u32) -> (r:
        Result<Held<(u64, u32)>, Error>)
        requires
            old(self).wf(),
            old(self)@.has_room(),
        ensures
            final(self).wf(),
            match attr {
                Some(a) => final(self)@ == old(self)@.after_write_file(
                    a.remote_id,
                    offset,
                    data@,
                    mtime,
                ) && r == old(self)@.write_file_result(a.remote_id, offset, data@, mtime),
                None => final(self)@ == old(self)@ && r == Err::<Held<(u64, u32)>, Error>(
                    Error::NotFound,
                ),
            },
    {
        match attr {
            Some(a) => self.cache.write_file(a.remote_id, offset, data, mtime),
            None => Err(Error::NotFound),
        }
    }

    /// Says whether a directory can be made under a name for which a
    /// lookup gave `found`: a name that is taken is `FileExists`.
    pub fn create_dir(found: Option<&InodeAttr>) -> (r: Result<(), Error>)
        ensures
            r == (match found {
                None => Ok::<(), Error>(()),
                Some(_) => Err(Error::FileExists),
            }),
    {
        match found {
            None => Ok(()),
            Some(_) => Err(Error::FileExists),
        }
    }

    /// Says which node goes when the directory that a lookup gave as
    /// `found` is removed; `empty` says whether it has no entries. A name
    /// that is not there is `NotFound`, a directory with entries
    /// `DirectoryNotEmpty`.
    pub fn remove_dir(found: Option<&InodeAttr>, empty: bool) -> (r: Result<u32, Error>)
        ensures
            r == (match found {
                None => Err::<u32, Error>(Error::NotFound),
                Some(attr) => if empty {
                    Ok(attr.ino)
                } else {
                    Err(Error::DirectoryNotEmpty)
                },
            }),
    {
        match found {
            None => Err(Error::NotFound),
            Some(attr) => {
                if empty {
                    Ok(attr.ino)
                } else {
                    Err(Error::DirectoryNotEmpty)
                }
            },
        }
    }

    /// Forgets the file that a lookup gave as `found` and says which node
    /// and which remote message go with it. A name that is not there is
    /// `NotFound`.
    pub fn remove_file(&mut self, found: Option<&InodeAttr>) -> (r: Result<(u32, i32), Error>)
        requires
            old(self).wf(),
        ensures
            final(self).wf(),
            match found {
                Some(attr) => final(self)@ == old(self)@.remove(attr.remote_id) && r == Ok::<
                    (u32, i32),
                    Error,
                >((attr.ino, attr.remote_id)),
                None => final(self)@ == old(self)@ && r == Err::<(u32, i32), Error>(Error::NotFound),
            },
    {
        match found {
            Some(attr) => {
                self.cache.delete(attr.remote_id);
                Ok((attr.ino, attr.remote_id))
            },
            None => Err(Error::NotFound),
        }
    }

    /// Forgets the file that a rename replaced, if it replaced one.
    pub fn rename(&mut self, replaced: Option<i32>)
        requires
            old(self).wf(),
        ensures
            final(self).wf(),
            final(self)@ == (match replaced {
                Some(remote_id) => old(self)@.remove(remote_id),
                None => old(self)@,
            }),
    {
        match replaced {
            Some(remote_id) => {
                self.cache.delete(remote_id);
            },
            None => {},
        }
    }

    /// Sets size and modification time of the file `attr`, as far as each
    /// is given; `now` is the time of the request. A size that differs from
    /// the stored one truncates the file. Returns the new attributes, which
    /// the caller records, and what the truncation asks of the caller. A
    /// node that the metadata store does not know is `NotFound`.
    pub fn set_attr(
        &mut self,
        attr: Option<InodeAttr>,
        size: Option<u64>,
        mtime: Option<u32>,
        now: u32,
    ) -> (r: Result<(InodeAttr, Option<TruncatePlan>), Error>)
        requires
            old(self).wf(),
            old(self)@.ticks < u64::MAX,
            size matches Some(new_size) ==> new_size <= usize::MAX,
        ensures
            final(self).wf(),
            match attr {
                None => final(self)@ == old(self)@ && r == Err::<
                    (InodeAttr, Option<TruncatePlan>),
                    Error,
                >(Error::NotFound),
                Some(a) => match truncation_of(a, size) {
                    Some(new_size) => final(self)@ == old(self)@.after_truncate(
                        a.remote_id,
                        new_size,
                    ) && r == Ok::<(InodeAttr, Option<TruncatePlan>), Error>(
                        (
                            attr_after_set(a, size, mtime, now),
                            Some(old(self)@.truncate_result(a.remote_id, new_size)),
                        ),
                    ),
                    None => final(self)@ == old(self)@ && r == Ok::<
                        (InodeAttr, Option<TruncatePlan>),
                        Error,
                    >((attr_after_set(a, size, mtime, now), None)),
                },
            },
    {
        match attr {
            None => Err(Error::NotFound),
            Some(a) => {
                let mut a = a;
                let mut plan: Option<TruncatePlan> = None;
                let mut truncated = false;
                match size {
                    Some(new_size) => {
                        let low = stored_size(new_size);
                        if a.size != low {
                            a.mtime = match mtime {
                                Some(given) => given,
                                None => now,
                            };
                            a.size = low;
                            plan = Some(self.cache.truncate_file(a.remote_id, new_size));
                            truncated = true;
                        }
                    },
                    None => {},
                }
                if !truncated {
                    match mtime {
                        Some(given) => {
                            a.mtime = given;
                        },
                        None => {},
                    }
                }
                Ok((a, plan))
            },
        }
    }
}

impl CacheState {
    /// Whether `after` and `r` are what a flush of the file `attr` makes of
    /// this cache.
    pub open spec fn flushed(
        self,
        after: CacheState,
        r: Result<FlushStep, Error>,
        attr: Option<&InodeAttr>,
        block: bool,
    ) -> bool {
        match attr {
            Some(a) => after == self.after_flush_file(a.remote_id, block) && (match self.handle_of(
                a.remote_id,
            ) {
                Some(h) => flush_agrees(
                    r,
                    self.entries[h].file.flush_result(block),
                    h,
                    self.entries[h].file,
                ),
                None => r matches Err(Error::NotFound),
            }),
            None => after == self && r matches Err(Error::NotFound),
        }
    }

    /// Whether `after` and `r` are what a read of the file `attr` makes of
    /// this cache.
    pub open spec fn was_read(
        self,
        after: CacheState,
        r: Result<Held<Bytes>, Error>,
        attr: Option<&InodeAttr>,
        offset: u64,
        size: usize,
    ) -> bool {
        match attr {
            Some(a) => match self.handle_of(a.remote_id) {
                Some(h) => match self.entries[h].file.read_result(offset as nat, size as nat) {
                    Ok(Step::Done(bytes)) => after == self.get(a.remote_id).release(h) && (
                    r matches Ok(Held::Done(buffer)) && bytes_view(buffer) == bytes),
                    Ok(Step::Wait) => after == self.get(a.remote_id) && (r matches Ok(
                        Held::Wait { handle },
                    ) && handle == h),
                    Err(e) => after == self.get(a.remote_id).release(h) && (r matches Err(x) && x
                        == e),
                },
                None => after == self && r matches Err(Error::NotFound),
            },
            None => after == self && r matches Err(Error::NotFound),
        }
    }
}

} // verus!
