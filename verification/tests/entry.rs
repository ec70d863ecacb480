use bytes::Bytes;
use telegram_fuse::backing::BackingFile;
use telegram_fuse::error::Error;
use telegram_fuse::file::FileCache;
use telegram_fuse::state::{DownloadStep, FlushPlan, Status, Step, UploadOutcome};

fn served(r: Result<Step<Bytes>, Error>) -> Vec<u8> {
    match r {
        Ok(Step::Done(bytes)) => bytes.to_vec(),
        other => panic!("not served: {:?}", other),
    }
}

#[test]
fn backing_file_starts_empty() {
    let file = BackingFile::new();
    assert_eq!(file.len(), 0);
}

#[test]
fn backing_file_write_then_read() {
    let mut file = BackingFile::new();
    assert_eq!(file.write_all_at(0, b"hello world"), Ok(()));
    assert_eq!(file.len(), 11);
    assert_eq!(file.read_exact_at(6, 5), b"world".to_vec());
    assert_eq!(file.write_all_at(6, b"there"), Ok(()));
    assert_eq!(file.read_exact_at(0, 11), b"hello there".to_vec());
}

#[test]
fn backing_file_write_past_end_fills_the_gap_with_zeros() {
    let mut file = BackingFile::new();
    assert_eq!(file.write_all_at(0, b"ab"), Ok(()));
    assert_eq!(file.write_all_at(5, b"cd"), Ok(()));
    assert_eq!(file.len(), 7);
    assert_eq!(file.read_exact_at(0, 7), vec![b'a', b'b', 0, 0, 0, b'c', b'd']);
}

#[test]
fn backing_file_set_len_cuts_and_zero_fills() {
    let mut file = BackingFile::new();
    assert_eq!(file.write_all_at(0, b"abcdef"), Ok(()));
    file.set_len(3);
    assert_eq!(file.len(), 3);
    assert_eq!(file.read_exact_at(0, 3), b"abc".to_vec());
    file.set_len(6);
    assert_eq!(file.read_exact_at(0, 6), vec![b'a', b'b', b'c', 0, 0, 0]);
}

#[test]
fn backing_file_refuses_what_it_cannot_address() {
    let mut file = BackingFile::new();
    assert_eq!(file.write_all_at(0, b"abc"), Ok(()));
    assert_eq!(file.write_all_at(u64::MAX, b"x"), Err(Error::Io));
    assert_eq!(file.write_all_at(u64::MAX - 1, b"xyz"), Err(Error::Io));
    assert_eq!(file.len(), 3);
    assert_eq!(file.read_exact_at(0, 3), b"abc".to_vec());
}

#[test]
fn new_entry_is_ready_and_empty() {
    let entry = FileCache::ready_empty(9);
    assert_eq!(entry.remote_id(), 9);
    assert_eq!(entry.size(), 0);
    assert_eq!(entry.available(), 0);
    assert_eq!(entry.status(), Status::Ready);
    assert!(entry.can_stamp());
}

#[test]
fn downloading_entry_is_sized_and_zeroed() {
    let mut entry = FileCache::downloading(9, 4, None);
    assert_eq!(entry.size(), 4);
    assert_eq!(entry.available(), 0);
    assert_eq!(entry.status(), Status::Downloading { truncate_to: None });
    // a held download that gets nothing at all leaves zeros behind a cap of 0
    assert!(entry.truncate(4));
    assert_eq!(entry.status(), Status::Downloading { truncate_to: Some(4) });
}

#[test]
fn read_returns_at_most_what_is_there() {
    let mut entry = FileCache::ready_empty(1);
    assert_eq!(entry.write(0, b"0123456789", 5), Ok(Step::Done((10, 5))));
    assert_eq!(served(entry.read(0, 4)), b"0123".to_vec());
    assert_eq!(served(entry.read(8, 100)), b"89".to_vec());
    assert_eq!(served(entry.read(0, usize::MAX)), b"0123456789".to_vec());
}

#[test]
fn read_past_the_end_is_empty() {
    let mut entry = FileCache::ready_empty(1);
    assert_eq!(entry.write(0, b"abc", 5), Ok(Step::Done((3, 5))));
    assert_eq!(served(entry.read(3, 10)), Vec::<u8>::new());
    assert_eq!(served(entry.read(1000, 10)), Vec::<u8>::new());
    assert_eq!(served(entry.read(u64::MAX, usize::MAX)), Vec::<u8>::new());
    assert_eq!(served(entry.read(0, 0)), Vec::<u8>::new());
}

#[test]
fn read_of_nothing_is_empty_whatever_the_status() {
    let mut entry = FileCache::downloading(1, 4, None);
    entry.download_error();
    assert_eq!(entry.status(), Status::DownloadFailed);
    assert_eq!(served(entry.read(0, 0)), Vec::<u8>::new());
    assert_eq!(served(entry.read(4, 1)), Vec::<u8>::new());
    assert_eq!(entry.read(0, 1), Err(Error::DownloadFailed));
}

#[test]
fn write_makes_a_ready_entry_dirty() {
    let mut entry = FileCache::ready_empty(1);
    assert_eq!(entry.write(0, b"ab", 77), Ok(Step::Done((2, 77))));
    assert_eq!(entry.status(), Status::Dirty { epoch: 1, uploading: false });
    // a further write keeps the epoch while no upload runs
    assert_eq!(entry.write(2, b"cd", 78), Ok(Step::Done((4, 78))));
    assert_eq!(entry.status(), Status::Dirty { epoch: 1, uploading: false });
    assert_eq!(served(entry.read(0, 4)), b"abcd".to_vec());
}

#[test]
fn write_inside_keeps_the_size() {
    let mut entry = FileCache::ready_empty(1);
    assert_eq!(entry.write(0, b"abcdef", 1), Ok(Step::Done((6, 1))));
    assert_eq!(entry.write(2, b"XY", 2), Ok(Step::Done((6, 2))));
    assert_eq!(served(entry.read(0, 6)), b"abXYef".to_vec());
}

#[test]
fn later_write_wins_where_writes_overlap() {
    let mut entry = FileCache::ready_empty(1);
    assert_eq!(entry.write(0, b"aaaa", 1), Ok(Step::Done((4, 1))));
    assert_eq!(entry.write(2, b"bbbb", 2), Ok(Step::Done((6, 2))));
    assert_eq!(served(entry.read(0, 6)), b"aabbbb".to_vec());
}

#[test]
fn write_beyond_the_end_leaves_zeros() {
    let mut entry = FileCache::ready_empty(1);
    assert_eq!(entry.write(4, b"zz", 1), Ok(Step::Done((6, 1))));
    assert_eq!(served(entry.read(0, 6)), vec![0, 0, 0, 0, b'z', b'z']);
}

#[test]
fn empty_write_beyond_the_end_grows_the_file() {
    let mut entry = FileCache::ready_empty(1);
    assert_eq!(entry.write(3, b"", 1), Ok(Step::Done((3, 1))));
    assert_eq!(served(entry.read(0, 10)), vec![0, 0, 0]);
}

#[test]
fn write_that_cannot_be_addressed_is_io_and_leaves_the_entry_dirty() {
    let mut entry = FileCache::ready_empty(1);
    assert_eq!(entry.write(u64::MAX, b"x", 1), Err(Error::Io));
    assert_eq!(entry.size(), 0);
    assert_eq!(entry.status(), Status::Dirty { epoch: 1, uploading: false });
}

#[test]
fn write_waits_for_the_download_wherever_it_falls() {
    let mut entry = FileCache::downloading(1, 10, None);
    assert_eq!(entry.download_chunk(&[1, 2, 3, 4, 5], true), DownloadStep::Continue);
    assert_eq!(entry.write(0, b"x", 1), Ok(Step::Wait));
    assert_eq!(entry.write(100, b"x", 1), Ok(Step::Wait));
    assert_eq!(entry.size(), 10);
    assert_eq!(entry.download_chunk(&[6, 7, 8, 9, 10], true), DownloadStep::Finished { upload: None });
    assert_eq!(entry.write(0, b"x", 1), Ok(Step::Done((10, 1))));
    assert_eq!(entry.status(), Status::Dirty { epoch: 1, uploading: false });
    assert_eq!(served(entry.read(0, 3)), vec![b'x', 2, 3]);
}

#[test]
fn failed_and_superseded_entries_refuse_reads_and_writes() {
    let mut failed = FileCache::downloading(1, 10, None);
    assert_eq!(failed.download_end(), DownloadStep::Failed);
    assert_eq!(failed.status(), Status::DownloadFailed);
    assert_eq!(failed.read(0, 1), Err(Error::DownloadFailed));
    assert_eq!(failed.write(0, b"x", 1), Err(Error::DownloadFailed));
    assert_eq!(failed.flush(true), Err(Error::DownloadFailed));

    let mut gone = FileCache::ready_empty(2);
    assert_eq!(gone.write(0, b"abc", 1), Ok(Step::Done((3, 1))));
    gone.invalidate();
    assert_eq!(gone.status(), Status::Invalidated);
    assert_eq!(gone.read(0, 1), Err(Error::Invalidated));
    assert_eq!(gone.write(0, b"x", 1), Err(Error::Invalidated));
    assert_eq!(gone.flush(true), Ok(FlushPlan::Done));
}

#[test]
fn superseded_is_final() {
    let mut entry = FileCache::downloading(1, 4, None);
    entry.invalidate();
    assert_eq!(entry.download_chunk(&[1, 2, 3, 4], true), DownloadStep::Abort);
    assert_eq!(entry.status(), Status::Invalidated);
    assert_eq!(entry.download_end(), DownloadStep::Abort);
    assert_eq!(entry.status(), Status::Invalidated);
    entry.download_error();
    assert_eq!(entry.status(), Status::Invalidated);
    assert!(!entry.truncate(2));
    assert_eq!(entry.status(), Status::Invalidated);
    assert_eq!(entry.size(), 4);
    assert_eq!(entry.finish_upload(1, true), UploadOutcome::Superseded);
    assert_eq!(entry.status(), Status::Invalidated);
}

#[test]
fn chunks_fill_the_prefix_in_order() {
    let mut entry = FileCache::downloading(1, 6, None);
    assert_eq!(entry.download_chunk(&[1, 2], true), DownloadStep::Continue);
    assert_eq!(entry.available(), 2);
    assert_eq!(served(entry.read(0, 2)), vec![1, 2]);
    assert_eq!(entry.read(0, 3), Ok(Step::Wait));
    assert_eq!(entry.download_chunk(&[], true), DownloadStep::Continue);
    assert_eq!(entry.available(), 2);
    assert_eq!(entry.download_chunk(&[3, 4, 5], true), DownloadStep::Continue);
    assert_eq!(entry.available(), 5);
    assert_eq!(entry.download_chunk(&[6, 7, 8], true), DownloadStep::Finished { upload: None });
    assert_eq!(entry.available(), 6);
    assert_eq!(entry.size(), 6);
    assert_eq!(served(entry.read(0, 100)), vec![1, 2, 3, 4, 5, 6]);
    assert_eq!(entry.status(), Status::Ready);
}

#[test]
fn download_nobody_holds_stops_unless_a_truncation_is_pending() {
    let mut plain = FileCache::downloading(1, 6, None);
    assert_eq!(plain.download_chunk(&[1, 2], false), DownloadStep::Abort);
    assert_eq!(plain.available(), 0);
    assert_eq!(plain.status(), Status::Downloading { truncate_to: None });

    let mut capped = FileCache::downloading(1, 6, Some(4));
    assert_eq!(capped.download_chunk(&[1, 2], false), DownloadStep::Continue);
    assert_eq!(capped.available(), 2);
}

#[test]
fn stream_that_ends_early_fails_the_entry() {
    let mut entry = FileCache::downloading(1, 6, None);
    assert_eq!(entry.download_chunk(&[1, 2], true), DownloadStep::Continue);
    assert_eq!(entry.download_end(), DownloadStep::Failed);
    assert_eq!(entry.status(), Status::DownloadFailed);
}

#[test]
fn stream_that_breaks_fails_the_entry() {
    let mut entry = FileCache::downloading(1, 6, None);
    entry.download_error();
    assert_eq!(entry.status(), Status::DownloadFailed);
    let mut ready = FileCache::ready_empty(1);
    ready.download_error();
    assert_eq!(ready.status(), Status::Ready);
}

#[test]
fn stream_end_completes_a_download_that_misses_nothing() {
    let mut empty = FileCache::downloading(1, 0, None);
    assert_eq!(empty.download_end(), DownloadStep::Finished { upload: None });
    assert_eq!(empty.status(), Status::Ready);

    // the file was set to more than the remote side has
    let mut grown = FileCache::downloading(1, 3, None);
    assert!(grown.truncate(5));
    assert_eq!(grown.status(), Status::Downloading { truncate_to: Some(3) });
    assert_eq!(grown.download_chunk(&[1, 2], true), DownloadStep::Continue);
    assert_eq!(grown.download_chunk(&[3], true), DownloadStep::Finished { upload: Some(1) });
    assert_eq!(grown.status(), Status::Dirty { epoch: 1, uploading: true });
    assert_eq!(grown.upload_payload(1), Some(vec![1, 2, 3, 0, 0]));
}

#[test]
fn truncate_while_downloading_caps_the_download() {
    let mut entry = FileCache::downloading(1, 1000, None);
    assert!(entry.truncate(2000));
    assert_eq!(entry.status(), Status::Downloading { truncate_to: Some(1000) });
    assert_eq!(entry.size(), 2000);
    assert!(entry.truncate(300));
    assert_eq!(entry.status(), Status::Downloading { truncate_to: Some(300) });
    assert_eq!(entry.size(), 300);
    assert!(entry.truncate(500));
    assert_eq!(entry.status(), Status::Downloading { truncate_to: Some(300) });
    assert_eq!(entry.size(), 500);
}

#[test]
fn truncate_below_the_prefix_cuts_the_prefix() {
    let mut entry = FileCache::downloading(1, 10, None);
    assert_eq!(entry.download_chunk(&[1, 2, 3, 4, 5, 6], true), DownloadStep::Continue);
    assert_eq!(entry.available(), 6);
    assert!(entry.truncate(4));
    assert_eq!(entry.available(), 4);
    assert_eq!(entry.size(), 4);
    assert_eq!(served(entry.read(0, 10)), vec![1, 2, 3, 4]);
    // growing again shows zeros, not what was cut
    assert!(entry.truncate(8));
    assert_eq!(entry.download_chunk(&[7, 8], false), DownloadStep::Finished { upload: Some(1) });
    assert_eq!(served(entry.read(0, 10)), vec![1, 2, 3, 4, 0, 0, 0, 0]);
}

#[test]
fn truncate_makes_a_serviceable_entry_dirty() {
    let mut entry = FileCache::ready_empty(1);
    assert!(entry.truncate(3));
    assert_eq!(entry.status(), Status::Dirty { epoch: 1, uploading: false });
    assert_eq!(served(entry.read(0, 10)), vec![0, 0, 0]);
    assert!(entry.truncate(1));
    assert_eq!(entry.status(), Status::Dirty { epoch: 1, uploading: false });
    assert_eq!(entry.size(), 1);
}

#[test]
fn truncate_is_not_carried_out_on_a_failed_entry() {
    let mut entry = FileCache::downloading(1, 6, None);
    entry.download_error();
    assert!(!entry.truncate(2));
    assert_eq!(entry.size(), 6);
    assert_eq!(entry.status(), Status::DownloadFailed);
}

#[test]
fn flush_plans() {
    let mut entry = FileCache::ready_empty(1);
    assert_eq!(entry.flush(false), Ok(FlushPlan::Done));
    assert_eq!(entry.flush(true), Ok(FlushPlan::Done));
    assert_eq!(entry.write(0, b"abc", 1), Ok(Step::Done((3, 1))));
    assert_eq!(entry.flush(false), Ok(FlushPlan::Upload { epoch: 1 }));
    assert_eq!(entry.status(), Status::Dirty { epoch: 1, uploading: true });
    assert_eq!(entry.flush(false), Ok(FlushPlan::Done));
    assert_eq!(entry.flush(true), Ok(FlushPlan::WaitUpload { epoch: 1 }));

    let mut loading = FileCache::downloading(2, 4, None);
    assert_eq!(loading.flush(false), Ok(FlushPlan::WaitDownload));
    assert_eq!(loading.flush(true), Ok(FlushPlan::WaitDownload));
}

#[test]
fn upload_payload_is_the_content_or_one_zero_byte() {
    let mut entry = FileCache::ready_empty(1);
    assert_eq!(entry.upload_payload(1), None);
    assert!(entry.truncate(0));
    assert_eq!(entry.upload_payload(1), None);
    assert_eq!(entry.flush(true), Ok(FlushPlan::Upload { epoch: 1 }));
    assert_eq!(entry.upload_payload(1), Some(vec![0]));
    assert_eq!(entry.upload_payload(2), None);
    assert_eq!(entry.finish_upload(1, true), UploadOutcome::Committed);
    assert_eq!(entry.upload_payload(1), None);

    assert_eq!(entry.write(0, b"abc", 1), Ok(Step::Done((3, 1))));
    assert_eq!(entry.flush(true), Ok(FlushPlan::Upload { epoch: 2 }));
    assert_eq!(entry.upload_payload(2), Some(b"abc".to_vec()));
}

#[test]
fn failed_upload_leaves_the_entry_dirty_for_a_retry() {
    let mut entry = FileCache::ready_empty(1);
    assert_eq!(entry.write(0, b"abc", 1), Ok(Step::Done((3, 1))));
    assert_eq!(entry.flush(true), Ok(FlushPlan::Upload { epoch: 1 }));
    assert_eq!(entry.finish_upload(1, false), UploadOutcome::Failed);
    assert_eq!(entry.status(), Status::Dirty { epoch: 1, uploading: false });
    assert_eq!(served(entry.read(0, 3)), b"abc".to_vec());
    assert_eq!(entry.flush(true), Ok(FlushPlan::Upload { epoch: 1 }));
    assert_eq!(entry.finish_upload(1, true), UploadOutcome::Committed);
    assert_eq!(entry.status(), Status::Ready);
}

#[test]
fn truncate_during_an_upload_supersedes_it() {
    let mut entry = FileCache::ready_empty(1);
    assert_eq!(entry.write(0, b"abcdef", 1), Ok(Step::Done((6, 1))));
    assert_eq!(entry.flush(false), Ok(FlushPlan::Upload { epoch: 1 }));
    assert!(entry.truncate(2));
    assert_eq!(entry.status(), Status::Dirty { epoch: 2, uploading: false });
    assert_eq!(entry.finish_upload(1, true), UploadOutcome::Superseded);
    assert_eq!(entry.status(), Status::Dirty { epoch: 2, uploading: false });
    assert_eq!(entry.flush(true), Ok(FlushPlan::Upload { epoch: 2 }));
    assert_eq!(entry.upload_payload(2), Some(b"ab".to_vec()));
}

#[test]
fn end_of_an_unknown_upload_changes_nothing() {
    let mut entry = FileCache::ready_empty(1);
    assert_eq!(entry.finish_upload(1, true), UploadOutcome::Superseded);
    assert_eq!(entry.status(), Status::Ready);
    assert_eq!(entry.write(0, b"a", 1), Ok(Step::Done((1, 1))));
    // dirty, but no upload was started
    assert_eq!(entry.finish_upload(1, true), UploadOutcome::Superseded);
    assert_eq!(entry.status(), Status::Dirty { epoch: 1, uploading: false });
    let mut loading = FileCache::downloading(2, 4, None);
    assert_eq!(loading.finish_upload(1, true), UploadOutcome::Superseded);
    assert_eq!(loading.status(), Status::Downloading { truncate_to: None });
}
