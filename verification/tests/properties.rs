use bytes::Bytes;
use telegram_fuse::error::Error;
use telegram_fuse::file::FileCache;
use telegram_fuse::state::{DownloadStep, FlushPlan, Status, Step, UploadOutcome};

fn served(r: Result<Step<Bytes>, Error>) -> Vec<u8> {
    match r {
        Ok(Step::Done(bytes)) => bytes.to_vec(),
        other => panic!("not served: {:?}", other),
    }
}

#[test]
fn bytes_read_were_written_there_or_are_zero() {
    let mut entry = FileCache::downloading(1, 8, None);
    assert_eq!(entry.download_chunk(&[11, 12, 13, 14], true), DownloadStep::Continue);
    assert!(entry.truncate(6));
    assert_eq!(entry.download_chunk(&[15, 16, 17, 18], true), DownloadStep::Finished { upload: Some(1) });
    assert_eq!(entry.finish_upload(1, true), UploadOutcome::Committed);
    assert_eq!(entry.write(1, &[21, 22], 1), Ok(Step::Done((6, 1))));
    assert!(entry.truncate(3));
    assert!(entry.truncate(5));
    assert_eq!(entry.write(7, &[31], 2), Ok(Step::Done((8, 2))));
    // 0: chunk, 1..3: write, 3..7: zeros of growth and gap, 7: write
    assert_eq!(served(entry.read(0, 100)), vec![11, 21, 22, 0, 0, 0, 0, 31]);
}

#[test]
fn available_prefix_never_shrinks_while_downloading() {
    let mut entry = FileCache::downloading(1, 100, None);
    let mut last = entry.available();
    for step in 0..20 {
        let chunk = vec![step as u8; step];
        if entry.download_chunk(&chunk, true) != DownloadStep::Continue {
            break;
        }
        assert_eq!(entry.flush(step % 2 == 0), Ok(FlushPlan::WaitDownload));
        assert_eq!(entry.write(0, b"x", 1), Ok(Step::Wait));
        assert!(entry.truncate(100 + step as u64));
        assert_eq!(entry.read(0, 200), Ok(Step::Wait));
        assert!(entry.available() >= last);
        last = entry.available();
    }
    assert_eq!(last, 91);
    assert_eq!(entry.status(), Status::Dirty { epoch: 1, uploading: true });
}

#[test]
fn commit_carries_the_final_content() {
    let mut entry = FileCache::ready_empty(1);
    assert_eq!(entry.write(0, b"first", 1), Ok(Step::Done((5, 1))));
    assert_eq!(entry.flush(false), Ok(FlushPlan::Upload { epoch: 1 }));
    let stale = entry.upload_payload(1).unwrap();
    assert_eq!(entry.write(0, b"second", 2), Ok(Step::Done((6, 2))));
    assert_eq!(entry.finish_upload(1, true), UploadOutcome::Superseded);
    assert_eq!(entry.flush(true), Ok(FlushPlan::Upload { epoch: 2 }));
    let sent = entry.upload_payload(2).unwrap();
    assert_eq!(entry.finish_upload(2, true), UploadOutcome::Committed);
    assert_eq!(entry.status(), Status::Ready);
    assert_eq!(served(entry.read(0, 100)), sent);
    assert_ne!(stale, sent);
}

#[test]
fn round_trip() {
    let written = b"some bytes that travel".to_vec();
    let mut entry = FileCache::ready_empty(1);
    assert_eq!(entry.write(0, &written, 1), Ok(Step::Done((written.len() as u64, 1))));
    assert_eq!(entry.flush(true), Ok(FlushPlan::Upload { epoch: 1 }));
    let sent = entry.upload_payload(1).unwrap();
    assert_eq!(entry.finish_upload(1, true), UploadOutcome::Committed);
    assert_eq!(sent, written);

    let mut reopened = FileCache::downloading(1, sent.len() as u64, None);
    assert_eq!(reopened.download_chunk(&sent[..7], true), DownloadStep::Continue);
    assert_eq!(reopened.download_chunk(&sent[7..9], true), DownloadStep::Continue);
    assert_eq!(reopened.download_chunk(&sent[9..], true), DownloadStep::Finished { upload: None });
    assert_eq!(served(reopened.read(0, usize::MAX)), written);
}

#[test]
fn round_trip_of_an_empty_file_yields_the_placeholder() {
    let mut entry = FileCache::ready_empty(1);
    assert_eq!(entry.write(0, b"", 1), Ok(Step::Done((0, 1))));
    assert_eq!(entry.flush(true), Ok(FlushPlan::Upload { epoch: 1 }));
    let sent = entry.upload_payload(1).unwrap();
    assert_eq!(sent, vec![0]);
    let mut reopened = FileCache::downloading(1, 1, None);
    assert_eq!(reopened.download_chunk(&sent, true), DownloadStep::Finished { upload: None });
    assert_eq!(served(reopened.read(0, usize::MAX)), vec![0]);
}

#[test]
fn second_fsync_sends_nothing() {
    let mut entry = FileCache::ready_empty(1);
    assert_eq!(entry.write(0, b"abc", 1), Ok(Step::Done((3, 1))));
    assert_eq!(entry.flush(true), Ok(FlushPlan::Upload { epoch: 1 }));
    // without the commit in between the upload is waited for, not repeated
    assert_eq!(entry.flush(true), Ok(FlushPlan::WaitUpload { epoch: 1 }));
    assert_eq!(entry.finish_upload(1, true), UploadOutcome::Committed);
    assert_eq!(entry.flush(true), Ok(FlushPlan::Done));
    assert_eq!(entry.flush(true), Ok(FlushPlan::Done));
    assert_eq!(entry.status(), Status::Ready);
}

#[test]
fn truncate_then_read_returns_exactly_that_many_bytes() {
    for n in [0u64, 1, 5, 64] {
        let mut entry = FileCache::ready_empty(1);
        assert_eq!(entry.write(0, b"0123456789", 1), Ok(Step::Done((10, 1))));
        assert!(entry.truncate(n));
        let bytes = served(entry.read(0, usize::MAX));
        assert_eq!(bytes.len() as u64, n);
        let kept = std::cmp::min(n as usize, 10);
        assert_eq!(&bytes[..kept], &b"0123456789"[..kept]);
        assert!(bytes[kept..].iter().all(|b| *b == 0));
    }
}

#[test]
fn truncate_then_read_while_downloading() {
    let mut entry = FileCache::downloading(1, 10, None);
    assert_eq!(entry.download_chunk(&[1, 2, 3, 4], true), DownloadStep::Continue);
    assert!(entry.truncate(3));
    assert_eq!(served(entry.read(0, usize::MAX)), vec![1, 2, 3]);
    assert!(entry.truncate(7));
    // the tail is not valid before the download has settled
    assert_eq!(entry.read(0, usize::MAX), Ok(Step::Wait));
    assert_eq!(entry.download_chunk(&[5], true), DownloadStep::Finished { upload: Some(1) });
    assert_eq!(served(entry.read(0, usize::MAX)).len(), 7);
}

#[test]
fn fresh_epochs_grow() {
    let mut entry = FileCache::ready_empty(1);
    let mut last = 0;
    for round in 0..5u8 {
        assert_eq!(entry.write(0, &[round], 1), Ok(Step::Done((1, 1))));
        let epoch = match entry.status() {
            Status::Dirty { epoch, uploading: false } => epoch,
            other => panic!("not dirty: {:?}", other),
        };
        assert!(epoch > last);
        last = epoch;
        assert_eq!(entry.flush(true), Ok(FlushPlan::Upload { epoch }));
        assert_eq!(entry.finish_upload(epoch, true), UploadOutcome::Committed);
    }
}
