use duplo::actions::{create_new_file, partial_name, CreateOutcome, CreateStep, Status};
use duplo::disksize::Quotas;
use duplo::upload::{upload_admit, Upload, UploadError};

/// Feeds a body to the writer as the server does and returns what was
/// written to the file.
fn receive(upload: &mut Upload, quotas: &mut Quotas, body: &[u8], chunk: usize) -> Vec<u8> {
    let mut file = Vec::new();
    for piece in body.chunks(chunk) {
        let step = upload.on_chunk(quotas, piece);
        file.extend_from_slice(step.data);
        if !step.more {
            break;
        }
    }
    file
}

#[test]
fn upload_error_answers() {
    assert_eq!(UploadError::Multipart.status(), Status::BadRequest);
    assert_eq!(UploadError::Multipart.message(), "Failed to read multipart");
    assert_eq!(UploadError::Filename.status(), Status::BadRequest);
    assert_eq!(UploadError::Filename.message(), "This filename is not allowed");
    assert_eq!(UploadError::QuotaFull.status(), Status::PayloadTooLarge);
    assert_eq!(UploadError::QuotaFull.message(), "Disk storage quota full");
    assert_eq!(UploadError::Create(Status::Conflict).status(), Status::Conflict);
    assert_eq!(UploadError::Create(Status::Conflict).message(), "Failed create a file");
    assert_eq!(UploadError::QuotaHit.status(), Status::PayloadTooLarge);
    assert_eq!(UploadError::QuotaHit.message(), "Disk storage quota exceed");
    assert_eq!(UploadError::Transfer.status(), Status::InternalServerError);
    assert_eq!(UploadError::Transfer.message(), "Failed upload a file");
}

#[test]
fn admission_checks_name_then_budget() {
    let mut q = Quotas::new(5, 100);
    assert_eq!(upload_admit(&q, "a.bin"), Ok(()));
    assert_eq!(upload_admit(&q, "../a.bin"), Err(UploadError::Filename));
    q.bytes.current = 99;
    assert_eq!(upload_admit(&q, "a.bin"), Ok(()));
    q.bytes.current = 100;
    assert_eq!(upload_admit(&q, "a.bin"), Err(UploadError::QuotaFull));
    assert_eq!(upload_admit(&q, "a/b"), Err(UploadError::Filename));
    q.bytes.current = 150;
    assert_eq!(upload_admit(&q, "a.bin"), Err(UploadError::QuotaFull));
}

#[test]
fn body_that_fits_is_stored_whole() {
    let mut q = Quotas::new(5, 100);
    let mut up = Upload::new();
    let body: Vec<u8> = (0..90u8).collect();
    let file = receive(&mut up, &mut q, &body, 40);
    assert_eq!(file, body);
    assert!(!up.quota_hit);
    assert_eq!(up.accepted, 90);
    assert_eq!(q.bytes.get(), 90);
    assert_eq!(up.conclude(true), Ok(()));
    assert_eq!(up.conclude(false), Err(UploadError::Transfer));
}

#[test]
fn body_that_fits_exactly_is_stored_whole() {
    let mut q = Quotas::new(5, 100);
    let mut up = Upload::new();
    let body = vec![7u8; 100];
    let file = receive(&mut up, &mut q, &body, 50);
    assert_eq!(file.len(), 100);
    assert!(!up.quota_hit);
    assert_eq!(q.bytes.get(), 100);
}

#[test]
fn end_to_end_cut_upload() {
    let mut q = Quotas::new(10, 100);
    assert_eq!(upload_admit(&q, "big.bin"), Ok(()));
    let (pending, name) = create_new_file(&mut q, "big.bin").unwrap();
    assert!(matches!(pending.on_outcome(&mut q, "big.bin", CreateOutcome::Created), CreateStep::Opened));

    let body: Vec<u8> = (0..150u8).collect();
    let mut up = Upload::new();
    let mut file: Vec<u8> = Vec::new();
    let mut pieces = body.chunks(40);

    let first = up.on_chunk(&mut q, pieces.next().unwrap());
    assert_eq!(first.data.len(), 40);
    assert!(first.more);
    file.extend_from_slice(first.data);
    assert_eq!(q.bytes.get(), 40);

    let second = up.on_chunk(&mut q, pieces.next().unwrap());
    assert_eq!(second.data.len(), 40);
    assert!(second.more);
    file.extend_from_slice(second.data);
    assert_eq!(q.bytes.get(), 80);

    let third = up.on_chunk(&mut q, pieces.next().unwrap());
    assert_eq!(third.data.len(), 20);
    assert!(!third.more);
    file.extend_from_slice(third.data);
    assert_eq!(q.bytes.get(), 80);
    assert!(up.quota_hit);
    assert_eq!(up.accepted, 80);

    assert_eq!(file.len(), 100);
    assert_eq!(file, body[..100].to_vec());

    let marked = up.settle(&mut q, Some(file.len() as u64), &name);
    assert_eq!(marked, Some("big.bin.partial".to_string()));
    assert_eq!(q.bytes.get(), 100);
    assert_eq!(q.files.get(), 1);
    let end = up.conclude(true);
    assert_eq!(end, Err(UploadError::QuotaHit));
    assert_eq!(end.unwrap_err().status().code(), 413);
    assert_eq!(partial_name(&name), "big.bin.partial");
}

#[test]
fn chunks_after_the_cut_are_dropped() {
    let mut q = Quotas::new(10, 100);
    let mut up = Upload::new();
    assert!(up.on_chunk(&mut q, &[1u8; 60]).more);
    let cut = up.on_chunk(&mut q, &[2u8; 60]);
    assert_eq!(cut.data, &[2u8; 40][..]);
    assert!(!cut.more);
    let late = up.on_chunk(&mut q, &[3u8; 10]);
    assert!(late.data.is_empty());
    assert!(!late.more);
    assert_eq!(q.bytes.get(), 60);
    assert_eq!(up.accepted, 60);
    assert_eq!(up.conclude(false), Err(UploadError::QuotaHit));
}

#[test]
fn chunk_at_zero_remaining_is_discarded() {
    let mut q = Quotas::new(10, 100);
    let mut up = Upload::new();
    let whole = up.on_chunk(&mut q, &[1u8; 100]);
    assert_eq!(whole.data.len(), 100);
    assert!(whole.more);
    assert_eq!(q.bytes.remaining(), 0);
    let next = up.on_chunk(&mut q, &[2u8; 1]);
    assert!(next.data.is_empty());
    assert!(!next.more);
    assert!(up.quota_hit);
    assert_eq!(q.bytes.get(), 100);
    up.reconcile(&mut q, 100);
    assert_eq!(q.bytes.get(), 100);
}

#[test]
fn chunk_is_discarded_when_others_filled_the_pool() {
    let mut q = Quotas::new(10, 100);
    q.bytes.current = 120;
    let mut up = Upload::new();
    let step = up.on_chunk(&mut q, &[1u8; 5]);
    assert!(step.data.is_empty());
    assert!(!step.more);
    assert_eq!(q.bytes.get(), 120);
}

#[test]
fn empty_chunks_are_harmless() {
    let mut q = Quotas::new(10, 100);
    q.bytes.current = 100;
    let mut up = Upload::new();
    let step = up.on_chunk(&mut q, &[]);
    assert!(step.data.is_empty());
    assert!(step.more);
    assert!(!up.quota_hit);
    assert_eq!(q.bytes.get(), 100);
}

#[test]
fn cut_upload_into_a_used_pool() {
    let mut q = Quotas::new(10, 100);
    q.bytes.current = 35;
    q.files.current = 1;
    let mut up = Upload::new();
    let body = vec![9u8; 500];
    let file = receive(&mut up, &mut q, &body, 64);
    assert_eq!(file.len(), 65);
    assert!(up.quota_hit);
    assert_eq!(up.accepted, 64);
    up.reconcile(&mut q, file.len() as u64);
    assert_eq!(q.bytes.get(), 100);
    assert_eq!(q.files.get(), 1);
}

#[test]
fn chunk_that_no_counter_could_hold_is_cut() {
    let mut q = Quotas::new(10, u64::MAX);
    q.bytes.current = u64::MAX - 5;
    let mut up = Upload::new();
    let step = up.on_chunk(&mut q, &[4u8; 10]);
    assert_eq!(step.data, &[4u8; 5][..]);
    assert!(!step.more);
    assert!(up.quota_hit);
    assert_eq!(up.accepted, 0);
    assert_eq!(q.bytes.get(), u64::MAX - 5);
}

#[test]
fn chunks_after_the_cut_need_no_room_in_the_tally() {
    let mut q = Quotas::new(10, 100);
    q.bytes.current = u64::MAX;
    let mut up = Upload { accepted: u64::MAX, quota_hit: true };
    let step = up.on_chunk(&mut q, &[1u8; 3]);
    assert!(step.data.is_empty());
    assert!(!step.more);
    assert_eq!(up.accepted, u64::MAX);
    assert_eq!(q.bytes.get(), u64::MAX);
}

#[test]
fn settle_marks_and_reconciles_a_cut_upload() {
    let mut q = Quotas::new(10, 100);
    q.bytes.current = 80;
    q.files.current = 1;
    let up = Upload { accepted: 80, quota_hit: true };
    assert_eq!(up.settle(&mut q, Some(100), "big.bin"), Some("big.bin.partial".to_string()));
    assert_eq!(q.bytes.get(), 100);
    assert_eq!(q.files.get(), 1);
    let up = Upload { accepted: 80, quota_hit: true };
    assert_eq!(up.settle(&mut q, Some(30), "big.bin.2"), Some("big.bin.2.partial".to_string()));
    assert_eq!(q.bytes.get(), 50);
}

#[test]
fn settle_without_a_length_only_marks() {
    let mut q = Quotas::new(10, 100);
    q.bytes.current = 80;
    let up = Upload { accepted: 80, quota_hit: true };
    assert_eq!(up.settle(&mut q, None, "a"), Some("a.partial".to_string()));
    assert_eq!(q.bytes.get(), 80);
}

#[test]
fn settle_leaves_a_whole_upload_alone() {
    let mut q = Quotas::new(10, 100);
    q.bytes.current = 80;
    let up = Upload { accepted: 80, quota_hit: false };
    assert_eq!(up.settle(&mut q, Some(10), "a"), None);
    assert_eq!(q.bytes.get(), 80);
    assert_eq!(up.settle(&mut q, None, "a"), None);
    assert_eq!(q.bytes.get(), 80);
    assert_eq!(q.files.get(), 0);
}

#[test]
fn reconcile_charges_what_landed_unreserved() {
    let mut q = Quotas::new(10, 100);
    q.bytes.current = 80;
    let up = Upload { accepted: 80, quota_hit: true };
    up.reconcile(&mut q, 100);
    assert_eq!(q.bytes.get(), 100);
}

#[test]
fn reconcile_releases_what_never_landed() {
    let mut q = Quotas::new(10, 100);
    q.bytes.current = 80;
    let up = Upload { accepted: 80, quota_hit: true };
    up.reconcile(&mut q, 50);
    assert_eq!(q.bytes.get(), 50);
}

#[test]
fn reconcile_with_matching_tallies_is_a_no_op() {
    let mut q = Quotas::new(10, 100);
    q.bytes.current = 80;
    let up = Upload { accepted: 80, quota_hit: true };
    up.reconcile(&mut q, 80);
    assert_eq!(q.bytes.get(), 80);
    assert_eq!(q.files.get(), 0);
}

#[test]
fn uploads_and_removals_balance() {
    let mut q = Quotas::new(10, 100);
    let mut disk: Vec<u64> = Vec::new();
    for len in [30usize, 50, 70] {
        if upload_admit(&q, "f").is_err() {
            continue;
        }
        let (pending, _) = create_new_file(&mut q, "f").unwrap();
        assert!(matches!(pending.on_outcome(&mut q, "f", CreateOutcome::Created), CreateStep::Opened));
        let mut up = Upload::new();
        let file = receive(&mut up, &mut q, &vec![0u8; len], 16);
        if up.quota_hit {
            up.reconcile(&mut q, file.len() as u64);
        }
        disk.push(file.len() as u64);
        assert_eq!(q.bytes.get(), disk.iter().sum::<u64>());
        assert_eq!(q.files.get(), disk.len() as u64);
    }
    assert_eq!(disk, vec![30, 50, 20]);
    let gone = disk.remove(1);
    assert!(duplo::actions::remove(&mut q, Some(gone), true).is_ok());
    assert_eq!(q.bytes.get(), disk.iter().sum::<u64>());
    assert_eq!(q.files.get(), disk.len() as u64);
    assert_eq!(q.bytes.get(), 50);
}
