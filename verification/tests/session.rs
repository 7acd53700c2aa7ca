use goqui::queue::TranscriptQueue;
use goqui::session::complete_batch;
use goqui::session::ingest_datagram;
use goqui::session::listen_setup;
use goqui::session::BatchError;
use goqui::session::SetupError;
use goqui::store::CollectionStore;
use goqui::BATCH_THRESHOLD;

/// A datagram for `speaker` carrying `n` one-byte sub-records.
fn datagram_with(speaker: u64, n: usize, tag_base: u8) -> Vec<u8> {
    let mut data = Vec::new();
    data.extend_from_slice(&speaker.to_le_bytes());
    data.push(6u8);
    for i in 0..n {
        data.extend_from_slice(&1u16.to_le_bytes());
        data.extend_from_slice(&(i as u16).to_le_bytes());
        data.push(tag_base + i as u8);
    }
    data.extend_from_slice(&[0u8; 4]);
    data
}

#[test]
fn three_datagrams_trigger_exactly_one_flush_at_the_sixteenth_sub_frame() {
    let mut store = CollectionStore::new();
    // Three consecutive datagrams for speaker 42, six sub-records each:
    // the batch must flush once the 16th sub-frame is appended, not before.
    assert_eq!(ingest_datagram(&mut store, &datagram_with(42, 6, 0)).len(), 0);
    assert_eq!(ingest_datagram(&mut store, &datagram_with(42, 6, 6)).len(), 0);
    let batches = ingest_datagram(&mut store, &datagram_with(42, 6, 12));
    assert_eq!(batches.len(), 1);
    let batch = &batches[0];
    assert_eq!(batch.len(), BATCH_THRESHOLD);
    for (i, f) in batch.iter().enumerate() {
        assert_eq!(f.bytes[0], i as u8);
    }
}

#[test]
fn short_datagram_leaves_the_store_alone() {
    let mut store = CollectionStore::new();
    assert_eq!(ingest_datagram(&mut store, &vec![1u8, 2, 3]).len(), 0);
    // The fifteen sub-frames below plus one more still make the first batch.
    assert_eq!(ingest_datagram(&mut store, &datagram_with(9, 15, 0)).len(), 0);
    assert_eq!(ingest_datagram(&mut store, &datagram_with(9, 1, 15)).len(), 1);
}

#[test]
fn speakers_do_not_share_batches() {
    let mut store = CollectionStore::new();
    assert_eq!(ingest_datagram(&mut store, &datagram_with(1, 10, 0)).len(), 0);
    assert_eq!(ingest_datagram(&mut store, &datagram_with(2, 10, 0)).len(), 0);
    assert_eq!(ingest_datagram(&mut store, &datagram_with(1, 6, 10)).len(), 1);
    assert_eq!(ingest_datagram(&mut store, &datagram_with(2, 5, 10)).len(), 0);
    assert_eq!(ingest_datagram(&mut store, &datagram_with(2, 1, 15)).len(), 1);
}

#[test]
fn bind_failure_is_a_setup_error() {
    let r = listen_setup(true, false, true, true);
    assert!(matches!(r, Err(SetupError::BindFailed)));
    assert_eq!(r.unwrap_err().describe(), "failed to bind UDP socket");
}

#[test]
fn setup_reports_the_first_failing_step() {
    assert!(matches!(listen_setup(false, true, true, true), Err(SetupError::InvalidModel)));
    assert!(matches!(listen_setup(true, true, false, true), Err(SetupError::ModelCloneFailed)));
    assert!(matches!(
        listen_setup(true, true, true, false),
        Err(SetupError::TimeoutConfigFailed)
    ));
    assert!(listen_setup(true, true, true, true).is_ok());
    assert_eq!(
        SetupError::InvalidModel.describe(),
        "invalid model name"
    );
}

#[test]
fn recognized_text_is_queued_and_failures_are_discarded() {
    let mut queue = TranscriptQueue::new();
    assert!(complete_batch(&mut queue, Ok(String::from("hello there"))));
    assert!(!complete_batch(&mut queue, Err(BatchError::DecodeRejected)));
    assert!(!complete_batch(&mut queue, Err(BatchError::RecognitionFailed)));
    assert!(complete_batch(&mut queue, Ok(String::from("general"))));
    assert_eq!(queue.drain(), vec!["hello there", "general"]);
    assert_eq!(
        BatchError::RecognitionFailed.describe(),
        "internal Coqui computation error"
    );
    assert_eq!(
        BatchError::CombineRejected.describe(),
        "repacketizer rejected the batch"
    );
    assert_eq!(
        BatchError::ModelCloneFailed.describe(),
        "failed to duplicate model"
    );
}

#[test]
fn failed_batches_leave_earlier_transcripts_pending() {
    let mut queue = TranscriptQueue::new();
    assert!(complete_batch(&mut queue, Ok(String::from("kept"))));
    assert!(!complete_batch(&mut queue, Err(BatchError::CombineRejected)));
    assert!(!complete_batch(&mut queue, Err(BatchError::ModelCloneFailed)));
    assert_eq!(queue.pending(), 1);
    assert_eq!(queue.drain(), vec!["kept"]);
}
