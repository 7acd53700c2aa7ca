//! The listener's decisions around the work only the surrounding process
//! can do. Setting a listener up, folding one datagram into the store,
//! and finishing a batch's decode-and-transcribe cycle are decided and
//! verified here; the socket, the codec and the recognition engine stay
//! with the host, which hands their outcomes back as plain values.
use vstd::prelude::*;

use crate::protocol::datagram_frames;
use crate::protocol::datagram_speaker;
use crate::protocol::parse_datagram;
use crate::protocol::SubFrame;
use crate::queue::TranscriptQueue;
use crate::store::batch_views;
use crate::store::ingested;
use crate::store::CollectionStore;
use crate::BATCH_THRESHOLD;
use crate::HEADER_SIZE;
use crate::MAX_DATAGRAM_LEN;

verus! {

/// A failure that ends a listen request before its receive loop starts.
/// Everything after setup is handled by discarding, never by stopping.
pub enum SetupError {
    /// No recognition model is registered under the requested name.
    InvalidModel,
    /// The datagram socket could not be bound to the requested address.
    BindFailed,
    /// A fresh engine instance could not be opened for this listener.
    ModelCloneFailed,
    /// The socket would not let its receive timeout be disabled.
    TimeoutConfigFailed,
}

impl SetupError {
    /// The message reported to the caller of the listen request.
    pub fn describe(&self) -> (r: &'static str)
        ensures
            r@ == match *self {
                SetupError::InvalidModel => "invalid model name"@,
                SetupError::BindFailed => "failed to bind UDP socket"@,
                SetupError::ModelCloneFailed => "failed to duplicate model"@,
                SetupError::TimeoutConfigFailed => "failed to disable read timeout on UDP socket"@,
            },
    {
        match self {
            SetupError::InvalidModel => "invalid model name",
            SetupError::BindFailed => "failed to bind UDP socket",
            SetupError::ModelCloneFailed => "failed to duplicate model",
            SetupError::TimeoutConfigFailed => "failed to disable read timeout on UDP socket",
        }
    }
}

/// A failure inside one batch's decode-and-transcribe cycle. The batch
/// is discarded, nothing is queued, and the receive loop goes on.
pub enum BatchError {
    /// The repacketizer rejected the merged batch as malformed.
    CombineRejected,
    /// The codec rejected the merged packet as corrupted.
    DecodeRejected,
    /// No fresh engine instance could be opened for this batch.
    ModelCloneFailed,
    /// The recognition engine failed while computing the transcript.
    RecognitionFailed,
}

impl BatchError {
    /// The wording of this failure, for the host's logging.
    pub fn describe(&self) -> (r: &'static str)
        ensures
            r@ == match *self {
                BatchError::CombineRejected => "repacketizer rejected the batch"@,
                BatchError::DecodeRejected => "decoder rejected the merged packet"@,
                BatchError::ModelCloneFailed => "failed to duplicate model"@,
                BatchError::RecognitionFailed => "internal Coqui computation error"@,
            },
    {
        match self {
            BatchError::CombineRejected => "repacketizer rejected the batch",
            BatchError::DecodeRejected => "decoder rejected the merged packet",
            BatchError::ModelCloneFailed => "failed to duplicate model",
            BatchError::RecognitionFailed => "internal Coqui computation error",
        }
    }
}

/// The setup decision of a listen request, from the outcome of each
/// step the host performed in order: the model lookup, the socket bind,
/// the engine clone, the timeout configuration. The request succeeds
/// exactly when every step did; otherwise the first failure is the
/// error, and the host must not start a receive loop.
pub fn listen_setup(model_known: bool, bind_ok: bool, clone_ok: bool, timeout_ok: bool) -> (r:
    Result<(), SetupError>)
    ensures
        r is Ok <==> model_known && bind_ok && clone_ok && timeout_ok,
        !model_known ==> r == Result::<(), SetupError>::Err(SetupError::InvalidModel),
        model_known && !bind_ok ==> r == Result::<(), SetupError>::Err(SetupError::BindFailed),
        model_known && bind_ok && !clone_ok ==> r == Result::<(), SetupError>::Err(
            SetupError::ModelCloneFailed,
        ),
        model_known && bind_ok && clone_ok && !timeout_ok ==> r == Result::<(), SetupError>::Err(
            SetupError::TimeoutConfigFailed,
        ),
{
    if !model_known {
        Err(SetupError::InvalidModel)
    } else if !bind_ok {
        Err(SetupError::BindFailed)
    } else if !clone_ok {
        Err(SetupError::ModelCloneFailed)
    } else if !timeout_ok {
        Err(SetupError::TimeoutConfigFailed)
    } else {
        Ok(())
    }
}

/// Folds one received datagram into the store: parses it, appends its
/// sub-frames to the sender's collection in wire order, and hands back
/// every batch that filled. A datagram too short to carry a speaker key
/// changes nothing; each returned batch is ready for repacketization.
pub fn ingest_datagram(store: &mut CollectionStore, data: &Vec<u8>) -> (batches: Vec<Vec<SubFrame>>)
    requires
        old(store).wf(),
        data.len() <= MAX_DATAGRAM_LEN,
    ensures
        final(store).wf(),
        data.len() >= HEADER_SIZE ==> {
            let speaker = datagram_speaker(data@) as u64;
            let frames = datagram_frames(data@);
            &&& final(store)@ == ingested(old(store)@, speaker, frames).0
            &&& batch_views(batches@) == ingested(old(store)@, speaker, frames).1
        },
        data.len() < HEADER_SIZE ==> final(store)@ == old(store)@ && batches@.len() == 0,
        forall|i: int|
            0 <= i < batches@.len() ==> (#[trigger] batches@[i])@.len() == BATCH_THRESHOLD,
        forall|i: int, j: int|
            0 <= i < batches@.len() && 0 <= j < (#[trigger] batches@[i])@.len() ==> (
            #[trigger] batches@[i]@[j]).wf(),
{
    match parse_datagram(data) {
        Some(parsed) => store.append_all(parsed.speaker, parsed.frames),
        None => Vec::new(),
    }
}

/// Finishes one batch's cycle with the outcome of the outside work the
/// host performed on it. A recognized transcript is queued at the tail;
/// any failure discards the batch and leaves the queue untouched.
pub fn complete_batch(queue: &mut TranscriptQueue, outcome: Result<String, BatchError>) -> (queued:
    bool)
    ensures
        match outcome {
            Ok(text) => queued && final(queue)@ == old(queue)@.push(text),
            Err(_) => !queued && final(queue)@ == old(queue)@,
        },
{
    match outcome {
        Ok(text) => {
            queue.push(text);
            true
        },
        Err(_) => false,
    }
}

} // verus!
