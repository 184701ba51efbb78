//! The durable form of the cache: the serialized snapshot is gzip-framed
//! before upload and unframed after download, and an upload is retried a
//! bounded number of times with exponential backoff.

use vstd::prelude::*;
use vstd::arithmetic::power2::{pow2, lemma_pow2_unfold};

verus! {

/// Uploads of one snapshot are attempted at most this many times.
pub const MAX_UPLOAD_ATTEMPTS: u32 = 3;

/// The gzip stream that flate2's encoder writes for `data`.
pub uninterp spec fn gzip_of(data: Seq<u8>) -> Seq<u8>;

/// What flate2's decoder reads from `data`: the bytes of the gzip stream,
/// or `None` when `data` is not one.
pub uninterp spec fn gunzip_of(data: Seq<u8>) -> Option<Seq<u8>>;

/// Relies on flate2's `write::GzEncoder` with the default level and default
/// header (no name, mtime 0) writing into a `Vec`: the result is the gzip
/// stream of the bytes, and depends on them alone. Writing into a `Vec` does
/// not fail, and neither does compressing into it.
#[verifier::external_body]
fn gzip(data: &Vec<u8>) -> (r: Option<Vec<u8>>)
    ensures
        bytes_option(r) == Some(gzip_of(data@)),
{
    let mut encoder = flate2::write::GzEncoder::new(Vec::new(), flate2::Compression::default());
    match std::io::Write::write_all(&mut encoder, data) {
        Ok(()) => encoder.finish().ok(),
        Err(_) => None,
    }
}

/// Relies on flate2's `read::GzDecoder` read to the end: it yields the bytes
/// that a gzip stream holds, which depend on the input alone, so a stream
/// that `GzEncoder` wrote gives back the bytes written; input that is not a
/// gzip stream fails, as `None`.
#[verifier::external_body]
fn gunzip(data: &Vec<u8>) -> (r: Option<Vec<u8>>)
    ensures
        bytes_option(r) == gunzip_of(data@),
        forall|x: Seq<u8>| data@ == gzip_of(x) ==> bytes_option(r) == Some(x),
{
    let mut out: Vec<u8> = Vec::new();
    match std::io::Read::read_to_end(&mut flate2::read::GzDecoder::new(data.as_slice()), &mut out) {
        Ok(_) => Some(out),
        Err(_) => None,
    }
}

/// A snapshot could not be made durable.
#[derive(Debug, Clone, Copy, PartialEq, Eq)]
pub enum PersistError {
    /// The snapshot could not be serialized.
    Encode,
    /// Every upload attempt failed.
    Upload,
}

/// A snapshot could not be loaded.
#[derive(Debug, Clone, Copy, PartialEq, Eq)]
pub enum LoadError {
    /// No snapshot is stored yet.
    NotFound,
    /// A snapshot is stored but cannot be read back.
    Restore,
}

/// The outcome of loading, given what the decoder made of a stored blob:
/// its bytes, or `Restore` when it could not be decoded.
pub open spec fn restored(decoded: Option<Seq<u8>>) -> Result<Seq<u8>, LoadError> {
    match decoded {
        Some(v) => Ok(v),
        None => Err(LoadError::Restore),
    }
}

/// What unframing a download gives: `NotFound` without a blob, else the
/// outcome of decoding it; a blob that framing wrote gives back the bytes
/// it framed.
pub open spec fn unframe_outcome(blob: Option<Seq<u8>>, r: Result<Seq<u8>, LoadError>) -> bool {
    match blob {
        None => r == Err::<Seq<u8>, LoadError>(LoadError::NotFound),
        Some(b) => {
            &&& r == restored(gunzip_of(b))
            &&& forall|x: Seq<u8>| b == gzip_of(x) ==> r == Ok::<Seq<u8>, LoadError>(x)
        },
    }
}

/// The view of a byte-vector result.
pub open spec fn bytes_result<E>(r: Result<Vec<u8>, E>) -> Result<Seq<u8>, E> {
    match r {
        Ok(v) => Ok(v@),
        Err(e) => Err(e),
    }
}

/// The view of an optional byte vector.
pub open spec fn bytes_option(o: Option<Vec<u8>>) -> Option<Seq<u8>> {
    match o {
        Some(v) => Some(v@),
        None => None,
    }
}

/// Frames a serialized snapshot for upload: its gzip stream.
pub fn frame_snapshot(serialized: &Vec<u8>) -> (r: Vec<u8>)
    ensures
        r@ == gzip_of(serialized@),
{
    match gzip(serialized) {
        Some(z) => z,
        None => Vec::new(),
    }
}

/// The outcome of loading a stored blob, given what the decoder made of it.
pub fn restore_from_decoded(decoded: Option<Vec<u8>>) -> (r: Result<Vec<u8>, LoadError>)
    ensures
        bytes_result(r) == restored(bytes_option(decoded)),
{
    match decoded {
        Some(v) => Ok(v),
        None => Err(LoadError::Restore),
    }
}

/// Unframes a downloaded snapshot; `None` means that nothing was stored.
pub fn unframe_snapshot(blob: Option<Vec<u8>>) -> (r: Result<Vec<u8>, LoadError>)
    ensures
        unframe_outcome(bytes_option(blob), bytes_result(r)),
{
    match blob {
        None => Err(LoadError::NotFound),
        Some(b) => restore_from_decoded(gunzip(&b)),
    }
}

/// Saving then loading gives back what was saved: unframing the framed form
/// of a serialized snapshot yields the same bytes.
pub proof fn lemma_frame_round_trip(serialized: Seq<u8>, loaded: Result<Seq<u8>, LoadError>)
    requires
        unframe_outcome(Some(gzip_of(serialized)), loaded),
    ensures
        loaded == Ok::<Seq<u8>, LoadError>(serialized),
{
}

/// What the upload loop does next.
#[derive(Debug, Clone, Copy, PartialEq, Eq)]
pub enum UploadStep {
    /// The snapshot is stored.
    Done,
    /// Wait this many seconds, then try again.
    RetryAfter(u64),
    /// Give up and report [`PersistError::Upload`].
    GiveUp,
}

/// The decision after an upload attempt, given the failures before it.
pub open spec fn next_step(failures: u32, succeeded: bool) -> UploadStep {
    if succeeded {
        UploadStep::Done
    } else if failures + 1 >= MAX_UPLOAD_ATTEMPTS {
        UploadStep::GiveUp
    } else {
        UploadStep::RetryAfter(pow2((failures + 1) as nat) as u64)
    }
}

/// The retry state of one snapshot upload: how many attempts have failed.
#[derive(Debug)]
pub struct UploadRetry {
    failures: u32,
}

impl View for UploadRetry {
    type V = u32;

    closed spec fn view(&self) -> u32 {
        self.failures
    }
}

impl UploadRetry {
    /// No attempt made yet.
    pub fn new() -> (r: UploadRetry)
        ensures
            r@ == 0,
    {
        UploadRetry { failures: 0 }
    }

    /// Takes the outcome of an attempt and says what comes next: done on
    /// success; after a failure, wait `2^failures` seconds and retry, unless
    /// that was the last allowed attempt. Once given up it stays given up.
    pub fn after_attempt(&mut self, succeeded: bool) -> (r: UploadStep)
        ensures
            r == next_step(old(self)@, succeeded),
            final(self)@ == if succeeded || old(self)@ >= MAX_UPLOAD_ATTEMPTS {
                old(self)@
            } else {
                (old(self)@ + 1) as u32
            },
    {
        if succeeded {
            return UploadStep::Done;
        }
        if self.failures >= MAX_UPLOAD_ATTEMPTS {
            return UploadStep::GiveUp;
        }
        self.failures = self.failures + 1;
        if self.failures >= MAX_UPLOAD_ATTEMPTS {
            return UploadStep::GiveUp;
        }
        proof {
            vstd::arithmetic::power2::lemma2_to64();
        }
        let mut delay: u64 = 1;
        let mut i: u32 = 0;
        while i < self.failures
            invariant
                i <= self.failures < MAX_UPLOAD_ATTEMPTS,
                delay == pow2(i as nat),
                delay <= 4,
            decreases self.failures - i,
        {
            proof {
                lemma_pow2_unfold((i + 1) as nat);
                vstd::arithmetic::power2::lemma2_to64();
            }
            delay = delay * 2;
            i += 1;
        }
        UploadStep::RetryAfter(delay)
    }
}

/// An upload that keeps failing is given up at the last allowed attempt and
/// not before; each earlier failure `k` is followed by a wait of `2^k`
/// seconds. So the loop makes at most [`MAX_UPLOAD_ATTEMPTS`] attempts.
pub proof fn lemma_failures_end_in_give_up(failures: u32)
    requires
        failures < MAX_UPLOAD_ATTEMPTS,
    ensures
        (next_step(failures, false) == UploadStep::GiveUp) == (failures + 1 == MAX_UPLOAD_ATTEMPTS),
        failures + 1 < MAX_UPLOAD_ATTEMPTS ==> next_step(failures, false) == UploadStep::RetryAfter(
            pow2((failures + 1) as nat) as u64,
        ),
{
}

} // verus!
