//! Streaming ingestion: admitting a body chunk by chunk against the byte
//! budget, cutting it where the budget ends, and squaring the counter with
//! what reached the disk.

use vstd::prelude::*;
use vstd::slice::slice_subrange;
use crate::actions::{allowed_filename, is_allowed_filename, partial_name, Status};
use crate::disksize::{QuotaCounter, Quotas};

verus! {

/// Why an upload request was refused.
#[derive(Clone, Copy, PartialEq, Eq, Structural, Debug)]
pub enum UploadError {
    /// The multipart body could not be read.
    Multipart,
    /// The file name has a parent reference or a separator in it.
    Filename,
    /// The byte budget was used up before the file began.
    QuotaFull,
    /// No file could be created, for the reason given.
    Create(Status),
    /// The byte budget ran out while the file was being received.
    QuotaHit,
    /// The body broke off or could not be written.
    Transfer,
}

impl UploadError {
    /// The status the refusal is answered with.
    pub open spec fn spec_status(self) -> Status {
        match self {
            UploadError::Multipart => Status::BadRequest,
            UploadError::Filename => Status::BadRequest,
            UploadError::QuotaFull => Status::PayloadTooLarge,
            UploadError::Create(status) => status,
            UploadError::QuotaHit => Status::PayloadTooLarge,
            UploadError::Transfer => Status::InternalServerError,
        }
    }

    /// The text the refusal is answered with.
    pub open spec fn spec_message(self) -> Seq<char> {
        match self {
            UploadError::Multipart => "Failed to read multipart"@,
            UploadError::Filename => "This filename is not allowed"@,
            UploadError::QuotaFull => "Disk storage quota full"@,
            UploadError::Create(_) => "Failed create a file"@,
            UploadError::QuotaHit => "Disk storage quota exceed"@,
            UploadError::Transfer => "Failed upload a file"@,
        }
    }

    /// The status sent back.
    #[verifier::when_used_as_spec(spec_status)]
    pub fn status(self) -> (status: Status)
        ensures
            status == self.spec_status(),
    {
        match self {
            UploadError::Multipart => Status::BadRequest,
            UploadError::Filename => Status::BadRequest,
            UploadError::QuotaFull => Status::PayloadTooLarge,
            UploadError::Create(status) => status,
            UploadError::QuotaHit => Status::PayloadTooLarge,
            UploadError::Transfer => Status::InternalServerError,
        }
    }

    /// The text sent back with the status.
    pub fn message(self) -> (text: &'static str)
        ensures
            text@ == self.spec_message(),
    {
        match self {
            UploadError::Multipart => "Failed to read multipart",
            UploadError::Filename => "This filename is not allowed",
            UploadError::QuotaFull => "Disk storage quota full",
            UploadError::Create(_) => "Failed create a file",
            UploadError::QuotaHit => "Disk storage quota exceed",
            UploadError::Transfer => "Failed upload a file",
        }
    }
}

/// Why a file of this name cannot be begun, if it cannot.
pub open spec fn upload_refusal(quotas: Quotas, filename: Seq<char>) -> Option<UploadError> {
    if !is_allowed_filename(filename) {
        Some(UploadError::Filename)
    } else if quotas.bytes.exceeded() {
        Some(UploadError::QuotaFull)
    } else {
        None
    }
}

/// Decides, before anything is reserved or created, whether a file of this
/// name may be received: the name must be allowed, and the byte budget must
/// not be used up already.
pub fn upload_admit(quotas: &Quotas, filename: &str) -> (admitted: Result<(), UploadError>)
    ensures
        admitted == match upload_refusal(*quotas, filename@) {
            Some(refusal) => Err::<(), UploadError>(refusal),
            None => Ok::<(), UploadError>(()),
        },
{
    if !allowed_filename(filename) {
        return Err(UploadError::Filename);
    }
    if quotas.bytes.is_exceed() {
        return Err(UploadError::QuotaFull);
    }
    Ok(())
}

/// The record of one streamed upload while it is in flight.
pub struct Upload {
    /// Total length of the chunks admitted in full so far. Kept apart from
    /// the pool's counter, which other requests move as well.
    pub accepted: u64,
    /// Set once a chunk did not fit; nothing is reserved after that.
    pub quota_hit: bool,
}

/// What to do with a chunk that has just arrived.
pub struct Admitted<'a> {
    /// The bytes to write to the file, a prefix of the chunk, possibly empty.
    pub data: &'a [u8],
    /// Whether to ask the source for another chunk.
    pub more: bool,
}

impl Upload {
    /// The chunk is reserved and written whole.
    pub open spec fn admits(self, bytes: QuotaCounter, len: u64) -> bool {
        !self.quota_hit && !bytes.overflows_with(len)
    }

    /// How many bytes of a chunk of `len` bytes go to the file: all of them
    /// while the budget holds, what is left of the budget for the chunk that
    /// breaks it, and nothing afterwards.
    pub open spec fn written_of(self, bytes: QuotaCounter, len: u64) -> nat {
        if self.quota_hit {
            0
        } else if bytes.overflows_with(len) {
            bytes.headroom()
        } else {
            len as nat
        }
    }

    /// The record after a chunk of `len` bytes.
    pub open spec fn after_chunk(self, bytes: QuotaCounter, len: u64) -> Upload {
        if self.admits(bytes, len) {
            Upload { accepted: (self.accepted + len) as u64, quota_hit: false }
        } else {
            Upload { accepted: self.accepted, quota_hit: true }
        }
    }

    /// The byte counter after a chunk of `len` bytes: charged if the chunk is
    /// admitted, as it was if the reservation had to be rolled back.
    pub open spec fn counter_after_chunk(self, bytes: QuotaCounter, len: u64) -> QuotaCounter {
        if self.admits(bytes, len) {
            bytes.bumped(len)
        } else {
            bytes
        }
    }

    /// The byte counter once the tally has been squared with `actual_len`
    /// bytes found on disk.
    pub open spec fn reconciled(self, bytes: QuotaCounter, actual_len: u64) -> QuotaCounter {
        if actual_len > self.accepted {
            bytes.bumped((actual_len - self.accepted) as u64)
        } else if self.accepted > actual_len {
            bytes.reduced((self.accepted - actual_len) as u64)
        } else {
            bytes
        }
    }

    /// The record of an upload of which no chunk has arrived yet.
    pub fn new() -> (upload: Upload)
        ensures
            upload == (Upload { accepted: 0, quota_hit: false }),
    {
        Upload { accepted: 0, quota_hit: false }
    }

    /// Takes one chunk of the body. While the budget holds, the chunk is
    /// reserved in the byte counter, added to the tally and handed back whole.
    /// The first chunk that does not fit has its reservation rolled back and
    /// sets the flag; it is cut to what the budget still holds, and those
    /// bytes are left out of the counter until `reconcile`. After that every
    /// chunk is dropped.
    pub fn on_chunk<'a>(&mut self, quotas: &mut Quotas, chunk: &'a [u8]) -> (step: Admitted<'a>)
        requires
            old(self).admits(old(quotas).bytes, chunk@.len() as u64) ==> old(self).accepted
                + chunk@.len() <= u64::MAX,
        ensures
            *final(self) == old(self).after_chunk(old(quotas).bytes, chunk@.len() as u64),
            final(quotas).bytes == old(self).counter_after_chunk(
                old(quotas).bytes,
                chunk@.len() as u64,
            ),
            final(quotas).files == old(quotas).files,
            step.data@ == chunk@.take(
                old(self).written_of(old(quotas).bytes, chunk@.len() as u64) as int,
            ),
            step.more == old(self).admits(old(quotas).bytes, chunk@.len() as u64),
            old(quotas).bytes.headroom() == 0 ==> step.data@.len() == 0,
    {
        let len: u64 = chunk.len() as u64;
        if self.quota_hit {
            return Admitted { data: slice_subrange(chunk, 0, 0), more: false };
        }
        if !quotas.bytes.reserve(len) {
            self.quota_hit = true;
            let remaining: u64 = quotas.bytes.remaining();
            let keep: usize = remaining as usize;
            return Admitted { data: slice_subrange(chunk, 0, keep), more: false };
        }
        self.accepted = self.accepted + len;
        assert(chunk@.take(chunk@.len() as int) == chunk@);
        Admitted { data: chunk, more: true }
    }

    /// The answer for this file once the transfer has stopped. `transferred`
    /// says whether the source ran dry and every write went through. A cut
    /// upload is refused as too large whatever else happened.
    pub fn conclude(&self, transferred: bool) -> (end: Result<(), UploadError>)
        ensures
            end == if self.quota_hit {
                Err::<(), UploadError>(UploadError::QuotaHit)
            } else if transferred {
                Ok::<(), UploadError>(())
            } else {
                Err::<(), UploadError>(UploadError::Transfer)
            },
    {
        if self.quota_hit {
            Err(UploadError::QuotaHit)
        } else if transferred {
            Ok(())
        } else {
            Err(UploadError::Transfer)
        }
    }

    /// Squares the byte counter with the length the file has on disk after a
    /// cut upload: bytes that landed without a reservation are charged, and
    /// reservations for bytes that never landed are released.
    pub fn reconcile(&self, quotas: &mut Quotas, actual_len: u64)
        requires
            actual_len > self.accepted ==> old(quotas).bytes.current + (actual_len - self.accepted)
                <= u64::MAX,
        ensures
            final(quotas).bytes == self.reconciled(old(quotas).bytes, actual_len),
            final(quotas).files == old(quotas).files,
    {
        if actual_len > self.accepted {
            quotas.bytes.bump(actual_len - self.accepted);
        }
        if self.accepted > actual_len {
            quotas.bytes.reduce(self.accepted - actual_len);
        }
    }
}

impl Upload {
    /// The byte counter after `settle`: reconciled where the upload was cut
    /// and the file's length could be read, as it was otherwise.
    pub open spec fn settled_with(self, bytes: QuotaCounter, actual_len: Option<u64>) -> QuotaCounter {
        match actual_len {
            Some(len) => if self.quota_hit {
                self.reconciled(bytes, len)
            } else {
                bytes
            },
            None => bytes,
        }
    }

    /// Winds up a transfer that has stopped. Only a cut upload is touched:
    /// its counter is squared with `actual_len`, the length of the file on
    /// disk where that could be read, and the name to move the file to is
    /// handed back, `name` with the partial marker behind it. An upload that
    /// was not cut keeps its counter and its name.
    pub fn settle(&self, quotas: &mut Quotas, actual_len: Option<u64>, name: &str) -> (marked:
        Option<String>)
        requires
            self.quota_hit ==> (actual_len matches Some(len) ==> len > self.accepted ==> old(
                quotas,
            ).bytes.current + (len - self.accepted) <= u64::MAX),
        ensures
            final(quotas).bytes == self.settled_with(old(quotas).bytes, actual_len),
            final(quotas).files == old(quotas).files,
            marked is Some <==> self.quota_hit,
            marked matches Some(moved) ==> moved@ == name@ + ".partial"@,
    {
        if !self.quota_hit {
            return None;
        }
        match actual_len {
            Some(len) => {
                self.reconcile(quotas, len);
            },
            None => {},
        }
        Some(partial_name(name))
    }
}

/// A transfer as far as it has gone, for reasoning about whole bodies: the
/// record, the byte counter, and the number of bytes handed to the file.
pub struct Transfer {
    pub upload: Upload,
    pub bytes: QuotaCounter,
    pub written: nat,
}

impl Transfer {
    /// A transfer that has seen no chunk yet.
    pub open spec fn start(bytes: QuotaCounter) -> Transfer {
        Transfer { upload: Upload { accepted: 0, quota_hit: false }, bytes, written: 0 }
    }

    /// The transfer after `on_chunk` has taken a chunk of `len` bytes.
    pub open spec fn step(self, len: u64) -> Transfer {
        Transfer {
            upload: self.upload.after_chunk(self.bytes, len),
            bytes: self.upload.counter_after_chunk(self.bytes, len),
            written: self.written + self.upload.written_of(self.bytes, len),
        }
    }

    /// The transfer after the chunks of a body, in order.
    pub open spec fn run(self, chunks: Seq<u64>) -> Transfer
        decreases chunks.len(),
    {
        if chunks.len() == 0 {
            self
        } else {
            self.step(chunks[0]).run(chunks.drop_first())
        }
    }

    /// The byte counter when the transfer is over and `settle` has found on
    /// disk what was written: reconciled with the file if the body was cut,
    /// untouched otherwise.
    pub open spec fn settled(self) -> QuotaCounter {
        self.upload.settled_with(self.bytes, Some(self.written as u64))
    }

    /// No flag yet, every byte written is in the tally, and the counter
    /// stands at `base` plus the tally, within its ceiling.
    pub open spec fn in_budget(self, base: nat) -> bool {
        &&& !self.upload.quota_hit
        &&& self.written == self.upload.accepted
        &&& self.bytes.current == base + self.upload.accepted
        &&& self.bytes.current <= self.bytes.allowed
    }
}

/// The length of a body given as the lengths of its chunks.
pub open spec fn total_len(chunks: Seq<u64>) -> nat
    decreases chunks.len(),
{
    if chunks.len() == 0 {
        0
    } else {
        chunks[0] as nat + total_len(chunks.drop_first())
    }
}

proof fn lemma_run_after_hit(t: Transfer, chunks: Seq<u64>)
    requires
        t.upload.quota_hit,
    ensures
        t.run(chunks) == t,
    decreases chunks.len(),
{
    if chunks.len() > 0 {
        assert(t.step(chunks[0]) == t);
        lemma_run_after_hit(t, chunks.drop_first());
    }
}

proof fn lemma_run_in_budget(t: Transfer, base: nat, chunks: Seq<u64>)
    requires
        t.in_budget(base),
    ensures
        t.run(chunks).bytes.allowed == t.bytes.allowed,
        t.bytes.current + total_len(chunks) <= t.bytes.allowed ==> {
            &&& t.run(chunks).in_budget(base)
            &&& t.run(chunks).upload.accepted == t.upload.accepted + total_len(chunks)
        },
        t.bytes.current + total_len(chunks) > t.bytes.allowed ==> {
            &&& t.run(chunks).upload.quota_hit
            &&& t.run(chunks).written == t.bytes.allowed - base
            &&& t.run(chunks).bytes.current == base + t.run(chunks).upload.accepted
            &&& t.run(chunks).upload.accepted <= t.run(chunks).written
        },
    decreases chunks.len(),
{
    if chunks.len() > 0 {
        let next = t.step(chunks[0]);
        if t.bytes.overflows_with(chunks[0]) {
            lemma_run_after_hit(next, chunks.drop_first());
        } else {
            lemma_run_in_budget(next, base, chunks.drop_first());
        }
    }
}

/// A body that fits is stored whole: no flag, every byte written and
/// reserved, and the tally equal to the length of the file.
pub proof fn lemma_fitting_body_is_stored(bytes: QuotaCounter, chunks: Seq<u64>)
    requires
        bytes.current + total_len(chunks) <= bytes.allowed,
    ensures
        !Transfer::start(bytes).run(chunks).upload.quota_hit,
        Transfer::start(bytes).run(chunks).written == total_len(chunks),
        Transfer::start(bytes).run(chunks).upload.accepted == total_len(chunks),
        Transfer::start(bytes).run(chunks).settled() == (QuotaCounter {
            allowed: bytes.allowed,
            current: (bytes.current + total_len(chunks)) as u64,
        }),
{
    lemma_run_in_budget(Transfer::start(bytes), bytes.current as nat, chunks);
}

/// A body longer than the budget is cut at the budget: the flag is set, the
/// file holds exactly what was left of the budget when the body began, and
/// after reconciling with the file the counter stands at its ceiling, with
/// no spillover.
pub proof fn lemma_long_body_is_cut_at_budget(bytes: QuotaCounter, chunks: Seq<u64>)
    requires
        bytes.current <= bytes.allowed,
        bytes.current + total_len(chunks) > bytes.allowed,
    ensures
        Transfer::start(bytes).run(chunks).upload.quota_hit,
        Transfer::start(bytes).run(chunks).written == bytes.headroom(),
        Transfer::start(bytes).run(chunks).settled() == (QuotaCounter {
            allowed: bytes.allowed,
            current: bytes.allowed,
        }),
{
    lemma_run_in_budget(Transfer::start(bytes), bytes.current as nat, chunks);
}

/// The chunk that breaks the budget leaves no overshoot behind. Its
/// reservation is rolled back in full, which puts the counter back where it
/// was; and once the bytes that were still written are charged, the counter
/// has grown by what was left of the budget and no more. A counter that was
/// within its ceiling is then exactly at it.
pub proof fn lemma_overshoot_is_corrected(upload: Upload, bytes: QuotaCounter, len: u64)
    requires
        !upload.quota_hit,
        bytes.overflows_with(len),
        bytes.current + len <= u64::MAX,
        upload.accepted + bytes.headroom() <= u64::MAX,
    ensures
        upload.counter_after_chunk(bytes, len) == bytes.bumped(len).reduced(len),
        upload.counter_after_chunk(bytes, len) == bytes,
        upload.after_chunk(bytes, len).reconciled(
            bytes,
            (upload.accepted + upload.written_of(bytes, len)) as u64,
        ).current == bytes.current + bytes.headroom(),
        bytes.current <= bytes.allowed ==> upload.after_chunk(bytes, len).reconciled(
            bytes,
            (upload.accepted + upload.written_of(bytes, len)) as u64,
        ).current == bytes.allowed,
{
}

/// Whatever the body, a counter that was within its ceiling when the
/// transfer began is within it again when the transfer has settled: an
/// overshoot lasts only until the rollback, and the bytes of the cut chunk
/// fill the budget without passing it.
pub proof fn lemma_settled_within_ceiling(bytes: QuotaCounter, chunks: Seq<u64>)
    requires
        bytes.current <= bytes.allowed,
    ensures
        Transfer::start(bytes).run(chunks).settled().allowed == bytes.allowed,
        Transfer::start(bytes).run(chunks).settled().current <= bytes.allowed,
        Transfer::start(bytes).run(chunks).settled().current == bytes.current
            + Transfer::start(bytes).run(chunks).written,
{
    lemma_run_in_budget(Transfer::start(bytes), bytes.current as nat, chunks);
}

} // verus!
