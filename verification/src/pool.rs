//! The pool at rest. Between requests the counters say what the disk
//! holds: as many files as are counted, and as many bytes. This module
//! states that and proves that every request that runs alone keeps it.

use vstd::prelude::*;
use crate::actions::{text_refusal, NewFile};
use crate::disksize::Quotas;
use crate::upload::{lemma_settled_within_ceiling, upload_refusal, Transfer};

verus! {

/// A pool between requests: its budgets and the lengths of its files.
pub struct Pool {
    pub quotas: Quotas,
    pub files: Seq<u64>,
}

/// The lengths of the files, added up.
pub open spec fn stored_bytes(files: Seq<u64>) -> nat
    decreases files.len(),
{
    if files.len() == 0 {
        0
    } else {
        stored_bytes(files.drop_last()) + files.last() as nat
    }
}

/// Something that happens to a pool while nothing else does.
pub enum Change {
    /// A file is uploaded under `name`, its body arriving in chunks of the
    /// given lengths. `created` says whether a file could be created for it.
    Upload { name: Seq<char>, chunks: Seq<u64>, created: bool },
    /// A text of `len` bytes is shared under `title`, and likewise.
    Text { title: Seq<char>, len: u64, created: bool },
    /// The file at `index` is removed, by request or by the sweep.
    Removal { index: int },
}

impl Pool {
    /// The counters agree with the disk.
    pub open spec fn balanced(self) -> bool {
        &&& self.quotas.bytes.current == stored_bytes(self.files)
        &&& self.quotas.files.current == self.files.len()
    }

    /// The pool after an upload, as `upload_admit`, `create_new_file`,
    /// `NewFile::on_outcome`, `Upload::on_chunk` and `Upload::settle`
    /// leave it when every write reaches the disk. A body that is cut
    /// stays on disk as far as it got.
    pub open spec fn after_upload(self, name: Seq<char>, chunks: Seq<u64>, created: bool) -> Pool {
        if upload_refusal(self.quotas, name) is Some || self.quotas.files.overflows_with(1) {
            self
        } else {
            let reserved = Quotas { files: self.quotas.files.bumped(1), ..self.quotas };
            if !created {
                Pool { quotas: reserved.given_back(NewFile { tries: 0, reserved: 0 }), ..self }
            } else {
                let transfer = Transfer::start(reserved.bytes).run(chunks);
                Pool {
                    quotas: Quotas { bytes: transfer.settled(), ..reserved },
                    files: self.files.push(transfer.written as u64),
                }
            }
        }
    }

    /// The pool after a text has been shared, as `share_text` and
    /// `NewFile::on_outcome` leave it when the body reaches the disk.
    pub open spec fn after_text(self, title: Seq<char>, len: u64, created: bool) -> Pool {
        if text_refusal(self.quotas, title, len) is Some {
            self
        } else {
            let reserved = Quotas {
                bytes: self.quotas.bytes.bumped(len),
                files: self.quotas.files.bumped(1),
            };
            if !created {
                Pool { quotas: reserved.given_back(NewFile { tries: 0, reserved: len }), ..self }
            } else {
                Pool { quotas: reserved, files: self.files.push(len) }
            }
        }
    }

    /// The pool after the file at `index` has been removed, as `remove` and
    /// the sweep leave it when the file's length was read beforehand.
    pub open spec fn after_removal(self, index: int) -> Pool {
        if 0 <= index < self.files.len() {
            Pool {
                quotas: self.quotas.without_file(Some(self.files[index])),
                files: self.files.remove(index),
            }
        } else {
            self
        }
    }

    /// The pool after one change.
    pub open spec fn after(self, change: Change) -> Pool {
        match change {
            Change::Upload { name, chunks, created } => self.after_upload(name, chunks, created),
            Change::Text { title, len, created } => self.after_text(title, len, created),
            Change::Removal { index } => self.after_removal(index),
        }
    }

    /// The pool after a run of changes, one at a time.
    pub open spec fn after_all(self, changes: Seq<Change>) -> Pool
        decreases changes.len(),
    {
        if changes.len() == 0 {
            self
        } else {
            self.after_all(changes.drop_last()).after(changes.last())
        }
    }
}

proof fn lemma_stored_without(files: Seq<u64>, index: int)
    requires
        0 <= index < files.len(),
    ensures
        stored_bytes(files.remove(index)) + files[index] == stored_bytes(files),
    decreases files.len(),
{
    if index == files.len() - 1 {
        assert(files.remove(index) == files.drop_last());
    } else {
        lemma_stored_without(files.drop_last(), index);
        assert(files.remove(index).drop_last() == files.drop_last().remove(index));
        assert(files.remove(index).last() == files.last());
    }
}

/// An upload that runs alone leaves the counters in agreement with the
/// disk, whether it is refused, stored whole, or cut at the budget.
pub proof fn lemma_upload_keeps_balance(
    pool: Pool,
    name: Seq<char>,
    chunks: Seq<u64>,
    created: bool,
)
    requires
        pool.balanced(),
    ensures
        pool.after_upload(name, chunks, created).balanced(),
{
    if !(upload_refusal(pool.quotas, name) is Some || pool.quotas.files.overflows_with(1)) {
        if created {
            lemma_settled_within_ceiling(pool.quotas.bytes, chunks);
            let written = Transfer::start(pool.quotas.bytes).run(chunks).written;
            assert(pool.files.push(written as u64).drop_last() == pool.files);
        }
    }
}

/// A shared text that runs alone leaves the counters in agreement with the disk.
pub proof fn lemma_text_keeps_balance(pool: Pool, title: Seq<char>, len: u64, created: bool)
    requires
        pool.balanced(),
    ensures
        pool.after_text(title, len, created).balanced(),
{
    if text_refusal(pool.quotas, title, len) is None && created {
        assert(pool.files.push(len).drop_last() == pool.files);
    }
}

/// A removal that runs alone leaves the counters in agreement with the disk.
pub proof fn lemma_removal_keeps_balance(pool: Pool, index: int)
    requires
        pool.balanced(),
    ensures
        pool.after_removal(index).balanced(),
{
    if 0 <= index < pool.files.len() {
        lemma_stored_without(pool.files, index);
    }
}

/// Conservation: after any run of uploads, shared texts and removals that
/// do not overlap, the byte counter is the sum of the lengths of the files
/// on disk and the file counter is their number.
pub proof fn lemma_conservation(pool: Pool, changes: Seq<Change>)
    requires
        pool.balanced(),
    ensures
        pool.after_all(changes).balanced(),
    decreases changes.len(),
{
    if changes.len() > 0 {
        lemma_conservation(pool, changes.drop_last());
        let before = pool.after_all(changes.drop_last());
        match changes.last() {
            Change::Upload { name, chunks, created } => {
                lemma_upload_keeps_balance(before, name, chunks, created);
            },
            Change::Text { title, len, created } => {
                lemma_text_keeps_balance(before, title, len, created);
            },
            Change::Removal { index } => {
                lemma_removal_keeps_balance(before, index);
            },
        }
    }
}

} // verus!
