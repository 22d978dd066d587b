//! The two counters of a storage pool.

use vstd::prelude::*;

verus! {

/// One budget: a fixed ceiling and the amount currently charged against it.
///
/// `current` is advisory. A reservation is added first and tested afterwards,
/// so `current` may stand above `allowed` until the caller rolls it back.
pub struct QuotaCounter {
    pub allowed: u64,
    pub current: u64,
}

impl QuotaCounter {
    /// The counter after `val` has been charged, whether or not it fits.
    pub open spec fn bumped(self, val: u64) -> QuotaCounter {
        QuotaCounter { allowed: self.allowed, current: (self.current + val) as u64 }
    }

    /// The counter after `val` has been released; it stops at zero.
    pub open spec fn reduced(self, val: u64) -> QuotaCounter {
        QuotaCounter {
            allowed: self.allowed,
            current: if self.current < val {
                0
            } else {
                (self.current - val) as u64
            },
        }
    }

    /// Charging `val` more would carry the counter above its ceiling.
    pub open spec fn overflows_with(self, val: u64) -> bool {
        self.current + val > self.allowed
    }

    /// What is left below the ceiling, zero when the ceiling is reached or passed.
    pub open spec fn headroom(self) -> nat {
        if self.current >= self.allowed {
            0
        } else {
            (self.allowed - self.current) as nat
        }
    }

    /// The ceiling is reached or passed.
    pub open spec fn exceeded(self) -> bool {
        self.current >= self.allowed
    }

    /// At least nine tenths of the ceiling are in use.
    pub open spec fn nearly_exceeded(self) -> bool {
        10 * self.current >= 9 * self.allowed
    }

    /// The amount charged at present.
    pub fn get(&self) -> (value: u64)
        ensures
            value == self.current,
    {
        self.current
    }

    /// Charges `val` and reports whether the counter now stands above its
    /// ceiling. The charge is made either way: a caller that gives up on
    /// `true` has to `reduce` by the same amount.
    pub fn bump(&mut self, val: u64) -> (overflowed: bool)
        requires
            old(self).current + val <= u64::MAX,
        ensures
            *final(self) == old(self).bumped(val),
            final(self).current == old(self).current + val,
            overflowed == old(self).overflows_with(val),
    {
        self.current = self.current + val;
        self.current > self.allowed
    }

    /// Reserves `val` if that keeps the counter within its ceiling, and says
    /// whether it did. The amount is charged first and tested afterwards;
    /// where the test fails the charge is taken back, so that a refusal
    /// leaves the counter as it was. An amount that the counter could not
    /// even hold is refused like any other that does not fit.
    pub fn reserve(&mut self, val: u64) -> (reserved: bool)
        ensures
            reserved == !old(self).overflows_with(val),
            reserved ==> *final(self) == old(self).bumped(val),
            reserved ==> final(self).current == old(self).current + val,
            !reserved ==> *final(self) == *old(self),
    {
        if val > u64::MAX - self.current {
            return false;
        }
        if self.bump(val) {
            self.reduce(val);
            return false;
        }
        true
    }

    /// Releases `val`, stopping at zero.
    pub fn reduce(&mut self, val: u64)
        ensures
            *final(self) == old(self).reduced(val),
            old(self).current < val ==> final(self).current == 0,
            old(self).current >= val ==> final(self).current == old(self).current - val,
    {
        if self.current < val {
            self.current = 0;
        } else {
            self.current = self.current - val;
        }
    }

    /// Whether the ceiling is reached or passed.
    pub fn is_exceed(&self) -> (exceeded: bool)
        ensures
            exceeded == self.exceeded(),
    {
        self.current >= self.allowed
    }

    /// Whether at least nine tenths of the ceiling are in use. This is a
    /// warning level for the listing; nothing is refused on its account.
    pub fn is_close_to_exeeed(&self) -> (close: bool)
        ensures
            close == self.nearly_exceeded(),
    {
        let used: u128 = self.current as u128;
        let ceiling: u128 = self.allowed as u128;
        10 * used >= 9 * ceiling
    }

    /// What is left below the ceiling, zero when the ceiling is reached or passed.
    pub fn remaining(&self) -> (left: u64)
        ensures
            left == self.headroom(),
    {
        if self.current >= self.allowed {
            0
        } else {
            self.allowed - self.current
        }
    }
}

/// A reservation that is rolled back leaves the counter exactly as it was
/// before, however far it had been carried above the ceiling in between.
pub proof fn lemma_rollback_restores(counter: QuotaCounter, val: u64)
    requires
        counter.current + val <= u64::MAX,
    ensures
        counter.bumped(val).reduced(val) == counter,
{
}

/// Releasing more than is charged leaves the counter at zero.
pub proof fn lemma_reduce_stops_at_zero(counter: QuotaCounter, val: u64)
    requires
        counter.current < val,
    ensures
        counter.reduced(val).current == 0,
        counter.reduced(val).reduced(val) == counter.reduced(val),
{
}

/// How many entries of a directory listing could be read.
pub open spec fn scanned_files(entries: Seq<Option<u64>>) -> nat
    decreases entries.len(),
{
    if entries.len() == 0 {
        0
    } else {
        scanned_files(entries.drop_last()) + if entries.last() is Some {
            1nat
        } else {
            0nat
        }
    }
}

/// The lengths of the readable entries of a directory listing, added up.
pub open spec fn scanned_bytes(entries: Seq<Option<u64>>) -> nat
    decreases entries.len(),
{
    if entries.len() == 0 {
        0
    } else {
        scanned_bytes(entries.drop_last()) + match entries.last() {
            Some(len) => len as nat,
            None => 0nat,
        }
    }
}

proof fn lemma_scanned_prefix(entries: Seq<Option<u64>>, n: int)
    requires
        0 <= n <= entries.len(),
    ensures
        scanned_files(entries.take(n)) <= scanned_files(entries),
        scanned_bytes(entries.take(n)) <= scanned_bytes(entries),
        scanned_files(entries.take(n)) <= n,
    decreases entries.len(),
{
    if n == entries.len() {
        assert(entries.take(n) == entries);
        if n > 0 {
            lemma_scanned_prefix(entries.drop_last(), n - 1);
            assert(entries.drop_last().take(n - 1) == entries.drop_last());
        }
    } else {
        lemma_scanned_prefix(entries.drop_last(), n);
        assert(entries.drop_last().take(n) == entries.take(n));
    }
}

/// The budgets of one storage pool.
pub struct Quotas {
    pub bytes: QuotaCounter,
    pub files: QuotaCounter,
}

impl Quotas {
    /// The budgets after a file has left the pool. `size` is the length it
    /// had, where that could be read before it was removed; without it the
    /// byte counter stays as it is.
    pub open spec fn without_file(self, size: Option<u64>) -> Quotas {
        Quotas {
            bytes: match size {
                Some(len) => self.bytes.reduced(len),
                None => self.bytes,
            },
            files: self.files.reduced(1),
        }
    }

    /// Empty budgets with the given ceilings.
    pub fn new(files_limit: u64, bytes_limit: u64) -> (quotas: Quotas)
        ensures
            quotas.bytes == (QuotaCounter { allowed: bytes_limit, current: 0 }),
            quotas.files == (QuotaCounter { allowed: files_limit, current: 0 }),
    {
        Quotas {
            bytes: QuotaCounter { allowed: bytes_limit, current: 0 },
            files: QuotaCounter { allowed: files_limit, current: 0 },
        }
    }

    /// Charges what a directory already holds. `entries` is its listing, one
    /// item per entry: the entry's length, or `None` where the entry or its
    /// metadata could not be read. Every readable entry takes one file and
    /// its length, whether or not the ceilings are passed: what is on disk
    /// is the baseline. Returns how many entries were skipped as unreadable.
    pub fn scan_and_add(&mut self, entries: &Vec<Option<u64>>) -> (skipped: usize)
        requires
            old(self).files.current + scanned_files(entries@) <= u64::MAX,
            old(self).bytes.current + scanned_bytes(entries@) <= u64::MAX,
        ensures
            final(self).files == (QuotaCounter {
                allowed: old(self).files.allowed,
                current: (old(self).files.current + scanned_files(entries@)) as u64,
            }),
            final(self).bytes == (QuotaCounter {
                allowed: old(self).bytes.allowed,
                current: (old(self).bytes.current + scanned_bytes(entries@)) as u64,
            }),
            skipped == entries@.len() - scanned_files(entries@),
    {
        let mut skipped: usize = 0;
        for i in 0..entries.len()
            invariant
                self.files.allowed == old(self).files.allowed,
                self.bytes.allowed == old(self).bytes.allowed,
                self.files.current == old(self).files.current + scanned_files(
                    entries@.take(i as int),
                ),
                self.bytes.current == old(self).bytes.current + scanned_bytes(
                    entries@.take(i as int),
                ),
                skipped == i - scanned_files(entries@.take(i as int)),
                old(self).files.current + scanned_files(entries@) <= u64::MAX,
                old(self).bytes.current + scanned_bytes(entries@) <= u64::MAX,
        {
            proof {
                lemma_scanned_prefix(entries@, i + 1);
                lemma_scanned_prefix(entries@, i as int);
                assert(entries@.take(i + 1).drop_last() == entries@.take(i as int));
            }
            match entries[i] {
                Some(len) => {
                    self.files.bump(1);
                    self.bytes.bump(len);
                },
                None => {
                    skipped = skipped + 1;
                },
            }
        }
        proof {
            assert(entries@.take(entries@.len() as int) == entries@);
        }
        skipped
    }
}

} // verus!
