//! The sweep of the transient pool: when it runs, which entries it removes,
//! and how each removal comes back into the budgets. The first sweep is due
//! at a set time of day; after each sweep the task rests a short while and
//! sweeps again.

use vstd::prelude::*;
use crate::disksize::Quotas;

verus! {

/// Nanoseconds in a day.
pub const DAY_NANOS: u64 = 86_400_000_000_000;

/// How long the task rests after a sweep, in nanoseconds, before it sweeps
/// again. The rest does not depend on the time of day.
pub const PAUSE_NANOS: u64 = 60_000_000_000;

/// A time of day in UTC.
#[derive(Clone, Copy, PartialEq, Eq, Structural, Debug)]
pub struct TimeOfDay {
    pub hour: u8,
    pub minute: u8,
    pub second: u8,
    pub nanosecond: u32,
}

impl TimeOfDay {
    /// Every field is within its range.
    pub open spec fn valid(self) -> bool {
        self.hour < 24 && self.minute < 60 && self.second < 60 && self.nanosecond < 1_000_000_000
    }

    /// Nanoseconds since midnight.
    pub open spec fn since_midnight(self) -> nat {
        (((self.hour * 60 + self.minute) * 60 + self.second) * 1_000_000_000
            + self.nanosecond) as nat
    }

    /// A time of day from its fields, if each is within its range.
    pub fn new(hour: u8, minute: u8, second: u8, nanosecond: u32) -> (time: Option<TimeOfDay>)
        ensures
            time == if (TimeOfDay { hour, minute, second, nanosecond }).valid() {
                Some(TimeOfDay { hour, minute, second, nanosecond })
            } else {
                None
            },
    {
        if hour < 24 && minute < 60 && second < 60 && nanosecond < 1_000_000_000 {
            Some(TimeOfDay { hour, minute, second, nanosecond })
        } else {
            None
        }
    }

    /// Nanoseconds since midnight.
    pub fn nanos_since_midnight(&self) -> (nanos: u64)
        ensures
            nanos == self.since_midnight(),
            self.valid() ==> nanos < DAY_NANOS,
    {
        let hours: u64 = self.hour as u64;
        let minutes: u64 = hours * 60 + self.minute as u64;
        let seconds: u64 = minutes * 60 + self.second as u64;
        seconds * 1_000_000_000 + self.nanosecond as u64
    }

    /// The wait from `self` until the clock next shows `at`, in nanoseconds.
    pub open spec fn wait_for(self, at: TimeOfDay) -> nat {
        if at.since_midnight() >= self.since_midnight() {
            (at.since_midnight() - self.since_midnight()) as nat
        } else {
            (at.since_midnight() + DAY_NANOS - self.since_midnight()) as nat
        }
    }

    /// How long to wait at `self` for the next time the clock shows `at`:
    /// nothing if it shows `at` right now, otherwise the rest of today or,
    /// if `at` has passed today, the time until `at` tomorrow. The result
    /// is in nanoseconds and less than a day.
    pub fn until_next(&self, at: &TimeOfDay) -> (wait: u64)
        requires
            self.valid(),
            at.valid(),
        ensures
            wait == self.wait_for(*at),
            wait < DAY_NANOS,
            (self.since_midnight() + wait) % (DAY_NANOS as int) == at.since_midnight(),
    {
        let now: u64 = self.nanos_since_midnight();
        let then: u64 = at.nanos_since_midnight();
        if then >= now {
            then - now
        } else {
            then + DAY_NANOS - now
        }
    }
}

/// How old a file is, as far as that can be told.
#[derive(Clone, Copy, PartialEq, Eq, Structural, Debug)]
pub enum FileAge {
    /// The modification time could not be read.
    Unknown,
    /// The file claims to have been modified after the sweep began.
    Future,
    /// The time since the last modification, in nanoseconds.
    Known(u128),
}

/// One entry of the swept directory, as the file system reported it.
#[derive(Clone, Copy, PartialEq, Eq, Structural, Debug)]
pub enum SweepEntry {
    /// The entry or its metadata could not be read.
    Unreadable,
    /// A directory or a symbolic link.
    NotAFile,
    /// A regular file of `len` bytes.
    File { len: u64, age: FileAge },
}

/// What the sweep does with an entry.
#[derive(Clone, Copy, PartialEq, Eq, Structural, Debug)]
pub enum Verdict {
    /// Not a file: passed over and not counted.
    Skip,
    /// Could not be examined: left alone and counted as an error.
    Unreadable,
    /// Stays.
    Retain,
    /// Old enough to go.
    Remove,
}

impl SweepEntry {
    /// The verdict on an entry for a given maximum age in nanoseconds. A
    /// file goes only if its age is known and has reached the maximum; a
    /// file whose age cannot be told stays.
    pub open spec fn verdict(self, max_age: u128) -> Verdict {
        match self {
            SweepEntry::Unreadable => Verdict::Unreadable,
            SweepEntry::NotAFile => Verdict::Skip,
            SweepEntry::File { len, age } => match age {
                FileAge::Known(nanos) => if nanos >= max_age {
                    Verdict::Remove
                } else {
                    Verdict::Retain
                },
                _ => Verdict::Retain,
            },
        }
    }

    /// The length that counts for this entry: a file's length, zero otherwise.
    pub open spec fn size(self) -> u64 {
        match self {
            SweepEntry::File { len, age } => len,
            _ => 0,
        }
    }

    /// What the sweep does with this entry when files go from `max_age`
    /// nanoseconds on.
    pub fn classify(&self, max_age: u128) -> (verdict: Verdict)
        ensures
            verdict == self.verdict(max_age),
    {
        match self {
            SweepEntry::Unreadable => Verdict::Unreadable,
            SweepEntry::NotAFile => Verdict::Skip,
            SweepEntry::File { len, age } => match age {
                FileAge::Known(nanos) => if *nanos >= max_age {
                    Verdict::Remove
                } else {
                    Verdict::Retain
                },
                _ => Verdict::Retain,
            },
        }
    }
}

/// A file whose age is exactly the maximum goes; one a nanosecond younger stays.
pub proof fn lemma_age_boundary(len: u64, max_age: u128)
    ensures
        (SweepEntry::File { len, age: FileAge::Known(max_age) }).verdict(max_age)
            == Verdict::Remove,
        max_age > 0 ==> (SweepEntry::File {
            len,
            age: FileAge::Known((max_age - 1) as u128),
        }).verdict(max_age) == Verdict::Retain,
{
}

/// The counts of one sweep.
#[derive(Clone, Copy, PartialEq, Eq, Structural, Debug)]
pub struct SweepTally {
    pub bytes_retained: u64,
    pub files_retained: u64,
    pub bytes_removed: u64,
    pub files_removed: u64,
    pub errors: u64,
}

impl SweepTally {
    /// Each count can take one more entry of `len` bytes.
    pub open spec fn has_room(self, len: u64) -> bool {
        &&& self.files_retained < u64::MAX
        &&& self.files_removed < u64::MAX
        &&& self.errors < u64::MAX
        &&& self.bytes_retained + len <= u64::MAX
        &&& self.bytes_removed + len <= u64::MAX
    }

    /// The tally after an entry has been looked at. A file that is to be
    /// removed is not counted until the removal has been tried.
    pub open spec fn seen(self, entry: SweepEntry, max_age: u128) -> SweepTally {
        match entry.verdict(max_age) {
            Verdict::Unreadable => SweepTally { errors: (self.errors + 1) as u64, ..self },
            Verdict::Retain => SweepTally {
                files_retained: (self.files_retained + 1) as u64,
                bytes_retained: (self.bytes_retained + entry.size()) as u64,
                ..self
            },
            _ => self,
        }
    }

    /// The tally after a removal has been tried on a file of `len` bytes.
    pub open spec fn tried(self, len: u64, removed: bool) -> SweepTally {
        if removed {
            SweepTally {
                files_removed: (self.files_removed + 1) as u64,
                bytes_removed: (self.bytes_removed + len) as u64,
                ..self
            }
        } else {
            SweepTally { errors: (self.errors + 1) as u64, ..self }
        }
    }

    /// The tally of a sweep that has seen nothing yet.
    pub fn new() -> (tally: SweepTally)
        ensures
            tally == (SweepTally {
                bytes_retained: 0,
                files_retained: 0,
                bytes_removed: 0,
                files_removed: 0,
                errors: 0,
            }),
    {
        SweepTally {
            bytes_retained: 0,
            files_retained: 0,
            bytes_removed: 0,
            files_removed: 0,
            errors: 0,
        }
    }

    /// Looks at one entry, counts it unless it is to be removed, and says
    /// what to do with it.
    pub fn on_entry(&mut self, entry: &SweepEntry, max_age: u128) -> (verdict: Verdict)
        requires
            old(self).has_room(entry.size()),
        ensures
            verdict == entry.verdict(max_age),
            *final(self) == old(self).seen(*entry, max_age),
    {
        let verdict = entry.classify(max_age);
        match verdict {
            Verdict::Unreadable => {
                self.errors = self.errors + 1;
            },
            Verdict::Retain => {
                let len: u64 = match entry {
                    SweepEntry::File { len, age } => *len,
                    _ => 0,
                };
                self.files_retained = self.files_retained + 1;
                self.bytes_retained = self.bytes_retained + len;
            },
            _ => {},
        }
        verdict
    }

    /// Takes the outcome of removing a file of `len` bytes. A removed file
    /// is counted and leaves the budgets: one file and `len` bytes. A failed
    /// removal is counted as an error, and the budgets stay.
    pub fn on_removal(&mut self, quotas: &mut Quotas, len: u64, removed: bool)
        requires
            old(self).has_room(len),
        ensures
            *final(self) == old(self).tried(len, removed),
            *final(quotas) == if removed {
                old(quotas).without_file(Some(len))
            } else {
                *old(quotas)
            },
    {
        if removed {
            self.files_removed = self.files_removed + 1;
            self.bytes_removed = self.bytes_removed + len;
            quotas.files.reduce(1);
            quotas.bytes.reduce(len);
        } else {
            self.errors = self.errors + 1;
        }
    }
}

/// What the task was set up with.
#[derive(Clone, Copy, PartialEq, Eq, Structural, Debug)]
pub struct CleanupPlan {
    /// The time of day, UTC, at which the first sweep is due.
    pub at: TimeOfDay,
    /// The age, in nanoseconds, from which a file is removed.
    pub max_age: u128,
}

/// Where the task stands.
#[derive(Clone, Copy, PartialEq, Eq, Structural, Debug)]
pub enum CleanupState {
    /// At the start, about to look at the clock.
    Idle,
    /// Asleep until the next sweep: until the set time of day before the
    /// first one, for the rest between two sweeps afterwards.
    Waiting,
    /// Going through the directory.
    Sweeping(SweepTally),
    /// Going through the directory, with the removal of a file of `len`
    /// bytes under way.
    Removing { tally: SweepTally, len: u64 },
    /// The directory could not be listed; the task has ended.
    Stopped,
}

/// What the caller reports to the task.
#[derive(Clone, Copy, PartialEq, Eq, Structural, Debug)]
pub enum CleanupEvent {
    /// The clock was read.
    Clock(TimeOfDay),
    /// The sleep that was asked for is over.
    Woke,
    /// The listing gave an entry.
    Entry(SweepEntry),
    /// The removal that was asked for succeeded or failed.
    Removal(bool),
    /// The listing is at its end.
    ListingDone,
    /// The directory could not be listed.
    ListingFailed,
}

/// What the task asks of the caller.
#[derive(Clone, Copy, PartialEq, Eq, Structural, Debug)]
pub enum CleanupAction {
    /// Sleep for so many nanoseconds, then report `Woke`.
    Sleep(u64),
    /// Note the time, list the directory and report its entries one by one.
    List,
    /// Go on to the next entry.
    Next,
    /// Remove the entry just reported, and report how that went.
    Remove,
    /// Print the tally, rest for `PAUSE_NANOS`, then report `Woke`.
    Pause(SweepTally),
    /// Give up: without its sweep the pool can only fill.
    Exit,
    /// The event does not belong here; nothing has changed.
    Ignore,
}

/// The state the task moves to, and what it asks for, when `event` is
/// reported in `state`.
pub open spec fn transition(state: CleanupState, event: CleanupEvent, plan: CleanupPlan) -> (
    CleanupState,
    CleanupAction,
) {
    match (state, event) {
        (CleanupState::Stopped, _) => (CleanupState::Stopped, CleanupAction::Exit),
        (CleanupState::Idle, CleanupEvent::Clock(now)) => (
            CleanupState::Waiting,
            CleanupAction::Sleep(now.wait_for(plan.at) as u64),
        ),
        (CleanupState::Waiting, CleanupEvent::Woke) => (
            CleanupState::Sweeping(
                SweepTally {
                    bytes_retained: 0,
                    files_retained: 0,
                    bytes_removed: 0,
                    files_removed: 0,
                    errors: 0,
                },
            ),
            CleanupAction::List,
        ),
        (CleanupState::Sweeping(tally), CleanupEvent::Entry(entry)) => if entry.verdict(
            plan.max_age,
        ) == Verdict::Remove {
            (CleanupState::Removing { tally, len: entry.size() }, CleanupAction::Remove)
        } else {
            (CleanupState::Sweeping(tally.seen(entry, plan.max_age)), CleanupAction::Next)
        },
        (CleanupState::Removing { tally, len }, CleanupEvent::Removal(removed)) => (
            CleanupState::Sweeping(tally.tried(len, removed)),
            CleanupAction::Next,
        ),
        (CleanupState::Sweeping(tally), CleanupEvent::ListingDone) => (
            CleanupState::Waiting,
            CleanupAction::Pause(tally),
        ),
        (CleanupState::Sweeping(_), CleanupEvent::ListingFailed) => (
            CleanupState::Stopped,
            CleanupAction::Exit,
        ),
        _ => (state, CleanupAction::Ignore),
    }
}

/// The budgets after `event` has been reported in `state`: they move only
/// when a removal is reported as done.
pub open spec fn budgets_after(state: CleanupState, event: CleanupEvent, quotas: Quotas) -> Quotas {
    match (state, event) {
        (CleanupState::Removing { tally, len }, CleanupEvent::Removal(true)) => quotas.without_file(
            Some(len),
        ),
        _ => quotas,
    }
}

/// The times are valid and the tally has room for what the event adds.
pub open spec fn in_range(state: CleanupState, event: CleanupEvent, plan: CleanupPlan) -> bool {
    match (state, event) {
        (CleanupState::Idle, CleanupEvent::Clock(now)) => now.valid() && plan.at.valid(),
        (CleanupState::Sweeping(tally), CleanupEvent::Entry(entry)) => tally.has_room(entry.size()),
        (CleanupState::Removing { tally, len }, CleanupEvent::Removal(_)) => tally.has_room(len),
        _ => true,
    }
}

/// One turn of the cleanup task. The caller does what was asked last,
/// reports what happened, and gets the next state and the next thing to do.
/// The task begins in `Idle`, with the clock to be reported.
pub fn cleanup_task(
    state: CleanupState,
    event: CleanupEvent,
    plan: &CleanupPlan,
    quotas: &mut Quotas,
) -> (next: (CleanupState, CleanupAction))
    requires
        in_range(state, event, *plan),
    ensures
        next == transition(state, event, *plan),
        *final(quotas) == budgets_after(state, event, *old(quotas)),
{
    match (state, event) {
        (CleanupState::Stopped, _) => (CleanupState::Stopped, CleanupAction::Exit),
        (CleanupState::Idle, CleanupEvent::Clock(now)) => {
            let wait: u64 = now.until_next(&plan.at);
            (CleanupState::Waiting, CleanupAction::Sleep(wait))
        },
        (CleanupState::Waiting, CleanupEvent::Woke) => (
            CleanupState::Sweeping(SweepTally::new()),
            CleanupAction::List,
        ),
        (CleanupState::Sweeping(tally), CleanupEvent::Entry(entry)) => {
            let mut tally = tally;
            match tally.on_entry(&entry, plan.max_age) {
                Verdict::Remove => {
                    let len: u64 = match entry {
                        SweepEntry::File { len, age } => len,
                        _ => 0,
                    };
                    (CleanupState::Removing { tally, len }, CleanupAction::Remove)
                },
                _ => (CleanupState::Sweeping(tally), CleanupAction::Next),
            }
        },
        (CleanupState::Removing { tally, len }, CleanupEvent::Removal(removed)) => {
            let mut tally = tally;
            tally.on_removal(quotas, len, removed);
            (CleanupState::Sweeping(tally), CleanupAction::Next)
        },
        (CleanupState::Sweeping(tally), CleanupEvent::ListingDone) => (
            CleanupState::Waiting,
            CleanupAction::Pause(tally),
        ),
        (CleanupState::Sweeping(_), CleanupEvent::ListingFailed) => (
            CleanupState::Stopped,
            CleanupAction::Exit,
        ),
        _ => (state, CleanupAction::Ignore),
    }
}

/// After a sweep the task asks for its rest, and when the rest is over it
/// sweeps again, whatever the time of day and whatever time the plan names.
pub proof fn lemma_sweeps_again_after_pause(tally: SweepTally, plan: CleanupPlan)
    ensures
        transition(CleanupState::Sweeping(tally), CleanupEvent::ListingDone, plan).1
            == CleanupAction::Pause(tally),
        transition(
            transition(CleanupState::Sweeping(tally), CleanupEvent::ListingDone, plan).0,
            CleanupEvent::Woke,
            plan,
        ).1 == CleanupAction::List,
        transition(
            transition(CleanupState::Sweeping(tally), CleanupEvent::ListingDone, plan).0,
            CleanupEvent::Woke,
            plan,
        ).0 is Sweeping,
{
}

/// The first sweep waits for the set time of day: at the start the task
/// asks for a sleep until the clock next shows it, and sweeps on waking.
pub proof fn lemma_first_sweep_at_set_time(now: TimeOfDay, plan: CleanupPlan)
    ensures
        transition(CleanupState::Idle, CleanupEvent::Clock(now), plan) == (
            CleanupState::Waiting,
            CleanupAction::Sleep(now.wait_for(plan.at) as u64),
        ),
        transition(CleanupState::Waiting, CleanupEvent::Woke, plan).1 == CleanupAction::List,
{
}

/// An entry of a sweep with the outcome of its removal. `removed` counts
/// only for an entry that the sweep asks to have removed.
pub struct Swept {
    pub entry: SweepEntry,
    pub removed: bool,
}

impl Swept {
    /// The file went: the sweep asked for its removal, and the removal
    /// succeeded.
    pub open spec fn gone(self, max_age: u128) -> bool {
        self.entry.verdict(max_age) == Verdict::Remove && self.removed
    }
}

/// State and budgets after an entry has been reported in `state` and, where
/// the task asked for its removal, the outcome of that as well.
pub open spec fn after_entry(state: CleanupState, quotas: Quotas, item: Swept, plan: CleanupPlan) -> (
    CleanupState,
    Quotas,
) {
    let entry = CleanupEvent::Entry(item.entry);
    let outcome = CleanupEvent::Removal(item.removed);
    let seen = transition(state, entry, plan);
    let budgets = budgets_after(state, entry, quotas);
    if seen.1 == CleanupAction::Remove {
        (transition(seen.0, outcome, plan).0, budgets_after(seen.0, outcome, budgets))
    } else {
        (seen.0, budgets)
    }
}

/// State and budgets after the entries of a listing, one after the other.
pub open spec fn after_entries(
    state: CleanupState,
    quotas: Quotas,
    items: Seq<Swept>,
    plan: CleanupPlan,
) -> (CleanupState, Quotas)
    decreases items.len(),
{
    if items.len() == 0 {
        (state, quotas)
    } else {
        let before = after_entries(state, quotas, items.drop_last(), plan);
        after_entry(before.0, before.1, items.last(), plan)
    }
}

/// How many files of a listing went.
pub open spec fn files_gone(items: Seq<Swept>, max_age: u128) -> nat
    decreases items.len(),
{
    if items.len() == 0 {
        0
    } else {
        files_gone(items.drop_last(), max_age) + if items.last().gone(max_age) {
            1nat
        } else {
            0nat
        }
    }
}

/// The lengths of the files of a listing that went, added up.
pub open spec fn bytes_gone(items: Seq<Swept>, max_age: u128) -> nat
    decreases items.len(),
{
    if items.len() == 0 {
        0
    } else {
        bytes_gone(items.drop_last(), max_age) + if items.last().gone(max_age) {
            items.last().entry.size() as nat
        } else {
            0nat
        }
    }
}

/// What a whole sweep does to the budgets. Each file that went takes one
/// file and its length off the counters, which stop at zero; an entry that
/// stays, and one whose removal fails, changes neither counter. The
/// ceilings stay, and the task is still sweeping when the entries are through.
pub proof fn lemma_sweep_effect(
    tally: SweepTally,
    quotas: Quotas,
    items: Seq<Swept>,
    plan: CleanupPlan,
)
    ensures
        after_entries(CleanupState::Sweeping(tally), quotas, items, plan).0 is Sweeping,
        after_entries(CleanupState::Sweeping(tally), quotas, items, plan).1.files.allowed
            == quotas.files.allowed,
        after_entries(CleanupState::Sweeping(tally), quotas, items, plan).1.bytes.allowed
            == quotas.bytes.allowed,
        after_entries(CleanupState::Sweeping(tally), quotas, items, plan).1.files.current == if files_gone(
            items,
            plan.max_age,
        ) <= quotas.files.current {
            quotas.files.current - files_gone(items, plan.max_age)
        } else {
            0
        },
        after_entries(CleanupState::Sweeping(tally), quotas, items, plan).1.bytes.current == if bytes_gone(
            items,
            plan.max_age,
        ) <= quotas.bytes.current {
            quotas.bytes.current - bytes_gone(items, plan.max_age)
        } else {
            0
        },
    decreases items.len(),
{
    if items.len() > 0 {
        lemma_sweep_effect(tally, quotas, items.drop_last(), plan);
    }
}

} // verus!
