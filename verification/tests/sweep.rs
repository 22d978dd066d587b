use duplo::cleanup::{
    cleanup_task, CleanupAction, CleanupEvent, CleanupPlan, CleanupState, FileAge, SweepEntry,
    SweepTally, TimeOfDay, Verdict, DAY_NANOS, PAUSE_NANOS,
};
use duplo::disksize::Quotas;

const HOUR: u128 = 3_600_000_000_000;

fn at(hour: u8, minute: u8, second: u8) -> TimeOfDay {
    TimeOfDay::new(hour, minute, second, 0).unwrap()
}

fn plan() -> CleanupPlan {
    CleanupPlan { at: at(3, 0, 0), max_age: 24 * HOUR }
}

#[test]
fn time_of_day_checks_its_fields() {
    assert!(TimeOfDay::new(23, 59, 59, 999_999_999).is_some());
    assert!(TimeOfDay::new(24, 0, 0, 0).is_none());
    assert!(TimeOfDay::new(0, 60, 0, 0).is_none());
    assert!(TimeOfDay::new(0, 0, 60, 0).is_none());
    assert!(TimeOfDay::new(0, 0, 0, 1_000_000_000).is_none());
}

#[test]
fn nanoseconds_since_midnight() {
    assert_eq!(at(0, 0, 0).nanos_since_midnight(), 0);
    assert_eq!(at(1, 2, 3).nanos_since_midnight(), 3_723_000_000_000);
    assert_eq!(
        TimeOfDay::new(23, 59, 59, 999_999_999).unwrap().nanos_since_midnight(),
        DAY_NANOS - 1
    );
}

#[test]
fn wait_until_later_today() {
    assert_eq!(at(1, 0, 0).until_next(&at(3, 0, 0)), 7_200_000_000_000);
}

#[test]
fn wait_is_zero_at_the_time_itself() {
    assert_eq!(at(3, 0, 0).until_next(&at(3, 0, 0)), 0);
}

#[test]
fn wait_rolls_over_to_tomorrow() {
    assert_eq!(at(4, 0, 0).until_next(&at(3, 0, 0)), 23 * 3_600_000_000_000);
    let just_after = TimeOfDay::new(0, 0, 0, 1).unwrap();
    assert_eq!(just_after.until_next(&at(0, 0, 0)), DAY_NANOS - 1);
}

#[test]
fn age_boundary() {
    let max = 24 * HOUR;
    let old = SweepEntry::File { len: 5, age: FileAge::Known(max) };
    let young = SweepEntry::File { len: 5, age: FileAge::Known(max - 1) };
    let ancient = SweepEntry::File { len: 5, age: FileAge::Known(u128::MAX) };
    assert_eq!(old.classify(max), Verdict::Remove);
    assert_eq!(young.classify(max), Verdict::Retain);
    assert_eq!(ancient.classify(max), Verdict::Remove);
}

#[test]
fn zero_maximum_age_removes_every_dated_file() {
    let fresh = SweepEntry::File { len: 5, age: FileAge::Known(0) };
    assert_eq!(fresh.classify(0), Verdict::Remove);
}

#[test]
fn ambiguous_ages_are_retained() {
    let max = 24 * HOUR;
    assert_eq!(SweepEntry::File { len: 5, age: FileAge::Unknown }.classify(max), Verdict::Retain);
    assert_eq!(SweepEntry::File { len: 5, age: FileAge::Future }.classify(max), Verdict::Retain);
    assert_eq!(SweepEntry::File { len: 5, age: FileAge::Future }.classify(0), Verdict::Retain);
}

#[test]
fn other_entries_are_never_removed() {
    assert_eq!(SweepEntry::NotAFile.classify(0), Verdict::Skip);
    assert_eq!(SweepEntry::Unreadable.classify(0), Verdict::Unreadable);
}

#[test]
fn tally_counts_what_stays() {
    let mut tally = SweepTally::new();
    let max = 24 * HOUR;
    assert_eq!(
        tally.on_entry(&SweepEntry::File { len: 7, age: FileAge::Known(HOUR) }, max),
        Verdict::Retain
    );
    assert_eq!(tally.on_entry(&SweepEntry::NotAFile, max), Verdict::Skip);
    assert_eq!(tally.on_entry(&SweepEntry::Unreadable, max), Verdict::Unreadable);
    assert_eq!(
        tally.on_entry(&SweepEntry::File { len: 9, age: FileAge::Known(max) }, max),
        Verdict::Remove
    );
    assert_eq!(
        tally,
        SweepTally {
            bytes_retained: 7,
            files_retained: 1,
            bytes_removed: 0,
            files_removed: 0,
            errors: 1
        }
    );
}

#[test]
fn removal_moves_tally_and_budgets() {
    let mut q = Quotas::new(10, 100);
    q.bytes.current = 50;
    q.files.current = 3;
    let mut tally = SweepTally::new();
    tally.on_removal(&mut q, 20, true);
    assert_eq!(tally.files_removed, 1);
    assert_eq!(tally.bytes_removed, 20);
    assert_eq!(tally.errors, 0);
    assert_eq!(q.bytes.get(), 30);
    assert_eq!(q.files.get(), 2);
    tally.on_removal(&mut q, 20, false);
    assert_eq!(tally.files_removed, 1);
    assert_eq!(tally.bytes_removed, 20);
    assert_eq!(tally.errors, 1);
    assert_eq!(q.bytes.get(), 30);
    assert_eq!(q.files.get(), 2);
}

#[test]
fn task_goes_round() {
    let plan = plan();
    let mut q = Quotas::new(10, 1000);
    q.bytes.current = 300;
    q.files.current = 3;

    let (state, action) = cleanup_task(CleanupState::Idle, CleanupEvent::Clock(at(2, 0, 0)), &plan, &mut q);
    assert_eq!(state, CleanupState::Waiting);
    assert_eq!(action, CleanupAction::Sleep(3_600_000_000_000));

    let (state, action) = cleanup_task(state, CleanupEvent::Woke, &plan, &mut q);
    assert_eq!(state, CleanupState::Sweeping(SweepTally::new()));
    assert_eq!(action, CleanupAction::List);

    let young = SweepEntry::File { len: 100, age: FileAge::Known(HOUR) };
    let (state, action) = cleanup_task(state, CleanupEvent::Entry(young), &plan, &mut q);
    assert_eq!(action, CleanupAction::Next);

    let old = SweepEntry::File { len: 150, age: FileAge::Known(25 * HOUR) };
    let (state, action) = cleanup_task(state, CleanupEvent::Entry(old), &plan, &mut q);
    assert_eq!(action, CleanupAction::Remove);
    assert!(matches!(state, CleanupState::Removing { len: 150, .. }));
    assert_eq!(q.bytes.get(), 300);

    let (state, action) = cleanup_task(state, CleanupEvent::Removal(true), &plan, &mut q);
    assert_eq!(action, CleanupAction::Next);
    assert_eq!(q.bytes.get(), 150);
    assert_eq!(q.files.get(), 2);

    let stuck = SweepEntry::File { len: 50, age: FileAge::Known(48 * HOUR) };
    let (state, action) = cleanup_task(state, CleanupEvent::Entry(stuck), &plan, &mut q);
    assert_eq!(action, CleanupAction::Remove);
    let (state, action) = cleanup_task(state, CleanupEvent::Removal(false), &plan, &mut q);
    assert_eq!(action, CleanupAction::Next);
    assert_eq!(q.bytes.get(), 150);
    assert_eq!(q.files.get(), 2);

    let (state, _) = cleanup_task(state, CleanupEvent::Entry(SweepEntry::NotAFile), &plan, &mut q);
    let (state, _) = cleanup_task(state, CleanupEvent::Entry(SweepEntry::Unreadable), &plan, &mut q);

    let (state, action) = cleanup_task(state, CleanupEvent::ListingDone, &plan, &mut q);
    assert_eq!(state, CleanupState::Waiting);
    assert_eq!(
        action,
        CleanupAction::Pause(SweepTally {
            bytes_retained: 100,
            files_retained: 1,
            bytes_removed: 150,
            files_removed: 1,
            errors: 2
        })
    );
    assert_eq!(PAUSE_NANOS, 60_000_000_000);

    let (state, action) = cleanup_task(state, CleanupEvent::Woke, &plan, &mut q);
    assert_eq!(state, CleanupState::Sweeping(SweepTally::new()));
    assert_eq!(action, CleanupAction::List);
    assert_eq!(q.bytes.get(), 150);
    assert_eq!(q.files.get(), 2);
}

#[test]
fn second_sweep_does_not_wait_for_the_time_of_day() {
    let mut q = Quotas::new(10, 1000);
    for hour in [0u8, 2, 3, 4, 23] {
        let plan = CleanupPlan { at: at(hour, 0, 0), max_age: HOUR };
        let sweeping = CleanupState::Sweeping(SweepTally::new());
        let (state, action) = cleanup_task(sweeping, CleanupEvent::ListingDone, &plan, &mut q);
        assert_eq!(action, CleanupAction::Pause(SweepTally::new()));
        let (state, action) = cleanup_task(state, CleanupEvent::Clock(at(3, 1, 0)), &plan, &mut q);
        assert_eq!(state, CleanupState::Waiting);
        assert_eq!(action, CleanupAction::Ignore);
        let (state, action) = cleanup_task(state, CleanupEvent::Woke, &plan, &mut q);
        assert_eq!(action, CleanupAction::List);
        assert_eq!(state, CleanupState::Sweeping(SweepTally::new()));
    }
}

#[test]
fn first_sweep_waits_for_the_time_of_day() {
    let plan = plan();
    let mut q = Quotas::new(10, 1000);
    let (state, action) =
        cleanup_task(CleanupState::Idle, CleanupEvent::Clock(at(3, 1, 0)), &plan, &mut q);
    assert_eq!(state, CleanupState::Waiting);
    assert_eq!(action, CleanupAction::Sleep(86_340_000_000_000));
    let (state, action) = cleanup_task(state, CleanupEvent::Woke, &plan, &mut q);
    assert_eq!(state, CleanupState::Sweeping(SweepTally::new()));
    assert_eq!(action, CleanupAction::List);
}

#[test]
fn whole_sweep_takes_off_what_went() {
    let plan = plan();
    let mut q = Quotas::new(10, 1000);
    q.bytes.current = 100;
    q.files.current = 2;
    let mut state = CleanupState::Sweeping(SweepTally::new());
    let old = |len: u64| SweepEntry::File { len, age: FileAge::Known(30 * HOUR) };
    let young = |len: u64| SweepEntry::File { len, age: FileAge::Known(HOUR) };
    let listing = [(old(70), true), (young(500), true), (old(20), false), (old(60), true), (old(1), true)];
    for (entry, removed) in listing {
        let (next, action) = cleanup_task(state, CleanupEvent::Entry(entry), &plan, &mut q);
        state = next;
        if action == CleanupAction::Remove {
            let (next, action) = cleanup_task(state, CleanupEvent::Removal(removed), &plan, &mut q);
            assert_eq!(action, CleanupAction::Next);
            state = next;
        }
    }
    assert_eq!(q.files.get(), 0);
    assert_eq!(q.bytes.get(), 0);
    assert_eq!(q.files.allowed, 10);
    assert_eq!(q.bytes.allowed, 1000);
    assert!(matches!(state, CleanupState::Sweeping(_)));

    let mut q = Quotas::new(10, 1000);
    q.bytes.current = 400;
    q.files.current = 7;
    let mut state = CleanupState::Sweeping(SweepTally::new());
    for (entry, removed) in listing {
        let (next, action) = cleanup_task(state, CleanupEvent::Entry(entry), &plan, &mut q);
        state = next;
        if action == CleanupAction::Remove {
            state = cleanup_task(state, CleanupEvent::Removal(removed), &plan, &mut q).0;
        }
    }
    assert_eq!(q.files.get(), 4);
    assert_eq!(q.bytes.get(), 400 - 70 - 60 - 1);
}

#[test]
fn task_stops_when_the_listing_fails() {
    let plan = plan();
    let mut q = Quotas::new(10, 1000);
    let sweeping = CleanupState::Sweeping(SweepTally::new());
    let (state, action) = cleanup_task(sweeping, CleanupEvent::ListingFailed, &plan, &mut q);
    assert_eq!(state, CleanupState::Stopped);
    assert_eq!(action, CleanupAction::Exit);
    let (state, action) = cleanup_task(state, CleanupEvent::Woke, &plan, &mut q);
    assert_eq!(state, CleanupState::Stopped);
    assert_eq!(action, CleanupAction::Exit);
}

#[test]
fn task_ignores_what_does_not_belong() {
    let plan = plan();
    let mut q = Quotas::new(10, 1000);
    q.bytes.current = 10;
    let (state, action) = cleanup_task(CleanupState::Waiting, CleanupEvent::Removal(true), &plan, &mut q);
    assert_eq!(state, CleanupState::Waiting);
    assert_eq!(action, CleanupAction::Ignore);
    assert_eq!(q.bytes.get(), 10);
    let (state, action) = cleanup_task(CleanupState::Idle, CleanupEvent::Woke, &plan, &mut q);
    assert_eq!(state, CleanupState::Idle);
    assert_eq!(action, CleanupAction::Ignore);
}
