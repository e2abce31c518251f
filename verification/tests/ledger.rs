use ctvtcntr::ledger::UsageLedger;
use ctvtcntr::logic::Usage;

fn record(date: &str, name: &str, secs: u64) -> Usage {
    Usage { date: date.to_string(), window_name: name.to_string(), usage_time_secs: secs }
}

#[test]
fn new_ledger_is_empty() {
    let ledger = UsageLedger::new();
    assert!(ledger.snapshot().is_empty());
    assert_eq!(ledger.get_usage_for_app_on_date("Discord", "2024-05-01"), None);
}

#[test]
fn accruals_under_one_key_add_up() {
    let mut ledger = UsageLedger::new();
    let deltas = [5u64, 0, 7, 30, 1, 0, 1000];
    let mut sum = 0;
    let mut last = 0;
    for delta in deltas {
        ledger.accrue("2024-05-01", "Discord", delta);
        sum += delta;
        let held = ledger.get_usage_for_app_on_date("Discord", "2024-05-01").unwrap_or(0);
        assert!(held >= last);
        assert_eq!(held, sum);
        last = held;
    }
    assert_eq!(ledger.snapshot(), vec![record("2024-05-01", "Discord", 1043)]);
}

#[test]
fn zero_accrual_makes_no_record() {
    let mut ledger = UsageLedger::new();
    ledger.accrue("2024-05-01", "Discord", 0);
    assert!(ledger.snapshot().is_empty());
    assert_eq!(ledger.get_usage_for_app_on_date("Discord", "2024-05-01"), None);
    ledger.accrue("2024-05-01", "Discord", 3);
    ledger.accrue("2024-05-01", "Discord", 0);
    assert_eq!(ledger.get_usage_for_app_on_date("Discord", "2024-05-01"), Some(3));
}

#[test]
fn keys_are_kept_apart() {
    let mut ledger = UsageLedger::new();
    ledger.accrue("2024-05-01", "Discord", 5);
    ledger.accrue("2024-05-02", "Discord", 7);
    ledger.accrue("2024-05-01", "NeoVim", 11);
    ledger.accrue("2024-05-01", "Discord", 1);
    assert_eq!(ledger.get_usage_for_app_on_date("Discord", "2024-05-01"), Some(6));
    assert_eq!(ledger.get_usage_for_app_on_date("Discord", "2024-05-02"), Some(7));
    assert_eq!(ledger.get_usage_for_app_on_date("NeoVim", "2024-05-01"), Some(11));
    assert_eq!(ledger.get_usage_for_app_on_date("NeoVim", "2024-05-02"), None);
    assert_eq!(ledger.get_usage_for_app_on_date("2024-05-01", "Discord"), None);
}

#[test]
fn snapshot_is_ordered_by_date_then_identity() {
    let mut ledger = UsageLedger::new();
    let accruals = [
        ("2024-05-02", "Kitty", 4),
        ("2024-05-01", "Vim", 1),
        ("2024-05-02", "Discord", 2),
        ("2024-05-01", "Discord", 3),
        ("2024-04-30", "Zed", 9),
        ("2024-05-01", "Disc", 8),
        ("2024-05-01", "discord", 6),
        ("2024-05-01", "\u{e9}diteur", 5),
        ("2024-05-01", "Discord", 10),
    ];
    for (date, name, secs) in accruals {
        ledger.accrue(date, name, secs);
    }
    let snapshot = ledger.snapshot();
    let expected = vec![
        record("2024-04-30", "Zed", 9),
        record("2024-05-01", "Disc", 8),
        record("2024-05-01", "Discord", 13),
        record("2024-05-01", "Vim", 1),
        record("2024-05-01", "discord", 6),
        record("2024-05-01", "\u{e9}diteur", 5),
        record("2024-05-02", "Discord", 2),
        record("2024-05-02", "Kitty", 4),
    ];
    assert_eq!(snapshot, expected);
    let mut by_std = snapshot.clone();
    by_std.sort_by(|a, b| (&a.date, &a.window_name).cmp(&(&b.date, &b.window_name)));
    assert_eq!(snapshot, by_std);
}

#[test]
fn totals_stop_at_the_largest_number() {
    let mut ledger = UsageLedger::new();
    ledger.accrue("d", "a", u64::MAX - 1);
    ledger.accrue("d", "a", 1);
    assert_eq!(ledger.get_usage_for_app_on_date("a", "d"), Some(u64::MAX));
    ledger.accrue("d", "a", 5);
    assert_eq!(ledger.get_usage_for_app_on_date("a", "d"), Some(u64::MAX));
    let mut other = UsageLedger::new();
    other.accrue("d", "a", 10);
    other.accrue("d", "a", u64::MAX);
    assert_eq!(other.get_usage_for_app_on_date("a", "d"), Some(u64::MAX));
}

#[test]
fn upsert_takes_in_a_zero_record() {
    let mut ledger = UsageLedger::new();
    ledger.upsert(&record("2024-05-01", "Discord", 0));
    assert_eq!(ledger.get_usage_for_app_on_date("Discord", "2024-05-01"), Some(0));
    ledger.upsert(&record("2024-05-01", "Discord", 4));
    ledger.upsert(&record("2024-05-01", "Discord", 0));
    assert_eq!(ledger.snapshot(), vec![record("2024-05-01", "Discord", 4)]);
}

#[test]
fn loading_adds_up_records_under_one_key() {
    let rows = vec![
        record("2024-05-02", "Kitty", 4),
        record("2024-05-01", "Discord", 3),
        record("2024-05-02", "Kitty", 6),
        record("2024-05-01", "Vim", 0),
    ];
    let ledger = UsageLedger::from_records(&rows);
    assert_eq!(
        ledger.snapshot(),
        vec![
            record("2024-05-01", "Discord", 3),
            record("2024-05-01", "Vim", 0),
            record("2024-05-02", "Kitty", 10),
        ]
    );
}

#[test]
fn loading_nothing_gives_an_empty_ledger() {
    let ledger = UsageLedger::from_records(&Vec::new());
    assert!(ledger.snapshot().is_empty());
}

#[test]
fn loading_a_snapshot_gives_the_same_ledger() {
    let mut ledger = UsageLedger::new();
    for (date, name, secs) in [("b", "x", 1), ("a", "y", 2), ("a", "x", 3), ("b", "x", 4)] {
        ledger.accrue(date, name, secs);
    }
    let snapshot = ledger.snapshot();
    assert_eq!(UsageLedger::from_records(&snapshot).snapshot(), snapshot);
}

#[test]
fn empty_texts_are_keys_too() {
    let mut ledger = UsageLedger::new();
    ledger.accrue("", "", 1);
    ledger.accrue("", "a", 2);
    ledger.accrue("a", "", 3);
    assert_eq!(
        ledger.snapshot(),
        vec![record("", "", 1), record("", "a", 2), record("a", "", 3)]
    );
}

#[test]
fn refused_records_stay_to_be_written() {
    let tried = vec![
        record("2024-05-01", "Discord", 3),
        record("2024-05-01", "Vim", 5),
        record("2024-05-02", "Kitty", 7),
    ];
    let pending = UsageLedger::still_to_write(&tried, &vec![true, false, true]);
    assert_eq!(pending.snapshot(), vec![record("2024-05-01", "Vim", 5)]);
    let all = UsageLedger::still_to_write(&tried, &vec![false, false, false]);
    assert_eq!(all.snapshot(), tried);
    let none = UsageLedger::still_to_write(&tried, &vec![true, true, true]);
    assert!(none.snapshot().is_empty());
}

#[test]
fn record_without_an_outcome_counts_as_not_written() {
    let tried = vec![record("d", "a", 1), record("d", "b", 2), record("d", "c", 3)];
    let pending = UsageLedger::still_to_write(&tried, &vec![true]);
    assert_eq!(pending.snapshot(), vec![record("d", "b", 2), record("d", "c", 3)]);
    let spare = UsageLedger::still_to_write(&tried, &vec![true, true, true, false, false]);
    assert!(spare.snapshot().is_empty());
    let empty = UsageLedger::still_to_write(&Vec::new(), &vec![false]);
    assert!(empty.snapshot().is_empty());
}

#[test]
fn refused_accruals_add_up_until_they_are_written() {
    let mut unflushed = UsageLedger::new();
    unflushed.accrue("d", "a", 4);
    let tried = unflushed.snapshot();
    unflushed = UsageLedger::still_to_write(&tried, &vec![false]);
    unflushed.accrue("d", "a", 6);
    unflushed.accrue("d", "b", 1);
    let tried = unflushed.snapshot();
    assert_eq!(tried, vec![record("d", "a", 10), record("d", "b", 1)]);
    unflushed = UsageLedger::still_to_write(&tried, &vec![true, false]);
    assert_eq!(unflushed.snapshot(), vec![record("d", "b", 1)]);
}

#[test]
fn unreadable_duration_is_stored_as_zero() {
    let read = Usage::from_stored("2024-05-01".to_string(), "Discord".to_string(), Some(42));
    assert_eq!(read, record("2024-05-01", "Discord", 42));
    let corrupt = Usage::from_stored("2024-05-01".to_string(), "Vim".to_string(), None);
    assert_eq!(corrupt, record("2024-05-01", "Vim", 0));
    let ledger = UsageLedger::from_records(&vec![read, corrupt]);
    assert_eq!(ledger.get_usage_for_app_on_date("Vim", "2024-05-01"), Some(0));
    assert_eq!(ledger.get_usage_for_app_on_date("Discord", "2024-05-01"), Some(42));
}
