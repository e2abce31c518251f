//! The usage ledger: accumulated seconds by day and identity.
//!
//! The ledger is modelled as a map from keys to seconds. It holds its
//! records in the order of their keys, at most one for each key, and no
//! operation lowers a total. Totals stop at `u64::MAX`.

use crate::logic::Usage;
use crate::order::{
    compare_keys, key_precedes, lemma_key_precedes_asymmetric, lemma_key_precedes_irreflexive,
    lemma_key_precedes_transitive, Key, Side,
};
use crate::text::to_chars;
use vstd::prelude::*;
use vstd::string::*;

verus! {

/// One record of the ledger, with the characters of its two texts at hand
/// for comparing.
struct Entry {
    date: String,
    identity: String,
    date_chars: Vec<char>,
    identity_chars: Vec<char>,
    secs: u64,
}

impl Entry {
    spec fn key(self) -> Key {
        (self.date@, self.identity@)
    }

    spec fn wf(self) -> bool {
        &&& self.date_chars@ == self.date@
        &&& self.identity_chars@ == self.identity@
    }
}

/// Whether the entries stand in the strict order of their keys.
spec fn sorted(entries: Seq<Entry>) -> bool {
    &&& forall|i: int| 0 <= i < entries.len() ==> (#[trigger] entries[i]).wf()
    &&& forall|i: int, j: int|
        0 <= i < j < entries.len() ==> key_precedes(
            (#[trigger] entries[i]).key(),
            (#[trigger] entries[j]).key(),
        )
}

/// Whether the entry at index `i` has key `key`.
spec fn holds_at(entries: Seq<Entry>, key: Key, i: int) -> bool {
    0 <= i < entries.len() && entries[i].key() == key
}

/// The map that the entries stand for.
spec fn model(entries: Seq<Entry>) -> Map<Key, u64> {
    Map::new(
        |key: Key| exists|i: int| holds_at(entries, key, i),
        |key: Key| entries[choose|i: int| holds_at(entries, key, i)].secs,
    )
}

/// In sorted entries a key stands at one index at most.
proof fn lemma_one_index(entries: Seq<Entry>, key: Key, i: int, j: int)
    requires
        sorted(entries),
        holds_at(entries, key, i),
        holds_at(entries, key, j),
    ensures
        i == j,
{
    lemma_key_precedes_irreflexive(key);
}

/// What the model holds for the key of the entry at index `i`.
proof fn lemma_model_at(entries: Seq<Entry>, i: int)
    requires
        sorted(entries),
        0 <= i < entries.len(),
    ensures
        model(entries).dom().contains(entries[i].key()),
        model(entries)[entries[i].key()] == entries[i].secs,
{
    let key = entries[i].key();
    assert(holds_at(entries, key, i));
    let j = choose|j: int| holds_at(entries, key, j);
    lemma_one_index(entries, key, i, j);
}

/// The ledger as a map: the seconds held under each key.
pub type Totals = Map<Key, u64>;

/// `seconds` as a total of the ledger: totals stop at `u64::MAX`.
pub open spec fn capped(seconds: nat) -> u64 {
    if seconds > u64::MAX {
        u64::MAX
    } else {
        seconds as u64
    }
}

/// The seconds that `ledger` holds for `key`: zero where it holds no record.
pub open spec fn total_of(ledger: Totals, key: Key) -> nat {
    if ledger.dom().contains(key) {
        ledger[key] as nat
    } else {
        0
    }
}

/// The ledger after `delta` seconds were added under `key`, the record made
/// first where there was none.
pub open spec fn upserted(ledger: Totals, key: Key, delta: nat) -> Totals {
    ledger.insert(key, capped(total_of(ledger, key) + delta))
}

/// The ledger after an accrual of `delta` seconds under `key`. An accrual of
/// zero seconds changes nothing, and makes no record.
pub open spec fn accrued(ledger: Totals, key: Key, delta: nat) -> Totals {
    if delta == 0 {
        ledger
    } else {
        upserted(ledger, key, delta)
    }
}

/// The ledger after one accrual under `key` for each of `deltas`, in order.
pub open spec fn accrued_all(ledger: Totals, key: Key, deltas: Seq<nat>) -> Totals
    decreases deltas.len(),
{
    if deltas.len() == 0 {
        ledger
    } else {
        accrued(accrued_all(ledger, key, deltas.drop_last()), key, deltas.last())
    }
}

/// The sum of `deltas`.
pub open spec fn sum(deltas: Seq<nat>) -> nat
    decreases deltas.len(),
{
    if deltas.len() == 0 {
        0
    } else {
        sum(deltas.drop_last()) + deltas.last()
    }
}

/// The ledger that holds `records`, upserted one after the other.
pub open spec fn loaded(records: Seq<Usage>) -> Totals
    decreases records.len(),
{
    if records.len() == 0 {
        Map::empty()
    } else {
        upserted(
            loaded(records.drop_last()),
            records.last().key(),
            records.last().usage_time_secs as nat,
        )
    }
}

/// The records of `tried` that a store did not take. `written` tells of
/// each record, in order, whether it was written; a record without an
/// outcome counts as not written.
pub open spec fn refused(tried: Seq<Usage>, written: Seq<bool>) -> Seq<Usage>
    decreases tried.len(),
{
    if tried.len() == 0 {
        Seq::empty()
    } else {
        let earlier = refused(tried.drop_last(), written);
        if tried.len() <= written.len() && written[tried.len() - 1] {
            earlier
        } else {
            earlier.push(tried.last())
        }
    }
}

/// Whether `records` is the ledger written out: in the strict order of the
/// keys, one record for each key, with the seconds held under it.
pub open spec fn is_snapshot(records: Seq<Usage>, ledger: Totals) -> bool {
    &&& forall|i: int, j: int|
        0 <= i < j < records.len() ==> key_precedes(
            (#[trigger] records[i]).key(),
            (#[trigger] records[j]).key(),
        )
    &&& forall|i: int|
        0 <= i < records.len() ==> ledger.contains_pair(
            (#[trigger] records[i]).key(),
            records[i].usage_time_secs,
        )
    &&& forall|key: Key| #[trigger]
        ledger.dom().contains(key) ==> exists|i: int|
            0 <= i < records.len() && (#[trigger] records[i]).key() == key
}

/// Accumulated seconds by day and identity.
pub struct UsageLedger {
    entries: Vec<Entry>,
}

impl View for UsageLedger {
    type V = Totals;

    closed spec fn view(&self) -> Totals {
        model(self.entries@)
    }
}

impl UsageLedger {
    #[verifier::type_invariant]
    spec fn well_formed(self) -> bool {
        sorted(self.entries@)
    }

    /// A ledger without records.
    pub fn new() -> (ledger: UsageLedger)
        ensures
            ledger@ == Totals::empty(),
    {
        let ledger = UsageLedger { entries: Vec::new() };
        assert(ledger@ =~= Totals::empty());
        ledger
    }

    /// The index at which the key of `date` and `identity` stands, or where
    /// it would have to be put.
    fn locate(&self, date: &Vec<char>, identity: &Vec<char>) -> (place: (usize, bool))
        ensures
            place.0 <= self.entries@.len(),
            forall|j: int|
                0 <= j < place.0 ==> key_precedes(
                    (#[trigger] self.entries@[j]).key(),
                    (date@, identity@),
                ),
            place.1 ==> holds_at(self.entries@, (date@, identity@), place.0 as int),
            !place.1 ==> forall|j: int|
                place.0 <= j < self.entries@.len() ==> key_precedes(
                    (date@, identity@),
                    (#[trigger] self.entries@[j]).key(),
                ),
    {
        proof {
            use_type_invariant(self);
        }
        let mut at: usize = 0;
        while at < self.entries.len()
            invariant
                at <= self.entries@.len(),
                sorted(self.entries@),
                forall|j: int|
                    0 <= j < at ==> key_precedes(
                        (#[trigger] self.entries@[j]).key(),
                        (date@, identity@),
                    ),
            decreases self.entries@.len() - at,
        {
            let entry = &self.entries[at];
            match compare_keys(&entry.date_chars, &entry.identity_chars, date, identity) {
                Side::Before => {
                    at += 1;
                },
                Side::Same => {
                    return (at, true);
                },
                Side::After => {
                    proof {
                        assert forall|j: int| at <= j < self.entries@.len() implies key_precedes(
                            (date@, identity@),
                            (#[trigger] self.entries@[j]).key(),
                        ) by {
                            if at < j {
                                lemma_key_precedes_transitive(
                                    (date@, identity@),
                                    self.entries@[at as int].key(),
                                    self.entries@[j].key(),
                                );
                            }
                        }
                    }
                    return (at, false);
                },
            }
        }
        (at, false)
    }

    /// Adds `delta` seconds under the key of `date` and `identity`, and makes
    /// the record first where there is none.
    fn add(&mut self, date: &str, identity: &str, delta: u64)
        ensures
            final(self)@ == upserted(old(self)@, (date@, identity@), delta as nat),
    {
        let date_chars = to_chars(date);
        let identity_chars = to_chars(identity);
        let (at, found) = self.locate(&date_chars, &identity_chars);
        proof {
            use_type_invariant(&*self);
        }
        let ghost before = self.entries@;
        let ghost key = (date@, identity@);
        let mut entries: Vec<Entry> = Vec::new();
        std::mem::swap(&mut self.entries, &mut entries);
        if found {
            let held: u64 = entries[at].secs;
            let total: u64 = if delta > u64::MAX - held {
                u64::MAX
            } else {
                held + delta
            };
            entries[at].secs = total;
            proof {
                let after = entries@;
                assert(after.len() == before.len());
                assert forall|i: int| 0 <= i < after.len() implies (#[trigger] after[i]).key()
                    == before[i].key() && after[i].wf() by {}
                assert(sorted(after));
                lemma_upsert_found(before, after, key, at as int);
            }
        } else {
            let entry = Entry {
                date: String::from_str(date),
                identity: String::from_str(identity),
                date_chars,
                identity_chars,
                secs: delta,
            };
            entries.insert(at, entry);
            proof {
                lemma_insert_new(before, entries@, key, at as int);
            }
        }
        self.entries = entries;
    }
}

/// Raising the seconds of the entry at index `at` upserts its key.
proof fn lemma_upsert_found(before: Seq<Entry>, after: Seq<Entry>, key: Key, at: int)
    requires
        sorted(before),
        sorted(after),
        holds_at(before, key, at),
        after.len() == before.len(),
        forall|i: int| 0 <= i < after.len() ==> (#[trigger] after[i]).key() == before[i].key(),
        forall|i: int| 0 <= i < after.len() && i != at ==> (#[trigger] after[i]).secs == before[i].secs,
    ensures
        model(after) =~= model(before).insert(key, after[at].secs),
        total_of(model(before), key) == before[at].secs as nat,
{
    lemma_model_at(before, at);
    assert forall|k: Key| #[trigger] model(after).dom().contains(k) <==> model(before).insert(
        key,
        after[at].secs,
    ).dom().contains(k) by {
        if model(after).dom().contains(k) {
            let i = choose|i: int| holds_at(after, k, i);
            assert(holds_at(before, k, i));
        }
        if model(before).dom().contains(k) {
            let i = choose|i: int| holds_at(before, k, i);
            assert(holds_at(after, k, i));
        }
        if k == key {
            assert(holds_at(after, k, at));
        }
    }
    assert forall|k: Key| #[trigger] model(after).dom().contains(k) implies model(after)[k]
        == model(before).insert(key, after[at].secs)[k] by {
        let i = choose|i: int| holds_at(after, k, i);
        lemma_model_at(after, i);
        if k != key {
            assert(holds_at(before, k, i));
            lemma_model_at(before, i);
        } else {
            assert(holds_at(after, k, at));
            lemma_one_index(after, k, i, at);
        }
    }
}

/// Putting an entry with a new key at its place upserts that key.
proof fn lemma_insert_new(before: Seq<Entry>, after: Seq<Entry>, key: Key, at: int)
    requires
        sorted(before),
        0 <= at <= before.len(),
        after == before.insert(at, after[at]),
        after[at].key() == key,
        after[at].wf(),
        forall|j: int| 0 <= j < at ==> key_precedes((#[trigger] before[j]).key(), key),
        forall|j: int| at <= j < before.len() ==> key_precedes(key, (#[trigger] before[j]).key()),
    ensures
        sorted(after),
        !model(before).dom().contains(key),
        model(after) =~= model(before).insert(key, after[at].secs),
{
    assert forall|i: int, j: int| 0 <= i < j < after.len() implies key_precedes(
        (#[trigger] after[i]).key(),
        (#[trigger] after[j]).key(),
    ) by {
        if j < at {
            assert(after[i] == before[i] && after[j] == before[j]);
        } else if j == at {
            assert(after[i] == before[i]);
        } else if i < at {
            assert(after[i] == before[i] && after[j] == before[j - 1]);
            lemma_key_precedes_transitive(before[i].key(), key, before[j - 1].key());
        } else if i == at {
            assert(after[j] == before[j - 1]);
        } else {
            assert(after[i] == before[i - 1] && after[j] == before[j - 1]);
        }
    }
    assert forall|i: int| 0 <= i < after.len() implies (#[trigger] after[i]).wf() by {
        if i < at {
            assert(after[i] == before[i]);
        } else if i > at {
            assert(after[i] == before[i - 1]);
        }
    }
    if model(before).dom().contains(key) {
        let i = choose|i: int| holds_at(before, key, i);
        lemma_key_precedes_irreflexive(key);
    }
    assert forall|k: Key| #[trigger] model(after).dom().contains(k) <==> model(before).insert(
        key,
        after[at].secs,
    ).dom().contains(k) by {
        if model(after).dom().contains(k) {
            let i = choose|i: int| holds_at(after, k, i);
            if i < at {
                assert(holds_at(before, k, i));
            } else if i > at {
                assert(holds_at(before, k, i - 1));
            }
        }
        if model(before).dom().contains(k) {
            let i = choose|i: int| holds_at(before, k, i);
            if i < at {
                assert(holds_at(after, k, i));
            } else {
                assert(holds_at(after, k, i + 1));
            }
        }
        if k == key {
            assert(holds_at(after, k, at));
        }
    }
    assert forall|k: Key| #[trigger] model(after).dom().contains(k) implies model(after)[k]
        == model(before).insert(key, after[at].secs)[k] by {
        let i = choose|i: int| holds_at(after, k, i);
        lemma_model_at(after, i);
        if i < at {
            assert(holds_at(before, k, i));
            lemma_model_at(before, i);
        } else if i > at {
            assert(holds_at(before, k, i - 1));
            lemma_model_at(before, i - 1);
        }
    }
}

impl UsageLedger {
    /// Adds `delta` seconds to what the ledger holds for `identity` on
    /// `date`. The first accrual under a key makes its record; an accrual of
    /// zero seconds changes nothing.
    pub fn accrue(&mut self, date: &str, identity: &str, delta: u64)
        ensures
            final(self)@ == accrued(old(self)@, (date@, identity@), delta as nat),
    {
        if delta > 0 {
            self.add(date, identity, delta);
        }
    }

    /// Adds the seconds of `record` to what the ledger holds under its key,
    /// or takes the record in where the ledger holds none under that key.
    pub fn upsert(&mut self, record: &Usage)
        ensures
            final(self)@ == upserted(old(self)@, record.key(), record.usage_time_secs as nat),
    {
        self.add(record.date.as_str(), record.window_name.as_str(), record.usage_time_secs);
    }

    /// The seconds held for `window_name` on `date`, if there is a record.
    pub fn get_usage_for_app_on_date(&self, window_name: &str, date: &str) -> (secs: Option<u64>)
        ensures
            secs is Some <==> self@.dom().contains((date@, window_name@)),
            secs matches Some(held) ==> self@[(date@, window_name@)] == held,
    {
        let (at, found) = self.locate(&to_chars(date), &to_chars(window_name));
        proof {
            use_type_invariant(self);
            let key = (date@, window_name@);
            if found {
                lemma_model_at(self.entries@, at as int);
            } else if self@.dom().contains(key) {
                let i = choose|i: int| holds_at(self.entries@, key, i);
                lemma_key_precedes_irreflexive(key);
            }
        }
        if found {
            Some(self.entries[at].secs)
        } else {
            None
        }
    }

    /// The records of the ledger, in the order of date and identity.
    pub fn snapshot(&self) -> (records: Vec<Usage>)
        ensures
            is_snapshot(records@, self@),
    {
        proof {
            use_type_invariant(self);
        }
        let mut records: Vec<Usage> = Vec::new();
        let mut i: usize = 0;
        while i < self.entries.len()
            invariant
                i <= self.entries@.len(),
                records@.len() == i,
                forall|j: int|
                    0 <= j < i ==> (#[trigger] records@[j]).key() == self.entries@[j].key()
                        && records@[j].usage_time_secs == self.entries@[j].secs,
            decreases self.entries@.len() - i,
        {
            let entry = &self.entries[i];
            records.push(
                Usage {
                    date: entry.date.clone(),
                    window_name: entry.identity.clone(),
                    usage_time_secs: entry.secs,
                },
            );
            i += 1;
        }
        proof {
            let entries = self.entries@;
            assert forall|j: int| 0 <= j < records@.len() implies self@.contains_pair(
                (#[trigger] records@[j]).key(),
                records@[j].usage_time_secs,
            ) by {
                lemma_model_at(entries, j);
            }
            assert forall|key: Key| #[trigger] self@.dom().contains(key) implies exists|i: int|
                0 <= i < records@.len() && (#[trigger] records@[i]).key() == key by {
                let i = choose|i: int| holds_at(entries, key, i);
                assert(records@[i].key() == key);
            }
        }
        records
    }

    /// The ledger that holds `records`: what a store hands out when it is
    /// read at startup. Records under one key add up.
    pub fn from_records(records: &Vec<Usage>) -> (ledger: UsageLedger)
        ensures
            ledger@ == loaded(records@),
    {
        let mut ledger = UsageLedger::new();
        let mut i: usize = 0;
        while i < records.len()
            invariant
                i <= records@.len(),
                ledger@ == loaded(records@.take(i as int)),
            decreases records@.len() - i,
        {
            assert(records@.take(i + 1).drop_last() == records@.take(i as int));
            ledger.upsert(&records[i]);
            i += 1;
        }
        assert(records@.take(records@.len() as int) == records@);
        ledger
    }
}

impl UsageLedger {
    /// What is still to be written after a flush: the ledger of the records
    /// of `tried` that the store did not take. `written` tells of each
    /// record, in order, whether it was written. Nothing that was refused is
    /// lost, and nothing that was written is written again.
    pub fn still_to_write(tried: &Vec<Usage>, written: &Vec<bool>) -> (pending: UsageLedger)
        ensures
            pending@ == loaded(refused(tried@, written@)),
    {
        let mut pending = UsageLedger::new();
        let mut i: usize = 0;
        while i < tried.len()
            invariant
                i <= tried@.len(),
                pending@ == loaded(refused(tried@.take(i as int), written@)),
            decreases tried@.len() - i,
        {
            assert(tried@.take(i + 1).drop_last() == tried@.take(i as int));
            let ghost earlier = refused(tried@.take(i as int), written@);
            if !(i < written.len() && written[i]) {
                assert(earlier.push(tried@[i as int]).drop_last() == earlier);
                pending.upsert(&tried[i]);
            }
            i += 1;
        }
        assert(tried@.take(tried@.len() as int) == tried@);
        pending
    }
}

/// A flush that wrote every record leaves nothing to be written.
pub proof fn lemma_all_written(tried: Seq<Usage>, written: Seq<bool>)
    requires
        written.len() >= tried.len(),
        forall|i: int| 0 <= i < tried.len() ==> written[i],
    ensures
        refused(tried, written) == Seq::<Usage>::empty(),
        loaded(refused(tried, written)) == Totals::empty(),
    decreases tried.len(),
{
    if tried.len() > 0 {
        lemma_all_written(tried.drop_last(), written);
    }
}

/// A flush that wrote nothing leaves the whole ledger to be written.
pub proof fn lemma_none_written(tried: Seq<Usage>, written: Seq<bool>, ledger: Totals)
    requires
        is_snapshot(tried, ledger),
        forall|i: int| 0 <= i < tried.len() && i < written.len() ==> !written[i],
    ensures
        refused(tried, written) == tried,
        loaded(refused(tried, written)) == ledger,
{
    lemma_refused_all(tried, written);
    lemma_snapshot_reloads(tried, ledger);
}

/// Where no record was written, every record is refused.
proof fn lemma_refused_all(tried: Seq<Usage>, written: Seq<bool>)
    requires
        forall|i: int| 0 <= i < tried.len() && i < written.len() ==> !written[i],
    ensures
        refused(tried, written) == tried,
    decreases tried.len(),
{
    if tried.len() > 0 {
        lemma_refused_all(tried.drop_last(), written);
        assert(tried.drop_last().push(tried.last()) == tried);
    }
}

/// No accrual lowers a total, under its own key or under another.
pub proof fn lemma_accrual_never_decreases(ledger: Totals, key: Key, delta: nat, other: Key)
    ensures
        total_of(accrued(ledger, key, delta), other) >= total_of(ledger, other),
        other != key ==> total_of(accrued(ledger, key, delta), other) == total_of(ledger, other),
{
}

/// After accruals under one key the ledger holds, under that key, what it
/// held before and the sum of the deltas, stopped at `u64::MAX`. What it
/// holds under other keys is unchanged.
pub proof fn lemma_accruals_add_up(ledger: Totals, key: Key, deltas: Seq<nat>)
    ensures
        total_of(accrued_all(ledger, key, deltas), key) == capped(
            total_of(ledger, key) + sum(deltas),
        ),
        forall|other: Key|
            other != key ==> total_of(#[trigger] accrued_all(ledger, key, deltas), other)
                == total_of(ledger, other),
    decreases deltas.len(),
{
    if deltas.len() > 0 {
        lemma_accruals_add_up(ledger, key, deltas.drop_last());
    }
}

/// Between any two of a run of accruals under one key the total does not
/// fall: a longer run holds at least what a shorter run of the same deltas
/// holds.
pub proof fn lemma_accruals_monotonic(ledger: Totals, key: Key, deltas: Seq<nat>, n: int)
    requires
        0 <= n <= deltas.len(),
    ensures
        total_of(accrued_all(ledger, key, deltas.take(n)), key) <= total_of(
            accrued_all(ledger, key, deltas),
            key,
        ),
    decreases deltas.len() - n,
{
    if n < deltas.len() {
        lemma_accruals_monotonic(ledger, key, deltas, n + 1);
        assert(deltas.take(n + 1).drop_last() == deltas.take(n));
        lemma_accrual_never_decreases(
            accrued_all(ledger, key, deltas.take(n)),
            key,
            deltas[n],
            key,
        );
    } else {
        assert(deltas.take(n) == deltas);
    }
}

/// What loading the first `n` records of a snapshot gives: a record for
/// each of their keys and for no other, with the seconds of that record.
proof fn lemma_loaded_prefix(records: Seq<Usage>, ledger: Totals, n: int)
    requires
        is_snapshot(records, ledger),
        0 <= n <= records.len(),
    ensures
        forall|key: Key| #[trigger]
            loaded(records.take(n)).dom().contains(key) <==> exists|i: int|
                0 <= i < n && (#[trigger] records[i]).key() == key,
        forall|i: int|
            0 <= i < n ==> loaded(records.take(n))[(#[trigger] records[i]).key()]
                == records[i].usage_time_secs,
    decreases n,
{
    if n > 0 {
        lemma_loaded_prefix(records, ledger, n - 1);
        let shorter = loaded(records.take(n - 1));
        let last = records[n - 1];
        assert(records.take(n).drop_last() == records.take(n - 1));
        assert(records.take(n).last() == last);
        assert(loaded(records.take(n)) == upserted(
            shorter,
            last.key(),
            last.usage_time_secs as nat,
        ));
        if shorter.dom().contains(last.key()) {
            let i = choose|i: int| 0 <= i < n - 1 && (#[trigger] records[i]).key() == last.key();
            lemma_key_precedes_irreflexive(last.key());
        }
        assert forall|key: Key| #[trigger]
            loaded(records.take(n)).dom().contains(key) implies exists|i: int|
            0 <= i < n && (#[trigger] records[i]).key() == key by {
            if key != last.key() {
                let i = choose|i: int| 0 <= i < n - 1 && (#[trigger] records[i]).key() == key;
                assert(0 <= i < n && records[i].key() == key);
            }
        }
        assert forall|i: int| 0 <= i < n implies loaded(records.take(n))[(
        #[trigger] records[i]).key()] == records[i].usage_time_secs by {
            if i < n - 1 {
                lemma_key_precedes_asymmetric(records[i].key(), last.key());
            }
        }
    } else {
        assert(records.take(0).len() == 0);
    }
}

/// A snapshot holds the whole ledger: loading it gives the ledger back.
pub proof fn lemma_snapshot_reloads(records: Seq<Usage>, ledger: Totals)
    requires
        is_snapshot(records, ledger),
    ensures
        loaded(records) == ledger,
{
    lemma_loaded_prefix(records, ledger, records.len() as int);
    assert(records.take(records.len() as int) == records);
    assert forall|key: Key| ledger.dom().contains(key) implies #[trigger] loaded(
        records,
    ).dom().contains(key) by {
        let i = choose|i: int| 0 <= i < records.len() && (#[trigger] records[i]).key() == key;
    }
    assert forall|key: Key| #[trigger] loaded(records).dom().contains(key) implies ledger.dom().contains(
        key,
    ) && ledger[key] == loaded(records)[key] by {
        let i = choose|i: int| 0 <= i < records.len() && (#[trigger] records[i]).key() == key;
        assert(ledger.contains_pair(records[i].key(), records[i].usage_time_secs));
    }
    assert(loaded(records) =~= ledger);
}

} // verus!
