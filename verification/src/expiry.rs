//! Which records are due: those whose last recall lies at least one interval
//! back.

use crate::duration::Interval;
use crate::store::{EntryView, Store, Timestamp};
use vstd::prelude::*;

verus! {

/// Nanoseconds in one second.
pub const NANOS_PER_SECOND: i128 = 1_000_000_000;

/// What `nag` comes to.
#[derive(Clone, Copy, Debug, PartialEq, Eq, Structural)]
pub enum Nag {
    /// Nothing is due: nothing is printed and nobody is asked anything.
    Silent,
    /// A record is due: one line reminds the user.
    Remind,
}

/// The age at `now` of a record last recalled at `last_recalled`, in
/// nanoseconds. A record from the future has no age.
pub open spec fn age(now: int, last_recalled: int) -> nat {
    if now >= last_recalled {
        (now - last_recalled) as nat
    } else {
        0
    }
}

/// Whether a record is due: its age is the interval or more. With an
/// interval of no length every record is due.
pub open spec fn due(last_recalled: int, now: int, interval: nat) -> bool {
    age(now, last_recalled) >= interval * 1_000_000_000
}

/// Whether entry `i` of `entries` is due.
pub open spec fn due_at(entries: Seq<EntryView>, i: int, now: int, interval: nat) -> bool {
    due(entries[i].last_recalled, now, interval)
}

/// Whether one of `entries` is due.
pub open spec fn any_due(entries: Seq<EntryView>, now: int, interval: nat) -> bool {
    exists|i: int| 0 <= i < entries.len() && #[trigger] due_at(entries, i, now, interval)
}

/// Whether `i` is the first due entry at or after `from`.
pub open spec fn first_due_from(
    entries: Seq<EntryView>,
    from: int,
    i: int,
    now: int,
    interval: nat,
) -> bool {
    &&& from <= i < entries.len()
    &&& due_at(entries, i, now, interval)
    &&& forall|j: int| from <= j < i ==> !#[trigger] due_at(entries, j, now, interval)
}

/// The first due record at or after `from`, if there is one.
pub open spec fn first_due(entries: Seq<EntryView>, from: int, now: int, interval: nat) -> Option<
    int,
> {
    if exists|i: int| first_due_from(entries, from, i, now, interval) {
        Some(choose|i: int| first_due_from(entries, from, i, now, interval))
    } else {
        None
    }
}

/// Whether none of the entries at or after `from` is due.
pub open spec fn none_due_from(entries: Seq<EntryView>, from: int, now: int, interval: nat) -> bool {
    forall|j: int| from <= j < entries.len() ==> !#[trigger] due_at(entries, j, now, interval)
}

/// Whether `picked` lists the due entries of `entries`: each of them, once,
/// in the order in which they stand, and nothing else.
pub open spec fn lists_due(
    entries: Seq<EntryView>,
    picked: Seq<usize>,
    now: int,
    interval: nat,
) -> bool {
    &&& forall|k: int|
        0 <= k < picked.len() ==> (#[trigger] picked[k]) < entries.len() && due_at(
            entries,
            picked[k] as int,
            now,
            interval,
        )
    &&& forall|k: int, l: int| 0 <= k < l < picked.len() ==> picked[k] < picked[l]
    &&& forall|i: int|
        0 <= i < entries.len() && #[trigger] due_at(entries, i, now, interval) ==> exists|k: int|
            0 <= k < picked.len() && picked[k] == i
}

/// Whether a record last recalled at `last_recalled` is due at `now`.
pub fn is_due(last_recalled: Timestamp, now: Timestamp, interval: Interval) -> (r: bool)
    ensures
        r == due(last_recalled@, now@, interval@),
{
    if last_recalled.nanos > now.nanos {
        interval.secs == 0
    } else {
        let wait: i128 = (interval.secs as i128) * NANOS_PER_SECOND;
        match now.nanos.checked_sub(last_recalled.nanos) {
            Some(elapsed) => elapsed >= wait,
            None => true,
        }
    }
}

/// The first due record at or after `from`, if there is one. Called again
/// with the index after the one it gave, it walks through the due records
/// one by one.
pub fn next_due(store: &Store, from: usize, now: Timestamp, interval: Interval) -> (r: Option<usize>)
    ensures
        match r {
            Some(i) => first_due_from(store@, from as int, i as int, now@, interval@),
            None => none_due_from(store@, from as int, now@, interval@),
        },
        first_due(store@, from as int, now@, interval@) == match r {
            Some(i) => Some(i as int),
            None => None,
        },
{
    proof {
        lemma_first_due(store@, from as int, now@, interval@);
    }
    let n = store.len();
    let mut i: usize = from;
    while i < n
        invariant
            n == store@.len(),
            from <= i,
            forall|j: int| from <= j < i && j < n ==> !#[trigger] due_at(store@, j, now@, interval@),
        decreases n - i,
    {
        match store.entry(i) {
            Some(entry) => {
                if is_due(entry.last_recalled, now, interval) {
                    return Some(i);
                }
            },
            None => {},
        }
        i += 1;
    }
    None
}

/// The due records of the store, by index.
pub fn expired(store: &Store, interval: Interval, now: Timestamp) -> (r: Vec<usize>)
    ensures
        lists_due(store@, r@, now@, interval@),
{
    let n = store.len();
    let mut picked: Vec<usize> = Vec::new();
    let mut from: usize = 0;
    while from < n
        invariant
            n == store@.len(),
            from <= n,
            lists_due(store@.take(from as int), picked@, now@, interval@),
        decreases n - from,
    {
        match next_due(store, from, now, interval) {
            Some(i) => {
                proof {
                    lemma_lists_due_extend(store@, picked@, from as int, i as int, now@, interval@);
                }
                picked.push(i);
                from = i + 1;
            },
            None => {
                proof {
                    lemma_lists_due_rest(store@, picked@, from as int, now@, interval@);
                    assert(store@.take(n as int) =~= store@);
                }
                from = n;
            },
        }
    }
    assert(store@.take(n as int) =~= store@);
    picked
}

/// Whether the user is to be reminded: where a record is due, and only
/// there.
pub fn nag(store: &Store, interval: Interval, now: Timestamp) -> (r: Nag)
    ensures
        r == Nag::Remind <==> any_due(store@, now@, interval@),
        r == Nag::Silent <==> !any_due(store@, now@, interval@),
{
    match next_due(store, 0, now, interval) {
        Some(_) => Nag::Remind,
        None => Nag::Silent,
    }
}

/// There is one first due record at most, and there is one unless no record
/// at or after `from` is due.
pub proof fn lemma_first_due(entries: Seq<EntryView>, from: int, now: int, interval: nat)
    requires
        0 <= from,
    ensures
        match first_due(entries, from, now, interval) {
            Some(i) => first_due_from(entries, from, i, now, interval),
            None => none_due_from(entries, from, now, interval),
        },
        forall|i: int| #[trigger]
            first_due_from(entries, from, i, now, interval) ==> first_due(
                entries,
                from,
                now,
                interval,
            ) == Some(i),
        none_due_from(entries, from, now, interval) ==> first_due(entries, from, now, interval)
            is None,
{
    assert forall|i: int| #[trigger] first_due_from(entries, from, i, now, interval) implies first_due(
        entries,
        from,
        now,
        interval,
    ) == Some(i) by {
        let j = choose|j: int| first_due_from(entries, from, j, now, interval);
        if j < i {
        } else if i < j {
        }
    }
    if first_due(entries, from, now, interval) is None {
        lemma_no_first_due(entries, from, entries.len() as int, now, interval);
    }
}

/// Where no record is the first due one at or after `from`, none between
/// `from` and `upto` is due.
proof fn lemma_no_first_due(entries: Seq<EntryView>, from: int, upto: int, now: int, interval: nat)
    requires
        0 <= from,
        upto <= entries.len(),
        forall|i: int| !first_due_from(entries, from, i, now, interval),
    ensures
        forall|j: int| from <= j < upto ==> !#[trigger] due_at(
            entries,
            j,
            now,
            interval,
        ),
    decreases upto - from,
{
    if from < upto {
        lemma_no_first_due(entries, from, upto - 1, now, interval);
        assert(!first_due_from(entries, from, upto - 1, now, interval));
    }
}

/// A list of the due entries before `from` and the first due entry `i` at
/// or after `from` make the list of the due entries up to and with `i`.
pub proof fn lemma_lists_due_extend(
    entries: Seq<EntryView>,
    picked: Seq<usize>,
    from: int,
    i: int,
    now: int,
    interval: nat,
)
    requires
        0 <= from,
        i <= usize::MAX,
        lists_due(entries.take(from), picked, now, interval),
        first_due_from(entries, from, i, now, interval),
    ensures
        lists_due(entries.take(i + 1), picked.push(i as usize), now, interval),
{
    let before = entries.take(from);
    let after = entries.take(i + 1);
    let more = picked.push(i as usize);
    assert forall|j: int| 0 <= j < after.len() && #[trigger] due_at(
        after,
        j,
        now,
        interval,
    ) implies exists|k: int| 0 <= k < more.len() && more[k] == j by {
        if j < from {
            assert(due_at(before, j, now, interval));
            let k = choose|k: int| 0 <= k < picked.len() && picked[k] == j;
            assert(more[k] == j);
        } else {
            assert(due_at(entries, j, now, interval));
            assert(more[picked.len() as int] == j);
        }
    }
}

/// Where nothing at or after `from` is due, a list of the due entries
/// before `from` is the list of all due entries.
pub proof fn lemma_lists_due_rest(
    entries: Seq<EntryView>,
    picked: Seq<usize>,
    from: int,
    now: int,
    interval: nat,
)
    requires
        0 <= from <= entries.len(),
        lists_due(entries.take(from), picked, now, interval),
        none_due_from(entries, from, now, interval),
    ensures
        lists_due(entries, picked, now, interval),
{
    let before = entries.take(from);
    assert forall|j: int| 0 <= j < entries.len() && #[trigger] due_at(
        entries,
        j,
        now,
        interval,
    ) implies exists|k: int| 0 <= k < picked.len() && picked[k] == j by {
        assert(due_at(before, j, now, interval));
    }
}

/// A record is selected if and only if its age is the interval or more.
pub proof fn lemma_selected_iff_due(
    entries: Seq<EntryView>,
    picked: Seq<usize>,
    now: int,
    interval: nat,
    i: int,
)
    requires
        lists_due(entries, picked, now, interval),
        0 <= i < entries.len(),
        i <= usize::MAX,
    ensures
        picked.contains(i as usize) <==> age(now, entries[i].last_recalled) >= interval
            * 1_000_000_000,
{
    if picked.contains(i as usize) {
        let k = choose|k: int| 0 <= k < picked.len() && picked[k] == i as usize;
        assert(due_at(entries, picked[k] as int, now, interval));
    }
    if due_at(entries, i, now, interval) {
        let k = choose|k: int| 0 <= k < picked.len() && picked[k] == i;
        assert(picked[k] == i as usize);
    }
}

/// With an interval of no length every record is due, whatever its age, and
/// so every record is selected.
pub proof fn lemma_zero_interval_selects_all(
    entries: Seq<EntryView>,
    picked: Seq<usize>,
    now: int,
    i: int,
)
    requires
        lists_due(entries, picked, now, 0),
        0 <= i < entries.len(),
        i <= usize::MAX,
    ensures
        due(entries[i].last_recalled, now, 0),
        picked.contains(i as usize),
{
    lemma_selected_iff_due(entries, picked, now, 0, i);
}

} // verus!
