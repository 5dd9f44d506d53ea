//! The credential store as the library sees it: the names of the records and
//! when each was last recalled.
//!
//! The store is a directory, and its records are the regular files in it.
//! The caller reads the directory and says of each entry what it is; which
//! entries are records, and what one unreadable entry means for the whole
//! listing, is decided here.

use crate::hashing::{check_secret, is_hash, phc_wellformed, verdict, Verdict};
use crate::secret::Secret;
use crate::text::same_text;
use vstd::prelude::*;

verus! {

/// A point in time, in nanoseconds since the Unix epoch; negative before it.
#[derive(Clone, Copy, Debug, PartialEq, Eq, Structural)]
pub struct Timestamp {
    pub nanos: i128,
}

impl View for Timestamp {
    type V = int;

    open spec fn view(&self) -> int {
        self.nanos as int
    }
}

impl Timestamp {
    /// The point in time `secs` seconds and `nanos` nanoseconds after the
    /// Unix epoch.
    pub fn after_epoch(secs: u64, nanos: u32) -> (r: Timestamp)
        ensures
            r@ == secs * 1_000_000_000 + nanos,
    {
        Timestamp { nanos: (secs as i128) * 1_000_000_000 + (nanos as i128) }
    }

    /// The point in time `secs` seconds and `nanos` nanoseconds before the
    /// Unix epoch.
    pub fn before_epoch(secs: u64, nanos: u32) -> (r: Timestamp)
        ensures
            r@ == -(secs * 1_000_000_000 + nanos),
    {
        Timestamp { nanos: -((secs as i128) * 1_000_000_000 + (nanos as i128)) }
    }
}

/// One record of the store: the credential's name and the time of its last
/// successful recall.
pub struct Entry {
    pub name: String,
    pub last_recalled: Timestamp,
}

/// An entry as a value: its name as text and its time as a number.
pub struct EntryView {
    pub name: Seq<char>,
    pub last_recalled: int,
}

impl View for Entry {
    type V = EntryView;

    open spec fn view(&self) -> EntryView {
        EntryView { name: self.name@, last_recalled: self.last_recalled@ }
    }
}

/// What an entry of the directory turned out to be.
pub enum Listed {
    /// A regular file, by its name and the time at which it was last
    /// modified.
    File { name: String, modified: Timestamp },
    /// Anything that is no regular file: a directory, a link, a device.
    Other,
    /// The entry, or what the system knows of it, could not be read.
    Unreadable,
}

/// A directory entry as a value.
pub enum ListedView {
    File { name: Seq<char>, modified: int },
    Other,
    Unreadable,
}

impl View for Listed {
    type V = ListedView;

    open spec fn view(&self) -> ListedView {
        match self {
            Listed::File { name, modified } => ListedView::File {
                name: name@,
                modified: modified@,
            },
            Listed::Other => ListedView::Other,
            Listed::Unreadable => ListedView::Unreadable,
        }
    }
}

/// The directory entry at `index` could not be read.
#[derive(Clone, Copy, Debug, PartialEq, Eq, Structural)]
pub struct IoError {
    pub index: usize,
}

/// No record of that name.
#[derive(Clone, Copy, Debug, PartialEq, Eq, Structural)]
pub struct NotFound;

/// Why a record cannot be had.
#[derive(Clone, Copy, Debug, PartialEq, Eq, Structural)]
pub enum GetError {
    /// The store has no record of that name.
    NotFound,
    /// What is stored under that name cannot stand as a hash: it is no
    /// hash string, it lacks a salt or a digest, or it asks for more lanes
    /// than Argon2 has.
    CorruptRecord,
}

/// A record with its stored hash.
pub struct Record {
    name: String,
    hash: String,
    last_recalled: Timestamp,
}

/// A record as a value.
pub struct RecordView {
    pub name: Seq<char>,
    pub hash: Seq<char>,
    pub last_recalled: int,
}

impl View for Record {
    type V = RecordView;

    closed spec fn view(&self) -> RecordView {
        RecordView { name: self.name@, hash: self.hash@, last_recalled: self.last_recalled@ }
    }
}

impl Record {
    /// The credential's name.
    pub fn name(&self) -> (r: &str)
        ensures
            r@ == self@.name,
    {
        self.name.as_str()
    }

    /// The stored hash.
    pub fn hash(&self) -> (r: &str)
        ensures
            r@ == self@.hash,
    {
        self.hash.as_str()
    }

    /// The time of the last successful recall.
    pub fn last_recalled(&self) -> (r: Timestamp)
        ensures
            r@ == self@.last_recalled,
    {
        self.last_recalled
    }

    /// Checks `secret` against the stored hash.
    pub fn verify(&self, secret: &Secret) -> (r: Verdict)
        ensures
            r == verdict(secret@, self@.hash),
    {
        check_secret(secret, self.hash.as_str())
    }
}

/// Whether no two of `entries` have the same name.
pub open spec fn distinct_names(entries: Seq<EntryView>) -> bool {
    forall|i: int, j: int|
        0 <= i < entries.len() && 0 <= j < entries.len() && i != j ==> (#[trigger] entries[i]).name
            != (#[trigger] entries[j]).name
}

/// Whether one of `entries` has the name `name`.
pub open spec fn has_name(entries: Seq<EntryView>, name: Seq<char>) -> bool {
    exists|i: int| 0 <= i < entries.len() && (#[trigger] entries[i]).name == name
}

/// Whether `record` is the record named `name` of `entries`, with `text` for
/// its hash.
pub open spec fn got(
    entries: Seq<EntryView>,
    record: RecordView,
    name: Seq<char>,
    text: Seq<char>,
) -> bool {
    &&& record.name == name
    &&& record.hash == text
    &&& exists|i: int|
        0 <= i < entries.len() && #[trigger] entries[i] == (EntryView {
            name,
            last_recalled: record.last_recalled,
        })
}

/// `entries` with the time of entry `i` set to `when`.
pub open spec fn touched_at(entries: Seq<EntryView>, i: int, when: int) -> Seq<EntryView> {
    entries.update(i, EntryView { name: entries[i].name, last_recalled: when })
}

/// `entries` with the time of every entry named `name` set to `when`.
pub open spec fn touched(entries: Seq<EntryView>, name: Seq<char>, when: int) -> Seq<EntryView> {
    Seq::new(
        entries.len(),
        |i: int|
            if entries[i].name == name {
                EntryView { name, last_recalled: when }
            } else {
                entries[i]
            },
    )
}

/// `entries` after a record named `name` was stored at `when`: in place of
/// the record of that name, or behind the others where there is none.
pub open spec fn with_record(entries: Seq<EntryView>, name: Seq<char>, when: int) -> Seq<
    EntryView,
> {
    if has_name(entries, name) {
        touched(entries, name, when)
    } else {
        entries.push(EntryView { name, last_recalled: when })
    }
}

/// The directory entries of `listing` as values.
pub open spec fn listing_views(listing: Seq<Listed>) -> Seq<ListedView> {
    Seq::new(listing.len(), |i: int| listing[i]@)
}

/// The records of a directory with the entries `listing`: its regular
/// files, each with the time at which it was last modified, in the order
/// in which they stand. What is no regular file is no record.
pub open spec fn records_of(listing: Seq<ListedView>) -> Seq<EntryView>
    decreases listing.len(),
{
    if listing.len() == 0 {
        Seq::empty()
    } else {
        match listing.last() {
            ListedView::File { name, modified } => with_record(
                records_of(listing.drop_last()),
                name,
                modified,
            ),
            _ => records_of(listing.drop_last()),
        }
    }
}

/// Whether entry `i` of `listing` is the first that could not be read.
pub open spec fn first_unreadable(listing: Seq<ListedView>, i: int) -> bool {
    &&& 0 <= i < listing.len()
    &&& listing[i] is Unreadable
    &&& forall|j: int| 0 <= j < i ==> !((#[trigger] listing[j]) is Unreadable)
}

/// The entries of `entries` as values.
pub open spec fn views(entries: Seq<Entry>) -> Seq<EntryView> {
    Seq::new(entries.len(), |i: int| entries[i]@)
}

/// The records of a store, in the order in which they were listed. No two
/// have the same name.
pub struct Store {
    entries: Vec<Entry>,
}

impl View for Store {
    type V = Seq<EntryView>;

    closed spec fn view(&self) -> Seq<EntryView> {
        views(self.entries@)
    }
}

impl Store {
    #[verifier::type_invariant]
    spec fn names_are_distinct(&self) -> bool {
        distinct_names(views(self.entries@))
    }

    /// A store without records.
    pub fn new() -> (r: Store)
        ensures
            r@ == Seq::<EntryView>::empty(),
    {
        Store { entries: Vec::new() }
    }

    /// The store that a directory with the entries `listing` holds. One
    /// entry that could not be read fails the whole listing: no record is
    /// passed over in silence.
    pub fn list(listing: &[Listed]) -> (r: Result<Store, IoError>)
        ensures
            match r {
                Ok(store) => {
                    &&& store@ == records_of(listing_views(listing@))
                    &&& forall|j: int|
                        0 <= j < listing@.len() ==> !((#[trigger] listing@[j]) is Unreadable)
                },
                Err(e) => first_unreadable(listing_views(listing@), e.index as int),
            },
    {
        let ghost all = listing_views(listing@);
        let mut store = Store::new();
        let mut i: usize = 0;
        while i < listing.len()
            invariant
                i <= listing@.len(),
                all == listing_views(listing@),
                store@ == records_of(all.take(i as int)),
                forall|j: int| 0 <= j < i ==> !((#[trigger] listing@[j]) is Unreadable),
            decreases listing@.len() - i,
        {
            assert(all.take(i + 1).drop_last() =~= all.take(i as int));
            assert(all.take(i + 1).last() == listing@[i as int]@);
            match &listing[i] {
                Listed::File { name, modified } => {
                    store.put(name.clone(), *modified);
                },
                Listed::Other => {},
                Listed::Unreadable => {
                    return Err(IoError { index: i });
                },
            }
            i += 1;
        }
        assert(all.take(i as int) =~= all);
        Ok(store)
    }

    /// The number of records.
    pub fn len(&self) -> (r: usize)
        ensures
            r == self@.len(),
            distinct_names(self@),
    {
        proof {
            use_type_invariant(self);
        }
        self.entries.len()
    }

    /// The record at `index`, if there is one.
    pub fn entry(&self, index: usize) -> (r: Option<&Entry>)
        ensures
            match r {
                Some(e) => index < self@.len() && e@ == self@[index as int],
                None => index >= self@.len(),
            },
    {
        if index < self.entries.len() {
            Some(&self.entries[index])
        } else {
            None
        }
    }

    /// Where the record named `name` stands, if there is one.
    pub fn position(&self, name: &str) -> (r: Option<usize>)
        ensures
            match r {
                Some(i) => i < self@.len() && self@[i as int].name == name@,
                None => !has_name(self@, name@),
            },
    {
        let mut i: usize = 0;
        while i < self.entries.len()
            invariant
                i <= self.entries@.len(),
                forall|k: int| 0 <= k < i ==> (#[trigger] self@[k]).name != name@,
            decreases self.entries@.len() - i,
        {
            if same_text(self.entries[i].name.as_str(), name) {
                return Some(i);
            }
            i += 1;
        }
        None
    }

    /// The record named `name`, where `text` is what is stored under that
    /// name and `wellformed` says whether it can stand as a hash.
    pub fn get_with(&self, name: &str, text: String, wellformed: bool) -> (r: Result<
        Record,
        GetError,
    >)
        ensures
            match r {
                Ok(record) => got(self@, record@, name@, text@) && wellformed,
                Err(GetError::NotFound) => !has_name(self@, name@),
                Err(GetError::CorruptRecord) => has_name(self@, name@) && !wellformed,
            },
    {
        match self.position(name) {
            None => Err(GetError::NotFound),
            Some(i) => {
                if !wellformed {
                    return Err(GetError::CorruptRecord);
                }
                let entry = &self.entries[i];
                Ok(Record { name: entry.name.clone(), hash: text, last_recalled: entry.last_recalled })
            },
        }
    }

    /// The record named `name`, where `text` is what is stored under that
    /// name. A text that cannot stand as a hash is a corrupt record.
    pub fn get(&self, name: &str, text: String) -> (r: Result<Record, GetError>)
        ensures
            match r {
                Ok(record) => got(self@, record@, name@, text@) && phc_wellformed(text@),
                Err(GetError::NotFound) => !has_name(self@, name@),
                Err(GetError::CorruptRecord) => has_name(self@, name@) && !phc_wellformed(text@),
            },
    {
        let wellformed = is_hash(text.as_str());
        self.get_with(name, text, wellformed)
    }

    /// Sets the time of the record at `index`.
    pub(crate) fn touch_at(&mut self, index: usize, when: Timestamp)
        requires
            index < old(self)@.len(),
        ensures
            final(self)@ == touched_at(old(self)@, index as int, when@),
    {
        proof {
            use_type_invariant(&*self);
        }
        let name = self.entries[index].name.clone();
        let entry = Entry { name, last_recalled: when };
        let mut entries: Vec<Entry> = Vec::new();
        std::mem::swap(&mut self.entries, &mut entries);
        entries.set(index, entry);
        assert(views(entries@) =~= touched_at(old(self)@, index as int, when@));
        self.entries = entries;
    }

    /// Records that `name` was stored at `when`: as a new record, or in
    /// place of the one of that name.
    pub fn put(&mut self, name: String, when: Timestamp)
        ensures
            final(self)@ == with_record(old(self)@, name@, when@),
    {
        proof {
            use_type_invariant(&*self);
        }
        match self.position(name.as_str()) {
            Some(i) => {
                proof {
                    lemma_touched_one(self@, i as int, when@);
                }
                self.touch_at(i, when);
            },
            None => {
                let entry = Entry { name, last_recalled: when };
                let mut entries: Vec<Entry> = Vec::new();
                std::mem::swap(&mut self.entries, &mut entries);
                entries.push(entry);
                assert(views(entries@) =~= old(self)@.push(entry@));
                self.entries = entries;
            },
        }
    }

    /// Sets the time of the last recall of the record named `name` to `when`.
    pub fn touch(&mut self, name: &str, when: Timestamp) -> (r: Result<(), NotFound>)
        ensures
            r is Ok <==> has_name(old(self)@, name@),
            final(self)@ == touched(old(self)@, name@, when@),
    {
        proof {
            use_type_invariant(&*self);
        }
        match self.position(name) {
            Some(i) => {
                proof {
                    lemma_touched_one(self@, i as int, when@);
                }
                self.touch_at(i, when);
                Ok(())
            },
            None => {
                Err(NotFound)
            },
        }
    }
}

/// Where names are distinct, to touch a name is to touch the one entry that
/// has it.
pub proof fn lemma_touched_one(entries: Seq<EntryView>, i: int, when: int)
    requires
        distinct_names(entries),
        0 <= i < entries.len(),
    ensures
        touched(entries, entries[i].name, when) == touched_at(entries, i, when),
{
}

/// To touch a name twice with the same time is to touch it once.
pub proof fn lemma_touch_idempotent(entries: Seq<EntryView>, name: Seq<char>, when: int)
    ensures
        touched(touched(entries, name, when), name, when) == touched(entries, name, when),
{
}

/// To touch a name changes no name and no other record's time.
pub proof fn lemma_touch_keeps_others(entries: Seq<EntryView>, name: Seq<char>, when: int)
    ensures
        touched(entries, name, when).len() == entries.len(),
        forall|i: int|
            0 <= i < entries.len() ==> (#[trigger] touched(entries, name, when)[i]).name
                == entries[i].name,
        forall|i: int|
            0 <= i < entries.len() && entries[i].name != name ==> #[trigger] touched(
                entries,
                name,
                when,
            )[i] == entries[i],
        distinct_names(entries) ==> distinct_names(touched(entries, name, when)),
{
}

/// To store a record keeps the names distinct: a store has one record for
/// a name at most.
pub proof fn lemma_put_keeps_distinct(entries: Seq<EntryView>, name: Seq<char>, when: int)
    requires
        distinct_names(entries),
    ensures
        distinct_names(with_record(entries, name, when)),
{
}

/// Whether entry `j` of `listing` is a regular file with this name and
/// this time.
pub open spec fn is_file(listing: Seq<ListedView>, j: int, name: Seq<char>, modified: int) -> bool {
    0 <= j < listing.len() && listing[j] == (ListedView::File { name, modified })
}

/// Whether `record` has the name and the time of a regular file of
/// `listing`.
pub open spec fn from_file(listing: Seq<ListedView>, record: EntryView) -> bool {
    exists|j: int| is_file(listing, j, record.name, record.last_recalled)
}

/// The records of a directory are its regular files and nothing else: each
/// record has the name and the time of a regular file of the listing, and
/// each regular file of the listing has a record of its name.
pub proof fn lemma_records_are_files(listing: Seq<ListedView>)
    ensures
        forall|k: int|
            0 <= k < records_of(listing).len() ==> from_file(
                listing,
                #[trigger] records_of(listing)[k],
            ),
        forall|j: int, name: Seq<char>, modified: int| #[trigger]
            is_file(listing, j, name, modified) ==> has_name(records_of(listing), name),
    decreases listing.len(),
{
    if listing.len() > 0 {
        let before = listing.drop_last();
        let last = listing.len() - 1;
        let old_records = records_of(before);
        let records = records_of(listing);
        lemma_records_are_files(before);
        assert forall|k: int| 0 <= k < records.len() implies from_file(
            listing,
            #[trigger] records[k],
        ) by {
            if k < old_records.len() && records[k] == old_records[k] {
                assert(from_file(before, old_records[k]));
                let j = choose|j: int|
                    is_file(before, j, old_records[k].name, old_records[k].last_recalled);
                assert(is_file(listing, j, records[k].name, records[k].last_recalled));
            } else {
                assert(is_file(listing, last, records[k].name, records[k].last_recalled));
            }
        }
        assert forall|j: int, name: Seq<char>, modified: int| #[trigger]
            is_file(listing, j, name, modified) implies has_name(records, name) by {
            if j < last {
                assert(is_file(before, j, name, modified));
                let k = choose|k: int|
                    0 <= k < old_records.len() && (#[trigger] old_records[k]).name == name;
                assert(records[k].name == name);
            } else {
                lemma_put_has_name(old_records, name, modified);
            }
        }
    }
}

/// After a record was stored there is a record of its name.
pub proof fn lemma_put_has_name(entries: Seq<EntryView>, name: Seq<char>, when: int)
    ensures
        has_name(with_record(entries, name, when), name),
{
    let after = with_record(entries, name, when);
    if has_name(entries, name) {
        let i = choose|i: int| 0 <= i < entries.len() && (#[trigger] entries[i]).name == name;
        assert(after[i].name == name);
    } else {
        assert(after[entries.len() as int].name == name);
    }
}

} // verus!
