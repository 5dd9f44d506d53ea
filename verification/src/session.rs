//! One training run: the due records are presented one by one, each until
//! the user recalls it or passes over it.
//!
//! The run is a state machine. It reads no terminal and no file: in every
//! state one action is pending, which the caller performs, and the caller
//! then reports what came of it as an event.

use crate::duration::Interval;
use crate::expiry::{
    age, due_at, first_due, first_due_from, lemma_first_due, next_due, none_due_from,
};
use crate::hashing::{check_secret, is_hash, phc_wellformed, verdict, Verdict};
use crate::secret::{Secret, SKIP_TOKEN};
use crate::store::{touched_at, EntryView, Store, Timestamp};
use vstd::prelude::*;

verus! {

/// How a run went, by the class of the message that ends it.
#[derive(Clone, Copy, Debug, PartialEq, Eq, Structural)]
pub enum Summary {
    /// No record was due.
    NothingToDo,
    /// Every record that was presented was recalled.
    AllCorrect,
    /// One record was presented, and it was skipped.
    SingleSkipped,
    /// More than one record was presented, and all were skipped.
    AllSkipped,
    /// Some records were skipped and some were recalled.
    Mixed,
}

/// Where a run stands.
#[derive(Clone, Copy, Debug, PartialEq, Eq, Structural)]
pub enum Phase {
    /// The stored hash of the current record is being fetched.
    Loading,
    /// The user is being asked for the secret of the current record.
    Prompting,
    /// The time of the current record is being set in the store.
    Touching,
    /// Every due record was presented.
    Finished,
    /// The stored hash of the current record is unusable: the run is over.
    Aborted,
}

/// What the caller is to do next.
#[derive(Clone, Copy, Debug, PartialEq, Eq, Structural)]
pub enum Action {
    /// Read the stored hash of the record at `index`, and report it.
    Load { index: usize },
    /// Ask for the secret of the record at `index`, and report what was
    /// typed; `again` says that the last attempt was wrong.
    Prompt { index: usize, again: bool },
    /// Set the time of the record at `index` to `when`, and report that.
    Touch { index: usize, when: Timestamp },
    /// Tell the user how the run went. Nothing is left to do.
    Finish(Summary),
    /// Give up: the record at `index` is corrupt.
    Abort { index: usize },
}

/// What the caller reports.
pub enum Event {
    /// The text of the stored hash of the current record.
    Loaded(String),
    /// What the user typed.
    Entered(Secret),
    /// The time of the current record was set.
    Touched,
}

/// An event as a value.
pub enum EventView {
    Loaded(Seq<char>),
    Entered(Seq<char>),
    Touched,
}

impl View for Event {
    type V = EventView;

    open spec fn view(&self) -> EventView {
        match self {
            Event::Loaded(text) => EventView::Loaded(text@),
            Event::Entered(secret) => EventView::Entered(secret@),
            Event::Touched => EventView::Touched,
        }
    }
}

/// What an event comes to, once the stored hash was looked at: an event
/// together with what the hashing says of it.
pub enum Finding {
    /// The text of the stored hash of the current record, and whether it
    /// can stand as a hash: whether it is a hash string with a salt and a
    /// digest that asks for no more lanes than Argon2 has.
    Loaded { text: String, wellformed: bool },
    /// The user typed the skip token.
    Skipped,
    /// The user typed a secret, and this is what checking it against the
    /// stored hash came to.
    Checked(Verdict),
    /// The time of the current record was set.
    Touched,
}

/// A finding as a value.
pub enum FindingView {
    Loaded { text: Seq<char>, wellformed: bool },
    Skipped,
    Checked(Verdict),
    Touched,
}

impl View for Finding {
    type V = FindingView;

    open spec fn view(&self) -> FindingView {
        match self {
            Finding::Loaded { text, wellformed } => FindingView::Loaded {
                text: text@,
                wellformed: *wellformed,
            },
            Finding::Skipped => FindingView::Skipped,
            Finding::Checked(verdict) => FindingView::Checked(*verdict),
            Finding::Touched => FindingView::Touched,
        }
    }
}

/// A run as a value.
pub struct SessionView {
    /// The records, as they stand now.
    pub entries: Seq<EntryView>,
    /// The interval that makes a record due.
    pub interval: nat,
    /// The time at which the run began.
    pub now: int,
    pub phase: Phase,
    /// The record that is being presented; the number of records once the
    /// run is finished.
    pub current: int,
    /// Whether the last attempt at the current record was wrong.
    pub again: bool,
    /// The stored hash of the current record, once it is loaded.
    pub hash: Seq<char>,
    /// How many records were presented so far.
    pub asked: nat,
    /// How many of them were skipped.
    pub skipped: nat,
}

/// The class of the closing message, by the counters of the run.
pub open spec fn summary_of(asked: nat, skipped: nat) -> Summary {
    if asked == 0 {
        Summary::NothingToDo
    } else if skipped == 0 {
        Summary::AllCorrect
    } else if asked == 1 && skipped == 1 {
        Summary::SingleSkipped
    } else if asked == skipped {
        Summary::AllSkipped
    } else {
        Summary::Mixed
    }
}

/// What holds of a run in every state: no more records were skipped than
/// were presented; the record that is being presented is counted as
/// presented and not as skipped; it is due until it is recalled, and from
/// then on its time is the time at which the run began.
pub open spec fn valid(s: SessionView) -> bool {
    &&& s.skipped <= s.asked
    &&& s.entries.len() <= usize::MAX
    &&& if s.phase == Phase::Finished {
        s.current == s.entries.len() && s.asked <= s.entries.len()
    } else {
        0 <= s.current < s.entries.len() && s.skipped < s.asked <= s.current + 1
    }
    &&& s.phase == Phase::Loading || s.phase == Phase::Prompting ==> due_at(
        s.entries,
        s.current,
        s.now,
        s.interval,
    )
    &&& s.phase == Phase::Touching ==> s.entries[s.current].last_recalled == s.now
}

/// The action that is pending in a state.
pub open spec fn pending(s: SessionView) -> Action {
    match s.phase {
        Phase::Loading => Action::Load { index: s.current as usize },
        Phase::Prompting => Action::Prompt { index: s.current as usize, again: s.again },
        Phase::Touching => Action::Touch {
            index: s.current as usize,
            when: Timestamp { nanos: s.now as i128 },
        },
        Phase::Finished => Action::Finish(summary_of(s.asked, s.skipped)),
        Phase::Aborted => Action::Abort { index: s.current as usize },
    }
}

/// The state after the run has gone on to the first due record at or after
/// `from`: that record is presented and counted, or, where there is none,
/// the run is finished.
pub open spec fn select(s: SessionView, from: int) -> SessionView {
    match first_due(s.entries, from, s.now, s.interval) {
        Some(i) => SessionView {
            phase: Phase::Loading,
            current: i,
            again: false,
            asked: s.asked + 1,
            ..s
        },
        None => SessionView {
            phase: Phase::Finished,
            current: s.entries.len() as int,
            again: false,
            ..s
        },
    }
}

/// The state in which a run over `entries` begins.
pub open spec fn initial(entries: Seq<EntryView>, interval: nat, now: int) -> SessionView {
    select(
        SessionView {
            entries,
            interval,
            now,
            phase: Phase::Finished,
            current: 0,
            again: false,
            hash: Seq::empty(),
            asked: 0,
            skipped: 0,
        },
        0,
    )
}

/// The state that follows `s` on the finding `f`.
///
/// - The stored hash arrives: the user is asked for the secret, unless the
///   text cannot stand as a hash, which ends the run.
/// - The user typed the skip token: the record counts as skipped, and the
///   run goes on to the next due record.
/// - The user typed the secret: the record's time is set to the time at
///   which the run began. A wrong secret changes nothing but `again`. A
///   stored hash that cannot be checked against ends the run.
/// - The time was set: the run goes on to the next due record.
/// - A finding that does not answer the pending action changes nothing.
pub open spec fn apply(s: SessionView, f: FindingView) -> SessionView {
    match (s.phase, f) {
        (Phase::Loading, FindingView::Loaded { text, wellformed }) => if wellformed {
            SessionView { phase: Phase::Prompting, again: false, hash: text, ..s }
        } else {
            SessionView { phase: Phase::Aborted, ..s }
        },
        (Phase::Prompting, FindingView::Skipped) => select(
            SessionView { skipped: s.skipped + 1, ..s },
            s.current + 1,
        ),
        (Phase::Prompting, FindingView::Checked(Verdict::Match)) => SessionView {
            phase: Phase::Touching,
            entries: touched_at(s.entries, s.current, s.now),
            ..s
        },
        (Phase::Prompting, FindingView::Checked(Verdict::Mismatch)) => SessionView {
            again: true,
            ..s
        },
        (Phase::Prompting, FindingView::Checked(Verdict::Unusable)) => SessionView {
            phase: Phase::Aborted,
            ..s
        },
        (Phase::Touching, FindingView::Touched) => select(s, s.current + 1),
        _ => s,
    }
}

/// What the event `e` comes to in the state `s`: a text is looked at as a
/// hash, and what the user typed is the skip token or else a secret, which
/// is checked against the stored hash.
pub open spec fn finding_of(s: SessionView, e: EventView) -> FindingView {
    match e {
        EventView::Loaded(text) => FindingView::Loaded { text, wellformed: phc_wellformed(text) },
        EventView::Entered(secret) => if secret == SKIP_TOKEN@ {
            FindingView::Skipped
        } else {
            FindingView::Checked(verdict(secret, s.hash))
        },
        EventView::Touched => FindingView::Touched,
    }
}

/// The state that follows `s` on the event `e`.
pub open spec fn next(s: SessionView, e: EventView) -> SessionView {
    apply(s, finding_of(s, e))
}

/// The class of the closing message for a run in which `asked` records
/// were presented and `skipped` of them skipped.
pub fn summarize(asked: usize, skipped: usize) -> (r: Summary)
    ensures
        r == summary_of(asked as nat, skipped as nat),
{
    if asked == 0 {
        Summary::NothingToDo
    } else if skipped == 0 {
        Summary::AllCorrect
    } else if asked == 1 && skipped == 1 {
        Summary::SingleSkipped
    } else if asked == skipped {
        Summary::AllSkipped
    } else {
        Summary::Mixed
    }
}

/// A training run over a store.
pub struct Session {
    store: Store,
    interval: Interval,
    now: Timestamp,
    phase: Phase,
    current: usize,
    again: bool,
    hash: String,
    asked: usize,
    skipped: usize,
}

impl View for Session {
    type V = SessionView;

    closed spec fn view(&self) -> SessionView {
        SessionView {
            entries: self.store@,
            interval: self.interval@,
            now: self.now@,
            phase: self.phase,
            current: self.current as int,
            again: self.again,
            hash: self.hash@,
            asked: self.asked as nat,
            skipped: self.skipped as nat,
        }
    }
}

impl Session {
    #[verifier::type_invariant]
    spec fn is_valid(&self) -> bool {
        valid(self@)
    }

    /// Goes on to the first due record at or after `from`.
    fn advance(
        store: Store,
        interval: Interval,
        now: Timestamp,
        from: usize,
        hash: String,
        asked: usize,
        skipped: usize,
    ) -> (r: Session)
        requires
            from <= store@.len(),
            skipped <= asked <= from,
        ensures
            r@ == select(
                SessionView {
                    entries: store@,
                    interval: interval@,
                    now: now@,
                    phase: Phase::Finished,
                    current: 0,
                    again: false,
                    hash: hash@,
                    asked: asked as nat,
                    skipped: skipped as nat,
                },
                from as int,
            ),
    {
        let n = store.len();
        match next_due(&store, from, now, interval) {
            Some(i) => Session {
                store,
                interval,
                now,
                phase: Phase::Loading,
                current: i,
                again: false,
                hash,
                asked: asked + 1,
                skipped,
            },
            None => Session {
                store,
                interval,
                now,
                phase: Phase::Finished,
                current: n,
                again: false,
                hash,
                asked,
                skipped,
            },
        }
    }

    /// Begins a run over `store` at the time `now`: the first due record is
    /// presented, or the run is finished at once where none is due.
    pub fn begin(store: Store, interval: Interval, now: Timestamp) -> (r: Session)
        ensures
            r@ == initial(store@, interval@, now@),
            valid(r@),
    {
        let r = Session::advance(store, interval, now, 0, String::new(), 0, 0);
        proof {
            use_type_invariant(&r);
        }
        r
    }

    /// Takes a finding and gives the state that follows, with the action
    /// that is pending in it.
    pub fn apply(self, finding: Finding) -> (r: (Session, Action))
        ensures
            r.0@ == apply(self@, finding@),
            r.1 == pending(r.0@),
            valid(r.0@),
    {
        proof {
            use_type_invariant(&self);
        }
        let Session { store, interval, now, phase, current, again, hash, asked, skipped } = self;
        let after = match (phase, finding) {
            (Phase::Loading, Finding::Loaded { text, wellformed }) => {
                if wellformed {
                    Session {
                        store,
                        interval,
                        now,
                        phase: Phase::Prompting,
                        current,
                        again: false,
                        hash: text,
                        asked,
                        skipped,
                    }
                } else {
                    Session {
                        store,
                        interval,
                        now,
                        phase: Phase::Aborted,
                        current,
                        again,
                        hash,
                        asked,
                        skipped,
                    }
                }
            },
            (Phase::Prompting, Finding::Skipped) => {
                Session::advance(store, interval, now, current + 1, hash, asked, skipped + 1)
            },
            (Phase::Prompting, Finding::Checked(Verdict::Match)) => {
                let mut store = store;
                store.touch_at(current, now);
                Session {
                    store,
                    interval,
                    now,
                    phase: Phase::Touching,
                    current,
                    again,
                    hash,
                    asked,
                    skipped,
                }
            },
            (Phase::Prompting, Finding::Checked(Verdict::Mismatch)) => Session {
                store,
                interval,
                now,
                phase,
                current,
                again: true,
                hash,
                asked,
                skipped,
            },
            (Phase::Prompting, Finding::Checked(Verdict::Unusable)) => Session {
                store,
                interval,
                now,
                phase: Phase::Aborted,
                current,
                again,
                hash,
                asked,
                skipped,
            },
            (Phase::Touching, Finding::Touched) => {
                Session::advance(store, interval, now, current + 1, hash, asked, skipped)
            },
            (_, _) => Session { store, interval, now, phase, current, again, hash, asked, skipped },
        };
        let action = after.pending();
        (after, action)
    }

    /// Takes what the caller reports and gives the state that follows, with
    /// the action that is pending in it. A text is looked at as a hash;
    /// what the user typed is checked against the stored hash, unless it is
    /// the skip token or no secret was asked for.
    pub fn step(self, event: Event) -> (r: (Session, Action))
        ensures
            r.0@ == next(self@, event@),
            r.1 == pending(r.0@),
            valid(r.0@),
    {
        let finding = match event {
            Event::Loaded(text) => {
                let wellformed = is_hash(text.as_str());
                Finding::Loaded { text, wellformed }
            },
            Event::Entered(secret) => {
                if secret.is_skip() {
                    Finding::Skipped
                } else {
                    match self.phase {
                        Phase::Prompting => Finding::Checked(
                            check_secret(&secret, self.hash.as_str()),
                        ),
                        _ => Finding::Checked(Verdict::Mismatch),
                    }
                }
            },
            Event::Touched => Finding::Touched,
        };
        self.apply(finding)
    }

    /// The action that is pending.
    pub fn pending(&self) -> (r: Action)
        ensures
            r == pending(self@),
            valid(self@),
    {
        proof {
            use_type_invariant(self);
        }
        match self.phase {
            Phase::Loading => Action::Load { index: self.current },
            Phase::Prompting => Action::Prompt { index: self.current, again: self.again },
            Phase::Touching => Action::Touch { index: self.current, when: self.now },
            Phase::Finished => Action::Finish(summarize(self.asked, self.skipped)),
            Phase::Aborted => Action::Abort { index: self.current },
        }
    }

    /// Where the run stands.
    pub fn phase(&self) -> (r: Phase)
        ensures
            r == self@.phase,
    {
        self.phase
    }

    /// How many records were presented so far. A record counts once,
    /// however often its secret was asked for.
    pub fn asked(&self) -> (r: usize)
        ensures
            r == self@.asked,
            self@.skipped <= self@.asked <= self@.entries.len(),
    {
        proof {
            use_type_invariant(self);
        }
        self.asked
    }

    /// How many of the records that were presented were skipped.
    pub fn skipped(&self) -> (r: usize)
        ensures
            r == self@.skipped,
            self@.skipped <= self@.asked,
    {
        proof {
            use_type_invariant(self);
        }
        self.skipped
    }

    /// The class of the message that would end the run as it stands.
    pub fn summary(&self) -> (r: Summary)
        ensures
            r == summary_of(self@.asked, self@.skipped),
    {
        summarize(self.asked, self.skipped)
    }

    /// The time at which the run began, to which every recalled record is
    /// set.
    pub fn started(&self) -> (r: Timestamp)
        ensures
            r@ == self@.now,
    {
        self.now
    }

    /// The records, as the run has left them so far.
    pub fn store(&self) -> (r: &Store)
        ensures
            r@ == self@.entries,
    {
        &self.store
    }
}

/// A run begins in a valid state.
pub proof fn lemma_initial_valid(entries: Seq<EntryView>, interval: nat, now: int)
    requires
        entries.len() <= usize::MAX,
    ensures
        valid(initial(entries, interval, now)),
{
    lemma_first_due(entries, 0, now, interval);
}

/// Every finding leaves a valid state valid: at no time are more records
/// skipped than were presented, and while a record is being presented it
/// is not yet counted as skipped.
pub proof fn lemma_apply_valid(s: SessionView, f: FindingView)
    requires
        valid(s),
    ensures
        valid(apply(s, f)),
{
    lemma_first_due(s.entries, s.current + 1, s.now, s.interval);
}

/// Nothing but a secret that matches the stored hash changes a record, and
/// what it changes is the time of the record that is being presented, which
/// becomes the time at which the run began. The interval and that time
/// never change: all records recalled in one run get the same time.
pub proof fn lemma_fails_closed(s: SessionView, f: FindingView)
    ensures
        apply(s, f).now == s.now,
        apply(s, f).interval == s.interval,
        apply(s, f).entries != s.entries ==> s.phase == Phase::Prompting && f
            == FindingView::Checked(Verdict::Match) && apply(s, f).entries == touched_at(
            s.entries,
            s.current,
            s.now,
        ),
        apply(s, f).phase == Phase::Touching && s.phase != Phase::Touching ==> s.phase
            == Phase::Prompting && f == FindingView::Checked(Verdict::Match),
{
}

/// A recall never sets a record's time back, unless the record is from the
/// future, which only a run without an interval presents. No finding
/// changes the number of records or a name.
pub proof fn lemma_recall_moves_time_forward(s: SessionView, f: FindingView, i: int)
    requires
        valid(s),
        0 <= i < s.entries.len(),
    ensures
        apply(s, f).entries.len() == s.entries.len(),
        apply(s, f).entries[i].name == s.entries[i].name,
        apply(s, f).entries[i].last_recalled >= s.entries[i].last_recalled || (s.interval == 0
            && age(s.now, s.entries[i].last_recalled) == 0),
{
}

/// A record counts once, however often its secret is asked for: a wrong
/// secret changes no counter and leaves the record where it is.
pub proof fn lemma_retry_counts_once(s: SessionView)
    requires
        s.phase == Phase::Prompting,
    ensures
        apply(s, FindingView::Checked(Verdict::Mismatch)) == (SessionView { again: true, ..s }),
        pending(apply(s, FindingView::Checked(Verdict::Mismatch))) == (Action::Prompt {
            index: s.current as usize,
            again: true,
        }),
{
}

/// The skip token ends the presentation of a record: it counts as skipped,
/// its time stays, and the run goes on to a later record or ends.
pub proof fn lemma_skip(s: SessionView)
    requires
        valid(s),
        s.phase == Phase::Prompting,
    ensures
        apply(s, FindingView::Skipped).skipped == s.skipped + 1,
        apply(s, FindingView::Skipped).asked >= s.asked,
        apply(s, FindingView::Skipped).entries == s.entries,
        apply(s, FindingView::Skipped).current > s.current,
{
    lemma_first_due(s.entries, s.current + 1, s.now, s.interval);
}

/// A stored hash that the secret matches is accepted when it is loaded, and
/// the secret then sets the record's time, unless it is the skip token.
pub proof fn lemma_matching_secret_is_recalled(s: SessionView, hash: Seq<char>, secret: Seq<char>)
    requires
        s.phase == Phase::Loading,
        phc_wellformed(hash),
        verdict(secret, hash) == Verdict::Match,
        secret != SKIP_TOKEN@,
    ensures
        next(next(s, EventView::Loaded(hash)), EventView::Entered(secret)).phase
            == Phase::Touching,
        next(next(s, EventView::Loaded(hash)), EventView::Entered(secret)).entries == touched_at(
            s.entries,
            s.current,
            s.now,
        ),
{
}

/// Where no record is due a run is finished as it begins: nobody is asked
/// anything, and the closing message says that nothing was to be done.
pub proof fn lemma_nothing_due(entries: Seq<EntryView>, interval: nat, now: int)
    requires
        none_due_from(entries, 0, now, interval),
    ensures
        initial(entries, interval, now).phase == Phase::Finished,
        initial(entries, interval, now).asked == 0,
        pending(initial(entries, interval, now)) == Action::Finish(Summary::NothingToDo),
{
    lemma_first_due(entries, 0, now, interval);
}

/// With an interval of no length a run presents the records one after the
/// other, whatever their age: first the first, and after record `i` record
/// `i + 1`.
pub proof fn lemma_zero_interval_presents_all(s: SessionView, from: int)
    requires
        s.interval == 0,
        0 <= from < s.entries.len(),
    ensures
        select(s, from).phase == Phase::Loading,
        select(s, from).current == from,
{
    assert(first_due_from(s.entries, from, from, s.now, s.interval));
    lemma_first_due(s.entries, from, s.now, s.interval);
}

} // verus!
