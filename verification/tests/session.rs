use passnag::duration::Interval;
use passnag::secret::Secret;
use passnag::hashing::Verdict;
use passnag::session::{summarize, Action, Event, Finding, Phase, Session, Summary};
use passnag::store::{Store, Timestamp};

const SECOND: i128 = 1_000_000_000;

/// The hash of `hunter42`.
const HASH: &str =
    "$argon2id$v=19$m=19456,t=2,p=1$AAECAwQFBgcICQoLDA0ODw$g6Z1Y49h50pabhI8i69BRs/n3tvpgEIdHIPefUUkwFk";

fn at(nanos: i128) -> Timestamp {
    Timestamp { nanos }
}

fn store_of(times: &[i128]) -> Store {
    let mut store = Store::new();
    let mut i = 0;
    while i < times.len() {
        store.put(format!("record{}", i), at(times[i]));
        i += 1;
    }
    store
}

fn typed(text: &str) -> Event {
    Event::Entered(Secret::from_line(format!("{}\n", text)))
}

fn loaded() -> Event {
    Event::Loaded(String::from(HASH))
}

fn time_of(session: &Session, index: usize) -> Timestamp {
    session.store().entry(index).unwrap().last_recalled
}

#[test]
fn three_due_two_recalled_one_skipped_is_mixed() {
    let now = at(1_000 * SECOND);
    let session = Session::begin(store_of(&[0, 1, 2]), Interval { secs: 60 }, now);
    assert_eq!(session.pending(), Action::Load { index: 0 });
    let (session, action) = session.step(loaded());
    assert_eq!(action, Action::Prompt { index: 0, again: false });
    let (session, action) = session.step(typed("hunter42"));
    assert_eq!(action, Action::Touch { index: 0, when: now });
    let (session, action) = session.step(Event::Touched);
    assert_eq!(action, Action::Load { index: 1 });
    let (session, action) = session.step(loaded());
    assert_eq!(action, Action::Prompt { index: 1, again: false });
    let (session, action) = session.step(typed("/skip"));
    assert_eq!(action, Action::Load { index: 2 });
    let (session, action) = session.step(loaded());
    assert_eq!(action, Action::Prompt { index: 2, again: false });
    let (session, action) = session.step(typed("hunter42"));
    assert_eq!(action, Action::Touch { index: 2, when: now });
    let (session, action) = session.step(Event::Touched);
    assert_eq!(action, Action::Finish(Summary::Mixed));
    assert_eq!(session.asked(), 3);
    assert_eq!(session.skipped(), 1);
    assert_eq!(session.summary(), Summary::Mixed);
    assert_eq!(session.phase(), Phase::Finished);
    assert_eq!(time_of(&session, 0), now);
    assert_eq!(time_of(&session, 1), at(1));
    assert_eq!(time_of(&session, 2), now);
}

#[test]
fn one_due_and_skipped_is_single_skipped() {
    let session = Session::begin(store_of(&[0]), Interval { secs: 60 }, at(1_000 * SECOND));
    let (session, _) = session.step(loaded());
    let (session, action) = session.step(typed("/skip"));
    assert_eq!(action, Action::Finish(Summary::SingleSkipped));
    assert_eq!(session.asked(), 1);
    assert_eq!(session.skipped(), 1);
    assert_eq!(time_of(&session, 0), at(0));
}

#[test]
fn nothing_due_is_nothing_to_do() {
    let now = at(1_000 * SECOND);
    let session = Session::begin(store_of(&[990 * SECOND, 2_000 * SECOND]), Interval { secs: 60 }, now);
    assert_eq!(session.pending(), Action::Finish(Summary::NothingToDo));
    assert_eq!(session.phase(), Phase::Finished);
    assert_eq!(session.asked(), 0);
    assert_eq!(session.skipped(), 0);
    let empty = Session::begin(Store::new(), Interval { secs: 0 }, now);
    assert_eq!(empty.pending(), Action::Finish(Summary::NothingToDo));
}

#[test]
fn only_due_records_are_presented() {
    let now = at(1_000 * SECOND);
    let store = store_of(&[990 * SECOND, 0, 2_000 * SECOND, 940 * SECOND, 941 * SECOND]);
    let session = Session::begin(store, Interval { secs: 60 }, now);
    assert_eq!(session.pending(), Action::Load { index: 1 });
    let (session, _) = session.step(loaded());
    let (session, action) = session.step(typed("/skip"));
    assert_eq!(action, Action::Load { index: 3 });
    let (session, _) = session.step(loaded());
    let (session, action) = session.step(typed("/skip"));
    assert_eq!(action, Action::Finish(Summary::AllSkipped));
    assert_eq!(session.asked(), 2);
    assert_eq!(session.skipped(), 2);
}

#[test]
fn a_wrong_secret_is_asked_for_again() {
    let now = at(1_000 * SECOND);
    let session = Session::begin(store_of(&[0]), Interval { secs: 60 }, now);
    let (session, _) = session.step(loaded());
    let (session, action) = session.step(typed("hunter43"));
    assert_eq!(action, Action::Prompt { index: 0, again: true });
    assert_eq!(time_of(&session, 0), at(0));
    let (session, action) = session.step(typed(""));
    assert_eq!(action, Action::Prompt { index: 0, again: true });
    assert_eq!(session.asked(), 1);
    assert_eq!(session.skipped(), 0);
    let (session, action) = session.step(typed("hunter42"));
    assert_eq!(action, Action::Touch { index: 0, when: now });
    let (session, action) = session.step(Event::Touched);
    assert_eq!(action, Action::Finish(Summary::AllCorrect));
    assert_eq!(session.asked(), 1);
    assert_eq!(session.skipped(), 0);
    assert_eq!(time_of(&session, 0), now);
}

#[test]
fn a_skip_after_wrong_secrets_counts_once() {
    let session = Session::begin(store_of(&[0, 0]), Interval { secs: 60 }, at(1_000 * SECOND));
    let (session, _) = session.step(loaded());
    let (session, _) = session.step(typed("wrong"));
    let (session, _) = session.step(typed("wrong again"));
    let (session, action) = session.step(typed("/skip"));
    assert_eq!(action, Action::Load { index: 1 });
    assert_eq!(session.asked(), 2);
    assert_eq!(session.skipped(), 1);
}

#[test]
fn the_skip_token_is_taken_as_it_is_typed() {
    let session = Session::begin(store_of(&[0]), Interval { secs: 60 }, at(1_000 * SECOND));
    let (session, _) = session.step(loaded());
    let (session, action) = session.step(typed("/skip "));
    assert_eq!(action, Action::Prompt { index: 0, again: true });
    let (session, action) = session.step(typed("/Skip"));
    assert_eq!(action, Action::Prompt { index: 0, again: true });
    assert_eq!(session.skipped(), 0);
}

#[test]
fn a_text_that_is_no_hash_ends_the_run() {
    let session = Session::begin(store_of(&[0, 0]), Interval { secs: 60 }, at(1_000 * SECOND));
    let (session, action) = session.step(Event::Loaded(String::from("junk")));
    assert_eq!(action, Action::Abort { index: 0 });
    assert_eq!(session.phase(), Phase::Aborted);
    let (session, action) = session.step(typed("hunter42"));
    assert_eq!(action, Action::Abort { index: 0 });
    let (session, action) = session.step(loaded());
    assert_eq!(action, Action::Abort { index: 0 });
    assert_eq!(time_of(&session, 0), at(0));
}

#[test]
fn a_hash_that_cannot_be_checked_against_ends_the_run() {
    let session = Session::begin(store_of(&[0]), Interval { secs: 60 }, at(1_000 * SECOND));
    let (session, action) = session.step(Event::Loaded(String::from(
        "$scrypt$ln=15,r=8,p=1$c2FsdHNhbHRzYWx0$aGFzaGhhc2hoYXNoaGFzaGhhc2hoYXNoaGFzaGhhc2g",
    )));
    assert_eq!(action, Action::Prompt { index: 0, again: false });
    let (session, action) = session.step(typed("hunter42"));
    assert_eq!(action, Action::Abort { index: 0 });
    assert_eq!(time_of(&session, 0), at(0));
}

#[test]
fn an_event_that_answers_nothing_is_passed_over() {
    let now = at(1_000 * SECOND);
    let session = Session::begin(store_of(&[0]), Interval { secs: 60 }, now);
    let (session, action) = session.step(Event::Touched);
    assert_eq!(action, Action::Load { index: 0 });
    let (session, action) = session.step(typed("hunter42"));
    assert_eq!(action, Action::Load { index: 0 });
    let (session, _) = session.step(loaded());
    let (session, action) = session.step(loaded());
    assert_eq!(action, Action::Prompt { index: 0, again: false });
    let (session, action) = session.step(Event::Touched);
    assert_eq!(action, Action::Prompt { index: 0, again: false });
    assert_eq!(time_of(&session, 0), at(0));
    let (session, _) = session.step(typed("hunter42"));
    let (session, action) = session.step(typed("/skip"));
    assert_eq!(action, Action::Touch { index: 0, when: now });
    let (session, _) = session.step(Event::Touched);
    let (session, action) = session.step(Event::Touched);
    assert_eq!(action, Action::Finish(Summary::AllCorrect));
    assert_eq!(session.asked(), 1);
    assert_eq!(session.skipped(), 0);
}

#[test]
fn without_an_interval_every_record_is_presented() {
    let now = at(1_000 * SECOND);
    let store = store_of(&[999 * SECOND, 1_000 * SECOND, 5_000 * SECOND]);
    let session = Session::begin(store, Interval { secs: 0 }, now);
    assert_eq!(session.pending(), Action::Load { index: 0 });
    let (session, _) = session.step(loaded());
    let (session, _) = session.step(typed("hunter42"));
    let (session, action) = session.step(Event::Touched);
    assert_eq!(action, Action::Load { index: 1 });
    let (session, _) = session.step(loaded());
    let (session, action) = session.step(typed("/skip"));
    assert_eq!(action, Action::Load { index: 2 });
    let (session, _) = session.step(loaded());
    let (session, _) = session.step(typed("hunter42"));
    let (session, action) = session.step(Event::Touched);
    assert_eq!(action, Action::Finish(Summary::Mixed));
    assert_eq!(session.asked(), 3);
    assert_eq!(time_of(&session, 0), now);
    assert_eq!(time_of(&session, 1), at(1_000 * SECOND));
    assert_eq!(time_of(&session, 2), now);
    assert_eq!(session.started(), now);
}

#[test]
fn the_closing_message_goes_by_the_counters() {
    assert_eq!(summarize(0, 0), Summary::NothingToDo);
    assert_eq!(summarize(0, 3), Summary::NothingToDo);
    assert_eq!(summarize(1, 0), Summary::AllCorrect);
    assert_eq!(summarize(7, 0), Summary::AllCorrect);
    assert_eq!(summarize(1, 1), Summary::SingleSkipped);
    assert_eq!(summarize(2, 2), Summary::AllSkipped);
    assert_eq!(summarize(9, 9), Summary::AllSkipped);
    assert_eq!(summarize(3, 1), Summary::Mixed);
    assert_eq!(summarize(3, 2), Summary::Mixed);
    assert_eq!(summarize(2, 1), Summary::Mixed);
}

#[test]
fn findings_drive_a_run_without_hashing() {
    let now = at(1_000 * SECOND);
    let session = Session::begin(store_of(&[0, 0, 0]), Interval { secs: 60 }, now);
    let found = Finding::Loaded { text: String::from("any text"), wellformed: true };
    let (session, action) = session.apply(found);
    assert_eq!(action, Action::Prompt { index: 0, again: false });
    let (session, action) = session.apply(Finding::Checked(Verdict::Mismatch));
    assert_eq!(action, Action::Prompt { index: 0, again: true });
    let (session, action) = session.apply(Finding::Checked(Verdict::Match));
    assert_eq!(action, Action::Touch { index: 0, when: now });
    let (session, action) = session.apply(Finding::Touched);
    assert_eq!(action, Action::Load { index: 1 });
    let found = Finding::Loaded { text: String::from("any text"), wellformed: true };
    let (session, _) = session.apply(found);
    let (session, action) = session.apply(Finding::Skipped);
    assert_eq!(action, Action::Load { index: 2 });
    let found = Finding::Loaded { text: String::from("any text"), wellformed: false };
    let (session, action) = session.apply(found);
    assert_eq!(action, Action::Abort { index: 2 });
    assert_eq!(session.asked(), 3);
    assert_eq!(session.skipped(), 1);
    assert_eq!(time_of(&session, 0), now);
    assert_eq!(time_of(&session, 1), at(0));
    assert_eq!(time_of(&session, 2), at(0));
}

#[test]
fn an_unusable_hash_ends_the_run_where_it_is_found() {
    let session = Session::begin(store_of(&[0]), Interval { secs: 60 }, at(1_000 * SECOND));
    let found = Finding::Loaded { text: String::from("any text"), wellformed: true };
    let (session, _) = session.apply(found);
    let (session, action) = session.apply(Finding::Checked(Verdict::Unusable));
    assert_eq!(action, Action::Abort { index: 0 });
    let (session, action) = session.apply(Finding::Checked(Verdict::Match));
    assert_eq!(action, Action::Abort { index: 0 });
    assert_eq!(time_of(&session, 0), at(0));
    assert_eq!(session.phase(), Phase::Aborted);
}

#[test]
fn a_finding_that_answers_nothing_is_passed_over() {
    let session = Session::begin(store_of(&[0]), Interval { secs: 60 }, at(1_000 * SECOND));
    let (session, action) = session.apply(Finding::Checked(Verdict::Match));
    assert_eq!(action, Action::Load { index: 0 });
    let (session, action) = session.apply(Finding::Skipped);
    assert_eq!(action, Action::Load { index: 0 });
    let (session, action) = session.apply(Finding::Touched);
    assert_eq!(action, Action::Load { index: 0 });
    assert_eq!(session.asked(), 1);
    assert_eq!(session.skipped(), 0);
    assert_eq!(time_of(&session, 0), at(0));
}

#[test]
fn a_hash_string_without_a_digest_ends_the_run_when_it_is_loaded() {
    let session = Session::begin(store_of(&[0]), Interval { secs: 60 }, at(1_000 * SECOND));
    let (session, action) = session.step(Event::Loaded(String::from(
        "$argon2id$v=19$m=19456,t=2,p=1$AAECAwQFBgcICQoLDA0ODw",
    )));
    assert_eq!(action, Action::Abort { index: 0 });
    assert_eq!(session.phase(), Phase::Aborted);
}

#[test]
fn a_hash_string_with_too_many_lanes_ends_the_run_when_it_is_loaded() {
    let session = Session::begin(store_of(&[0]), Interval { secs: 60 }, at(1_000 * SECOND));
    let (session, action) = session.step(Event::Loaded(String::from(
        "$argon2id$v=19$m=19456,t=2,p=536870912$AAECAwQFBgcICQoLDA0ODw$g6Z1Y49h50pabhI8i69BRs/n3tvpgEIdHIPefUUkwFk",
    )));
    assert_eq!(action, Action::Abort { index: 0 });
    assert_eq!(time_of(&session, 0), at(0));
}

#[test]
fn a_text_that_was_passed_off_as_a_hash_is_not_handed_to_argon2() {
    let session = Session::begin(store_of(&[0]), Interval { secs: 60 }, at(1_000 * SECOND));
    let found = Finding::Loaded {
        text: String::from(
            "$argon2id$v=19$m=19456,t=2,p=536870912$AAECAwQFBgcICQoLDA0ODw$g6Z1Y49h50pabhI8i69BRs/n3tvpgEIdHIPefUUkwFk",
        ),
        wellformed: true,
    };
    let (session, action) = session.apply(found);
    assert_eq!(action, Action::Prompt { index: 0, again: false });
    let (session, action) = session.step(typed("hunter42"));
    assert_eq!(action, Action::Abort { index: 0 });
    assert_eq!(time_of(&session, 0), at(0));
}
