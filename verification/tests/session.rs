use tinydancer::codec::{encode, StatType};
use tinydancer::section::Section;
use tinydancer::session::{
    dispatch, elapsed, poll_timeout, timeout_parts, Action, Event, Key, Phase, Session, SessionError,
    TerminalMode, TICK_RATE,
};
use tinydancer::snapshot::AssembleError;
use tinydancer::store::SectionStore;
use tinydancer::app::App;

const NORMAL: TerminalMode = TerminalMode {
    raw_input: false,
    alternate_screen: false,
    mouse_capture: false,
    cursor_hidden: false,
};

fn full_store() -> SectionStore {
    let mut store = SectionStore::new();
    store.put(Section::SlotProgress, 1, encode(&StatType::SlotStats(vec![11, 12])));
    store.put(Section::Sampling, 1, encode(&StatType::SampleStats(vec![(1, 2, 3, 4)])));
    store.put(Section::Verification, 1, encode(&StatType::VerifiedStats(vec![(5, 6, 7)])));
    store.put(Section::SlotProgress, 2, encode(&StatType::SlotStats(vec![21])));
    store.put(Section::Sampling, 2, encode(&StatType::SampleStats(vec![])));
    store.put(Section::Verification, 2, encode(&StatType::VerifiedStats(vec![])));
    store
}

fn session_at_poll() -> Session {
    let mut session = Session::new(TICK_RATE);
    assert_eq!(session.action(), Action::EnableRawMode);
    assert_eq!(session.advance(Event::Completed), Action::EnterScreen);
    assert_eq!(session.advance(Event::Completed), Action::ReadStore);
    assert_eq!(session.advance(Event::StoreRead(full_store())), Action::Draw);
    assert_eq!(
        session.advance(Event::Painted { now: 250_000_000 }),
        Action::Poll { timeout: 750_000_000 }
    );
    session
}

fn restore(session: &mut Session) {
    assert_eq!(session.action(), Action::DisableRawMode);
    assert_eq!(session.advance(Event::Completed), Action::LeaveScreen);
    assert_eq!(session.advance(Event::Completed), Action::ShowCursor);
    assert_eq!(session.advance(Event::Completed), Action::Finish);
}

#[test]
fn poll_timeout_is_the_rest_of_the_tick() {
    assert_eq!(poll_timeout(1_000, 0), 1_000);
    assert_eq!(poll_timeout(1_000, 400), 600);
    assert_eq!(poll_timeout(1_000, 1_000), 0);
    assert_eq!(poll_timeout(1_000, 5_000), 0);
    assert_eq!(poll_timeout(0, 0), 0);
}

#[test]
fn elapsed_never_goes_below_zero() {
    assert_eq!(elapsed(10, 35), 25);
    assert_eq!(elapsed(10, 10), 0);
    assert_eq!(elapsed(35, 10), 0);
}

#[test]
fn dispatch_sends_each_key_to_its_transition() {
    let mut app = App::new("t".to_string(), vec![1, 2, 3], vec![(0, 0, 0, 0)], vec![]);
    dispatch(&mut app, Key::Down);
    assert_eq!(app.selected(), 1);
    dispatch(&mut app, Key::Right);
    assert_eq!(app.selected(), 2);
    dispatch(&mut app, Key::Right);
    assert_eq!(app.selected(), 2);
    dispatch(&mut app, Key::Down);
    assert_eq!(app.selected(), 2);
    dispatch(&mut app, Key::Up);
    assert_eq!(app.selected(), 1);
    dispatch(&mut app, Key::Left);
    assert_eq!(app.selected(), 0);
    dispatch(&mut app, Key::Left);
    assert_eq!(app.selected(), 0);
    assert_eq!(app.active(), Section::SlotProgress);
    dispatch(&mut app, Key::Other);
    dispatch(&mut app, Key::Char('z'));
    assert_eq!(app.selected(), 0);
    assert!(!app.should_quit());
    dispatch(&mut app, Key::Char('q'));
    assert!(app.should_quit());
}

#[test]
fn timeout_splits_into_seconds_and_nanoseconds() {
    assert_eq!(timeout_parts(0), (0, 0));
    assert_eq!(timeout_parts(750_000_000), (0, 750_000_000));
    assert_eq!(timeout_parts(1_000_000_000), (1, 0));
    assert_eq!(timeout_parts(3_000_000_007), (3, 7));
    assert_eq!(
        timeout_parts(u64::MAX as u128 * 1_000_000_000 + 999_999_999),
        (u64::MAX, 999_999_999)
    );
    assert_eq!(timeout_parts((u64::MAX as u128 + 1) * 1_000_000_000 + 5), (u64::MAX, 5));
    assert_eq!(timeout_parts(u128::MAX).0, u64::MAX);
}

#[test]
fn show_changes_the_list_on_display_of_a_session() {
    let mut session = Session::new(TICK_RATE);
    session.show(Section::Sampling);
    assert!(session.app().is_none());
    let mut session = session_at_poll();
    session.advance(Event::Polled { key: Some(Key::Down), now: 300_000_000 });
    assert_eq!(session.app().unwrap().selected(), 1);
    session.show(Section::Sampling);
    assert_eq!(session.app().unwrap().active(), Section::Sampling);
    assert_eq!(session.app().unwrap().selected(), 0);
    assert_eq!(session.action(), Action::ReadStore);
    assert_eq!(session.advance(Event::StoreRead(full_store())), Action::Draw);
    assert_eq!(session.app().unwrap().active(), Section::Sampling);
    assert_eq!(session.app().unwrap().r_list(), &vec![(1, 2, 3, 4)]);
}

#[test]
fn arrows_keep_the_loop_going() {
    for key in [Key::Left, Key::Right, Key::Up, Key::Down] {
        let mut session = session_at_poll();
        assert_eq!(
            session.advance(Event::Polled { key: Some(key), now: 300_000_000 }),
            Action::ReadStore
        );
        let app = session.app().unwrap();
        assert_eq!(app.active(), Section::SlotProgress);
        assert_eq!(app.slot_list(), &vec![11, 12]);
        assert!(app.selected() <= 1);
        assert!(!app.should_quit());
    }
}

#[test]
fn the_first_entry_of_the_snapshot_goes_on_display() {
    let session = session_at_poll();
    let app = session.app().unwrap();
    assert_eq!(app.title(), "Sampler Statistics");
    assert_eq!(app.slot_list(), &vec![11, 12]);
    assert_eq!(app.r_list(), &vec![(1, 2, 3, 4)]);
    assert_eq!(app.v_list(), &vec![(5, 6, 7)]);
    assert_eq!(
        session.mode(),
        TerminalMode {
            raw_input: true,
            alternate_screen: true,
            mouse_capture: true,
            cursor_hidden: true
        }
    );
    assert_eq!(session.outcome(), None);
}

#[test]
fn quit_key_ends_the_loop_and_restores_the_terminal() {
    let mut session = session_at_poll();
    let action = session.advance(Event::Polled { key: Some(Key::Char('q')), now: 300_000_000 });
    assert_eq!(action, Action::DisableRawMode);
    restore(&mut session);
    assert_eq!(session.phase(), Phase::Finished);
    assert_eq!(session.mode(), NORMAL);
    assert_eq!(session.outcome(), Some(Ok(())));
    assert_eq!(session.advance(Event::Completed), Action::Finish);
    assert_eq!(session.mode(), NORMAL);
}

#[test]
fn a_round_reads_draws_and_polls_in_that_order() {
    let mut session = session_at_poll();
    assert_eq!(
        session.advance(Event::Polled { key: Some(Key::Down), now: 400_000_000 }),
        Action::ReadStore
    );
    assert_eq!(session.advance(Event::StoreRead(full_store())), Action::Draw);
    assert_eq!(session.app().unwrap().selected(), 1);
    assert_eq!(
        session.advance(Event::Painted { now: 600_000_000 }),
        Action::Poll { timeout: 400_000_000 }
    );
    assert_eq!(
        session.advance(Event::Polled { key: None, now: 1_000_000_000 }),
        Action::ReadStore
    );
    assert_eq!(session.advance(Event::StoreRead(full_store())), Action::Draw);
    // The tick was due at the last poll, so the next one counts from there.
    assert_eq!(
        session.advance(Event::Painted { now: 1_300_000_000 }),
        Action::Poll { timeout: 700_000_000 }
    );
}

#[test]
fn a_tick_past_due_polls_without_waiting() {
    let mut session = Session::new(TICK_RATE);
    session.advance(Event::Completed);
    session.advance(Event::Completed);
    session.advance(Event::StoreRead(full_store()));
    assert_eq!(
        session.advance(Event::Painted { now: 3_000_000_000 }),
        Action::Poll { timeout: 0 }
    );
}

#[test]
fn failed_paint_restores_the_terminal() {
    let mut session = Session::new(TICK_RATE);
    session.advance(Event::Completed);
    session.advance(Event::Completed);
    session.advance(Event::StoreRead(full_store()));
    assert_eq!(session.advance(Event::Failed), Action::DisableRawMode);
    restore(&mut session);
    assert_eq!(session.mode(), NORMAL);
    assert_eq!(
        session.outcome(),
        Some(Err(SessionError::TerminalIo { during: Phase::Drawing }))
    );
}

#[test]
fn failed_poll_restores_the_terminal() {
    let mut session = session_at_poll();
    assert_eq!(session.advance(Event::Failed), Action::DisableRawMode);
    restore(&mut session);
    assert_eq!(session.mode(), NORMAL);
    assert_eq!(
        session.outcome(),
        Some(Err(SessionError::TerminalIo { during: Phase::Polling }))
    );
}

#[test]
fn failed_setup_restores_the_terminal() {
    let mut session = Session::new(TICK_RATE);
    assert_eq!(session.advance(Event::Failed), Action::DisableRawMode);
    restore(&mut session);
    assert_eq!(session.mode(), NORMAL);
    assert_eq!(
        session.outcome(),
        Some(Err(SessionError::TerminalIo { during: Phase::EnablingRaw }))
    );

    let mut session = Session::new(TICK_RATE);
    session.advance(Event::Completed);
    assert_eq!(session.advance(Event::Failed), Action::DisableRawMode);
    restore(&mut session);
    assert_eq!(session.mode(), NORMAL);
    assert_eq!(
        session.outcome(),
        Some(Err(SessionError::TerminalIo { during: Phase::EnteringScreen }))
    );
}

#[test]
fn a_store_without_a_snapshot_ends_the_session() {
    let mut session = Session::new(TICK_RATE);
    session.advance(Event::Completed);
    session.advance(Event::Completed);
    let mut store = SectionStore::new();
    store.put(Section::SlotProgress, 2, encode(&StatType::SlotStats(vec![1])));
    assert_eq!(session.advance(Event::StoreRead(store)), Action::DisableRawMode);
    assert!(session.app().is_none());
    restore(&mut session);
    assert_eq!(session.mode(), NORMAL);
    assert_eq!(
        session.outcome(),
        Some(Err(SessionError::Assemble(AssembleError::MissingSection {
            section: Section::Sampling,
            key: 2
        })))
    );
}

#[test]
fn an_empty_store_ends_the_session() {
    let mut session = Session::new(TICK_RATE);
    session.advance(Event::Completed);
    session.advance(Event::Completed);
    assert_eq!(session.advance(Event::StoreRead(SectionStore::new())), Action::DisableRawMode);
    restore(&mut session);
    assert_eq!(
        session.outcome(),
        Some(Err(SessionError::Assemble(AssembleError::EmptyStore)))
    );
}

#[test]
fn a_store_that_cannot_be_read_ends_the_session() {
    let mut session = Session::new(TICK_RATE);
    session.advance(Event::Completed);
    session.advance(Event::Completed);
    assert_eq!(session.advance(Event::Failed), Action::DisableRawMode);
    restore(&mut session);
    assert_eq!(session.mode(), NORMAL);
    assert_eq!(session.outcome(), Some(Err(SessionError::StoreOpen)));
}

#[test]
fn an_event_that_does_not_fit_counts_as_failure() {
    let mut session = Session::new(TICK_RATE);
    assert_eq!(session.advance(Event::Painted { now: 1 }), Action::DisableRawMode);
    restore(&mut session);
    assert_eq!(
        session.outcome(),
        Some(Err(SessionError::TerminalIo { during: Phase::EnablingRaw }))
    );
}

#[test]
fn a_failed_restore_step_goes_on_and_keeps_the_first_error() {
    let mut session = session_at_poll();
    session.advance(Event::Failed);
    assert_eq!(session.advance(Event::Failed), Action::LeaveScreen);
    assert_eq!(session.advance(Event::Completed), Action::ShowCursor);
    assert_eq!(session.advance(Event::Completed), Action::Finish);
    assert_eq!(
        session.outcome(),
        Some(Err(SessionError::TerminalIo { during: Phase::Polling }))
    );
    assert_eq!(session.mode(), TerminalMode { raw_input: true, ..NORMAL });

    let mut session = session_at_poll();
    session.advance(Event::Polled { key: Some(Key::Char('q')), now: 0 });
    session.advance(Event::Completed);
    session.advance(Event::Failed);
    session.advance(Event::Completed);
    assert_eq!(
        session.outcome(),
        Some(Err(SessionError::TerminalIo { during: Phase::LeavingScreen }))
    );
}
