//! The decisions of the render loop.
//!
//! A dashboard session is a state machine. The program that owns the terminal
//! performs the action that the session asks for and reports what came of it;
//! the session answers with the next action. One round of the loop reads the
//! store, draws, and polls for a key, in that order. Whatever ends the loop,
//! a quit key or a failure, the session asks for the terminal to be put back
//! (raw input off, alternate screen left, cursor shown) before it finishes.

use crate::app::{App, AppView, QUIT_KEY};
use crate::section::Section;
use crate::snapshot::{assemble, failure_of, lemma_failure_of, record_at, AssembleError};
use crate::store::SectionStore;
use vstd::prelude::*;
use vstd::string::StringExecFns;

verus! {

/// The tick rate of a dashboard, in nanoseconds: one second.
pub const TICK_RATE: u128 = 1_000_000_000;

/// A key press, as far as the loop tells keys apart.
#[derive(Clone, Copy, Debug, PartialEq, Eq, Structural)]
pub enum Key {
    Char(char),
    Left,
    Right,
    Up,
    Down,
    Other,
}

/// Where a session stands: the action it waits for.
#[derive(Clone, Copy, Debug, PartialEq, Eq, Structural)]
pub enum Phase {
    EnablingRaw,
    EnteringScreen,
    Reading,
    Drawing,
    Polling,
    DisablingRaw,
    LeavingScreen,
    ShowingCursor,
    Finished,
}

/// What may differ from a terminal's normal mode.
#[derive(Clone, Copy, Debug, PartialEq, Eq, Structural)]
pub struct TerminalMode {
    pub raw_input: bool,
    pub alternate_screen: bool,
    pub mouse_capture: bool,
    pub cursor_hidden: bool,
}

/// What the session asks its owner to do next.
#[derive(Clone, Copy, Debug, PartialEq, Eq, Structural)]
pub enum Action {
    /// Switch the terminal to raw input.
    EnableRawMode,
    /// Enter the alternate screen and capture the mouse.
    EnterScreen,
    /// Read the sections of the store into a store image.
    ReadStore,
    /// Paint the dashboard state.
    Draw,
    /// Wait for a key, for at most `timeout` nanoseconds.
    Poll { timeout: u128 },
    /// Switch raw input off.
    DisableRawMode,
    /// Leave the alternate screen and release the mouse.
    LeaveScreen,
    /// Show the cursor.
    ShowCursor,
    /// Nothing is left to do: the session is over.
    Finish,
}

/// What came of the action that the session asked for.
pub enum Event {
    /// A terminal operation was carried out.
    Completed,
    /// The action failed.
    Failed,
    /// The store was read.
    StoreRead(SectionStore),
    /// The dashboard was painted; `now` is the clock reading after it.
    Painted { now: u128 },
    /// The wait for a key ended, with a key or without; `now` is the clock
    /// reading after it.
    Polled { key: Option<Key>, now: u128 },
}

/// Why a session ended other than by the quit key.
#[derive(Clone, Copy, Debug, PartialEq, Eq)]
pub enum SessionError {
    /// A terminal operation failed; `during` is the phase it belongs to.
    TerminalIo { during: Phase },
    /// The store could not be opened or read.
    StoreOpen,
    /// The store gave no snapshot.
    Assemble(AssembleError),
}

/// The terminal's normal mode.
pub open spec fn normal_mode() -> TerminalMode {
    TerminalMode {
        raw_input: false,
        alternate_screen: false,
        mouse_capture: false,
        cursor_hidden: false,
    }
}

/// The time from the clock reading `since` to the reading `now`; none where
/// `now` lies before `since`.
pub open spec fn elapsed_spec(since: u128, now: u128) -> u128 {
    if now >= since {
        (now - since) as u128
    } else {
        0
    }
}

/// The time left until the next tick: the tick rate less the time elapsed
/// since the last tick, and none once the tick is due.
pub open spec fn poll_timeout_spec(tick_rate: u128, elapsed: u128) -> u128 {
    if elapsed >= tick_rate {
        0
    } else {
        (tick_rate - elapsed) as u128
    }
}

/// The whole seconds of a time in nanoseconds, as far as 64 bits hold them.
pub open spec fn timeout_seconds(timeout: u128) -> u64 {
    if timeout / 1_000_000_000 > u64::MAX {
        u64::MAX
    } else {
        (timeout / 1_000_000_000) as u64
    }
}

/// The nanoseconds of a time beyond its whole seconds.
pub open spec fn timeout_nanos(timeout: u128) -> u32 {
    (timeout % 1_000_000_000) as u32
}

/// The dashboard state after a key press.
pub open spec fn key_effect(view: AppView, key: Key) -> AppView {
    match key {
        Key::Char(c) => view.on_key(c),
        Key::Left => view.on_left(),
        Key::Right => view.on_right(),
        Key::Up => view.on_up(),
        Key::Down => view.on_down(),
        Key::Other => view,
    }
}

/// The dashboard state after the outcome of a poll.
pub open spec fn input_effect(view: AppView, key: Option<Key>) -> AppView {
    match key {
        Some(key) => key_effect(view, key),
        None => view,
    }
}

/// The slot list that a dashboard shows of `store`: the record under the
/// first key.
pub open spec fn shown_slots(store: SectionStore) -> Seq<usize> {
    let key = store.keys(Section::SlotProgress)[0];
    record_at(store, Section::SlotProgress, key)->Some_0->SlotStats_0
}

/// The sampling list that a dashboard shows of `store`.
pub open spec fn shown_samples(store: SectionStore) -> Seq<(usize, usize, usize, usize)> {
    let key = store.keys(Section::SlotProgress)[0];
    record_at(store, Section::Sampling, key)->Some_0->SampleStats_0
}

/// The verification list that a dashboard shows of `store`.
pub open spec fn shown_verified(store: SectionStore) -> Seq<(usize, usize, usize)> {
    let key = store.keys(Section::SlotProgress)[0];
    record_at(store, Section::Verification, key)->Some_0->VerifiedStats_0
}

/// The dashboard state once `store` has been read: a new dashboard on the
/// first read, the old one with new lists later.
pub open spec fn dashboard_of(app: Option<AppView>, store: SectionStore) -> AppView {
    match app {
        None => AppView {
            title: "Sampler Statistics"@,
            slots: shown_slots(store),
            samples: shown_samples(store),
            verified: shown_verified(store),
            active: Section::SlotProgress,
            selected: 0,
            should_quit: false,
        },
        Some(view) => view.refreshed(
            shown_slots(store),
            shown_samples(store),
            shown_verified(store),
        ),
    }
}

/// Whether `phase` is one of the three that put the terminal back.
pub open spec fn restoring(phase: Phase) -> bool {
    phase == Phase::DisablingRaw || phase == Phase::LeavingScreen || phase == Phase::ShowingCursor
}

/// The mathematical value of a session.
pub struct SessionView {
    pub app: Option<AppView>,
    pub phase: Phase,
    /// The mode the terminal may be in: a flag is set once the session has
    /// asked for the change, and cleared once the change back was carried out.
    pub mode: TerminalMode,
    pub tick_rate: u128,
    /// The clock reading at the last tick.
    pub last_tick: u128,
    /// How long the next poll may wait.
    pub timeout: u128,
    /// The first failure of the session.
    pub failure: Option<SessionError>,
}

impl SessionView {
    /// A session that has not done anything yet.
    pub open spec fn initial(tick_rate: u128) -> SessionView {
        SessionView {
            app: None,
            phase: Phase::EnablingRaw,
            mode: normal_mode(),
            tick_rate,
            last_tick: 0,
            timeout: 0,
            failure: None,
        }
    }

    /// The action that the session waits for.
    pub open spec fn action(self) -> Action {
        match self.phase {
            Phase::EnablingRaw => Action::EnableRawMode,
            Phase::EnteringScreen => Action::EnterScreen,
            Phase::Reading => Action::ReadStore,
            Phase::Drawing => Action::Draw,
            Phase::Polling => Action::Poll { timeout: self.timeout },
            Phase::DisablingRaw => Action::DisableRawMode,
            Phase::LeavingScreen => Action::LeaveScreen,
            Phase::ShowingCursor => Action::ShowCursor,
            Phase::Finished => Action::Finish,
        }
    }

    /// How the session ended, once it has: with its first failure, or well.
    pub open spec fn outcome(self) -> Option<Result<(), SessionError>> {
        if self.phase == Phase::Finished {
            match self.failure {
                Some(error) => Some(Err(error)),
                None => Some(Ok(())),
            }
        } else {
            None
        }
    }

    /// Whether the loop is still going: the terminal is being set up, or a
    /// round is under way.
    pub open spec fn in_loop(self) -> bool {
        self.phase == Phase::EnablingRaw || self.phase == Phase::EnteringScreen || self.phase
            == Phase::Reading || self.phase == Phase::Drawing || self.phase == Phase::Polling
    }

    /// What holds of every session: there is no dashboard before the store
    /// was read and there is one when it is painted and when a key is
    /// awaited; as long as the loop goes on nothing has failed and the
    /// dashboard has not been quit; and the cursor of the dashboard is within
    /// the list that it shows.
    pub open spec fn wf(self) -> bool {
        &&& self.phase == Phase::EnablingRaw || self.phase == Phase::EnteringScreen
            ==> self.app is None
        &&& self.phase == Phase::Drawing || self.phase == Phase::Polling ==> self.app is Some
        &&& self.in_loop() ==> self.failure is None
        &&& self.in_loop() ==> (self.app matches Some(view) ==> !view.should_quit)
        &&& self.app matches Some(view) ==> view.in_bounds()
    }

    /// The session with the list of `section` on display, where it has a
    /// dashboard.
    pub open spec fn show(self, section: Section) -> SessionView {
        SessionView {
            app: match self.app {
                Some(view) => Some(view.show(section)),
                None => None,
            },
            ..self
        }
    }

    /// The session when `error` ends the loop: the terminal is put back
    /// next, and the first error is kept.
    pub open spec fn fail(self, error: SessionError) -> SessionView {
        SessionView {
            phase: Phase::DisablingRaw,
            failure: if self.failure is None {
                Some(error)
            } else {
                self.failure
            },
            ..self
        }
    }

    /// The session when a step of putting the terminal back ends: on to the
    /// `next` phase, whether or not the step was carried out.
    pub open spec fn restore_step(self, event: Event, cleared: TerminalMode, next: Phase) -> SessionView {
        if event is Completed {
            SessionView { mode: cleared, phase: next, ..self }
        } else {
            SessionView {
                phase: next,
                failure: if self.failure is None {
                    Some(SessionError::TerminalIo { during: self.phase })
                } else {
                    self.failure
                },
                ..self
            }
        }
    }

    /// The session after `event` came of the action it asked for. An event
    /// that cannot come of that action counts as its failure.
    pub open spec fn step(self, event: Event) -> SessionView {
        match self.phase {
            Phase::EnablingRaw => {
                let touched = SessionView {
                    mode: TerminalMode { raw_input: true, ..self.mode },
                    ..self
                };
                if event is Completed {
                    SessionView { phase: Phase::EnteringScreen, ..touched }
                } else {
                    touched.fail(SessionError::TerminalIo { during: Phase::EnablingRaw })
                }
            },
            Phase::EnteringScreen => {
                let touched = SessionView {
                    mode: TerminalMode {
                        alternate_screen: true,
                        mouse_capture: true,
                        ..self.mode
                    },
                    ..self
                };
                if event is Completed {
                    SessionView { phase: Phase::Reading, ..touched }
                } else {
                    touched.fail(SessionError::TerminalIo { during: Phase::EnteringScreen })
                }
            },
            Phase::Reading => match event {
                Event::StoreRead(store) => match failure_of(store) {
                    Some(error) => self.fail(SessionError::Assemble(error)),
                    None => SessionView {
                        app: Some(dashboard_of(self.app, store)),
                        phase: Phase::Drawing,
                        ..self
                    },
                },
                _ => self.fail(SessionError::StoreOpen),
            },
            Phase::Drawing => {
                let touched = SessionView {
                    mode: TerminalMode { cursor_hidden: true, ..self.mode },
                    ..self
                };
                match event {
                    Event::Painted { now } => SessionView {
                        phase: Phase::Polling,
                        timeout: poll_timeout_spec(
                            self.tick_rate,
                            elapsed_spec(self.last_tick, now),
                        ),
                        ..touched
                    },
                    _ => touched.fail(SessionError::TerminalIo { during: Phase::Drawing }),
                }
            },
            Phase::Polling => match event {
                Event::Polled { key, now } => {
                    let app = match self.app {
                        Some(view) => Some(input_effect(view, key)),
                        None => None,
                    };
                    let due = elapsed_spec(self.last_tick, now) >= self.tick_rate;
                    let quit = app matches Some(view) && view.should_quit;
                    SessionView {
                        app,
                        last_tick: if due {
                            now
                        } else {
                            self.last_tick
                        },
                        phase: if quit {
                            Phase::DisablingRaw
                        } else {
                            Phase::Reading
                        },
                        ..self
                    }
                },
                _ => self.fail(SessionError::TerminalIo { during: Phase::Polling }),
            },
            Phase::DisablingRaw => self.restore_step(
                event,
                TerminalMode { raw_input: false, ..self.mode },
                Phase::LeavingScreen,
            ),
            Phase::LeavingScreen => self.restore_step(
                event,
                TerminalMode { alternate_screen: false, mouse_capture: false, ..self.mode },
                Phase::ShowingCursor,
            ),
            Phase::ShowingCursor => self.restore_step(
                event,
                TerminalMode { cursor_hidden: false, ..self.mode },
                Phase::Finished,
            ),
            Phase::Finished => self,
        }
    }

    /// The session after a sequence of events, first to last.
    pub open spec fn run(self, events: Seq<Event>) -> SessionView
        decreases events.len(),
    {
        if events.len() == 0 {
            self
        } else {
            self.step(events[0]).run(events.skip(1))
        }
    }

    /// Whether, in a run over `events`, every step of putting the terminal
    /// back is carried out.
    pub open spec fn restores_cleanly(self, events: Seq<Event>) -> bool
        decreases events.len(),
    {
        events.len() == 0 || {
            &&& restoring(self.phase) ==> events[0] is Completed
            &&& self.step(events[0]).restores_cleanly(events.skip(1))
        }
    }

    /// What has been put back so far: the steps behind the present phase
    /// have cleared their flags.
    pub open spec fn restored_so_far(self) -> bool {
        &&& self.phase == Phase::LeavingScreen ==> !self.mode.raw_input
        &&& self.phase == Phase::ShowingCursor ==> !self.mode.raw_input
            && !self.mode.alternate_screen && !self.mode.mouse_capture
        &&& self.phase == Phase::Finished ==> self.mode == normal_mode()
    }
}

/// The time left until the next tick.
pub fn poll_timeout(tick_rate: u128, elapsed: u128) -> (timeout: u128)
    ensures
        timeout == poll_timeout_spec(tick_rate, elapsed),
{
    if elapsed >= tick_rate {
        0
    } else {
        tick_rate - elapsed
    }
}

/// Splits a time in nanoseconds into whole seconds and the nanoseconds
/// beyond them, the form in which a wait is handed to the terminal. Seconds
/// beyond what 64 bits hold are cut to the largest number they hold.
pub fn timeout_parts(timeout: u128) -> (parts: (u64, u32))
    ensures
        parts.0 == timeout_seconds(timeout),
        parts.1 == timeout_nanos(timeout),
        parts.1 < 1_000_000_000,
{
    let seconds = timeout / 1_000_000_000;
    let nanos = timeout % 1_000_000_000;
    let whole: u64 = if seconds > u64::MAX as u128 {
        u64::MAX
    } else {
        seconds as u64
    };
    (whole, nanos as u32)
}

/// The time between two clock readings.
pub fn elapsed(since: u128, now: u128) -> (span: u128)
    ensures
        span == elapsed_spec(since, now),
{
    if now >= since {
        now - since
    } else {
        0
    }
}

/// Hands a key press to the transition of the dashboard that it is bound to.
pub fn dispatch(app: &mut App, key: Key)
    ensures
        final(app)@ == key_effect(old(app)@, key),
        final(app)@.in_bounds(),
{
    proof {
        use_type_invariant(&*app);
    }
    match key {
        Key::Char(c) => app.on_key(c),
        Key::Left => app.on_left(),
        Key::Right => app.on_right(),
        Key::Up => app.on_up(),
        Key::Down => app.on_down(),
        Key::Other => {},
    }
}

/// A dashboard session.
pub struct Session {
    app: Option<App>,
    phase: Phase,
    mode: TerminalMode,
    tick_rate: u128,
    last_tick: u128,
    timeout: u128,
    failure: Option<SessionError>,
}

impl View for Session {
    type V = SessionView;

    closed spec fn view(&self) -> SessionView {
        SessionView {
            app: match self.app {
                Some(app) => Some(app@),
                None => None,
            },
            phase: self.phase,
            mode: self.mode,
            tick_rate: self.tick_rate,
            last_tick: self.last_tick,
            timeout: self.timeout,
            failure: self.failure,
        }
    }
}

impl Session {
    /// Every session is well formed.
    #[verifier::type_invariant]
    pub open spec fn wf(&self) -> bool {
        self@.wf()
    }

    /// A session that ticks every `tick_rate` nanoseconds. Its first action
    /// is to switch the terminal to raw input.
    pub fn new(tick_rate: u128) -> (session: Session)
        ensures
            session@ == SessionView::initial(tick_rate),
            session@.wf(),
    {
        Session {
            app: None,
            phase: Phase::EnablingRaw,
            mode: TerminalMode {
                raw_input: false,
                alternate_screen: false,
                mouse_capture: false,
                cursor_hidden: false,
            },
            tick_rate,
            last_tick: 0,
            timeout: 0,
            failure: None,
        }
    }

    /// The action that the session waits for.
    pub fn action(&self) -> (action: Action)
        ensures
            action == self@.action(),
    {
        match self.phase {
            Phase::EnablingRaw => Action::EnableRawMode,
            Phase::EnteringScreen => Action::EnterScreen,
            Phase::Reading => Action::ReadStore,
            Phase::Drawing => Action::Draw,
            Phase::Polling => Action::Poll { timeout: self.timeout },
            Phase::DisablingRaw => Action::DisableRawMode,
            Phase::LeavingScreen => Action::LeaveScreen,
            Phase::ShowingCursor => Action::ShowCursor,
            Phase::Finished => Action::Finish,
        }
    }

    pub fn phase(&self) -> (phase: Phase)
        ensures
            phase == self@.phase,
    {
        self.phase
    }

    /// The mode the terminal may be in.
    pub fn mode(&self) -> (mode: TerminalMode)
        ensures
            mode == self@.mode,
    {
        self.mode
    }

    /// The dashboard state, once the store has been read for the first time.
    pub fn app(&self) -> (app: Option<&App>)
        ensures
            match app {
                Some(app) => self@.app == Some(app@),
                None => self@.app is None,
            },
    {
        self.app.as_ref()
    }

    /// How the session ended, once it has.
    pub fn outcome(&self) -> (outcome: Option<Result<(), SessionError>>)
        ensures
            outcome == self@.outcome(),
    {
        match self.phase {
            Phase::Finished => match self.failure {
                Some(error) => Some(Err(error)),
                None => Some(Ok(())),
            },
            _ => None,
        }
    }

    /// Ends the loop with `error` and turns to putting the terminal back.
    fn fail(&mut self, error: SessionError)
        ensures
            final(self)@ == old(self)@.fail(error),
    {
        proof {
            use_type_invariant(&*self);
        }
        self.phase = Phase::DisablingRaw;
        if self.failure.is_none() {
            self.failure = Some(error);
        }
    }

    /// Ends a step of putting the terminal back.
    fn restore_step(&mut self, completed: bool, cleared: TerminalMode, next: Phase)
        requires
            next == Phase::LeavingScreen || next == Phase::ShowingCursor || next == Phase::Finished,
        ensures
            final(self)@ == if completed {
                SessionView { mode: cleared, phase: next, ..old(self)@ }
            } else {
                SessionView {
                    phase: next,
                    failure: if old(self)@.failure is None {
                        Some(SessionError::TerminalIo { during: old(self)@.phase })
                    } else {
                        old(self)@.failure
                    },
                    ..old(self)@
                }
            },
    {
        proof {
            use_type_invariant(&*self);
        }
        let during = self.phase;
        self.phase = next;
        if completed {
            self.mode = cleared;
        } else if self.failure.is_none() {
            self.failure = Some(SessionError::TerminalIo { during });
        }
    }

    /// Takes in a store that was read: a snapshot of it goes on display, or
    /// the failure to assemble one ends the loop.
    fn take_store(&mut self, store: &SectionStore)
        requires
            old(self)@.phase == Phase::Reading,
        ensures
            final(self)@ == old(self)@.step(Event::StoreRead(*store)),
    {
        proof {
            use_type_invariant(&*self);
        }
        let res = assemble(store);
        proof {
            lemma_failure_of(*store, res);
        }
        match res {
            Err(error) => self.fail(SessionError::Assemble(error)),
            Ok(snapshot) => {
                let mut snapshot = snapshot;
                proof {
                    assert(snapshot.matches_store_at(*store, 0));
                    assert(record_at(*store, Section::SlotProgress, snapshot.keys@[0]) == Some(
                        snapshot.record(Section::SlotProgress, 0),
                    ));
                    assert(record_at(*store, Section::Sampling, snapshot.keys@[0]) == Some(
                        snapshot.record(Section::Sampling, 0),
                    ));
                    assert(record_at(*store, Section::Verification, snapshot.keys@[0]) == Some(
                        snapshot.record(Section::Verification, 0),
                    ));
                }
                let slots = snapshot.slot_list.remove(0);
                let samples = snapshot.sample_list.remove(0);
                let verified = snapshot.verified_list.remove(0);
                let mut app: Option<App> = None;
                core::mem::swap(&mut self.app, &mut app);
                let shown = match app {
                    Some(old_app) => {
                        let mut old_app = old_app;
                        old_app.refresh(slots, samples, verified);
                        old_app
                    },
                    None => App::new(
                        String::from_str("Sampler Statistics"),
                        slots,
                        samples,
                        verified,
                    ),
                };
                self.app = Some(shown);
                self.phase = Phase::Drawing;
            },
        }
    }

    /// Takes in the outcome of a poll: the key goes to the dashboard, a tick
    /// that is due is taken, and the quit flag ends the loop.
    fn take_input(&mut self, key: Option<Key>, now: u128)
        requires
            old(self)@.phase == Phase::Polling,
        ensures
            final(self)@ == old(self)@.step(Event::Polled { key, now }),
    {
        proof {
            use_type_invariant(&*self);
        }
        let due = elapsed(self.last_tick, now) >= self.tick_rate;
        if due {
            self.last_tick = now;
        }
        self.phase = Phase::Reading;
        let mut app: Option<App> = None;
        core::mem::swap(&mut self.app, &mut app);
        match app {
            Some(shown) => {
                let mut shown = shown;
                match key {
                    Some(key) => dispatch(&mut shown, key),
                    None => {},
                }
                if due {
                    shown.on_tick();
                }
                if shown.should_quit() {
                    self.phase = Phase::DisablingRaw;
                }
                self.app = Some(shown);
            },
            None => {},
        }
    }

    /// Takes in what came of the action that the session asked for, and
    /// answers with the next action.
    pub fn advance(&mut self, event: Event) -> (action: Action)
        ensures
            final(self)@ == old(self)@.step(event),
            action == final(self)@.action(),
            final(self)@.wf(),
    {
        proof {
            use_type_invariant(&*self);
        }
        match self.phase {
            Phase::EnablingRaw => {
                self.mode.raw_input = true;
                match event {
                    Event::Completed => {
                        self.phase = Phase::EnteringScreen;
                    },
                    _ => self.fail(SessionError::TerminalIo { during: Phase::EnablingRaw }),
                }
            },
            Phase::EnteringScreen => {
                self.mode.alternate_screen = true;
                self.mode.mouse_capture = true;
                match event {
                    Event::Completed => {
                        self.phase = Phase::Reading;
                    },
                    _ => self.fail(SessionError::TerminalIo { during: Phase::EnteringScreen }),
                }
            },
            Phase::Reading => match event {
                Event::StoreRead(store) => self.take_store(&store),
                _ => self.fail(SessionError::StoreOpen),
            },
            Phase::Drawing => {
                self.mode.cursor_hidden = true;
                match event {
                    Event::Painted { now } => {
                        self.timeout = poll_timeout(self.tick_rate, elapsed(self.last_tick, now));
                        self.phase = Phase::Polling;
                    },
                    _ => self.fail(SessionError::TerminalIo { during: Phase::Drawing }),
                }
            },
            Phase::Polling => match event {
                Event::Polled { key, now } => self.take_input(key, now),
                _ => self.fail(SessionError::TerminalIo { during: Phase::Polling }),
            },
            Phase::DisablingRaw => {
                let completed = matches!(event, Event::Completed);
                let cleared = TerminalMode { raw_input: false, ..self.mode };
                self.restore_step(completed, cleared, Phase::LeavingScreen);
            },
            Phase::LeavingScreen => {
                let completed = matches!(event, Event::Completed);
                let cleared = TerminalMode {
                    alternate_screen: false,
                    mouse_capture: false,
                    ..self.mode
                };
                self.restore_step(completed, cleared, Phase::ShowingCursor);
            },
            Phase::ShowingCursor => {
                let completed = matches!(event, Event::Completed);
                let cleared = TerminalMode { cursor_hidden: false, ..self.mode };
                self.restore_step(completed, cleared, Phase::Finished);
            },
            Phase::Finished => {},
        }
        proof {
            use_type_invariant(&*self);
        }
        self.action()
    }

    /// Puts the list of `section` on display, where the session has a
    /// dashboard.
    pub fn show(&mut self, section: Section)
        ensures
            final(self)@ == old(self)@.show(section),
            final(self)@.wf(),
    {
        proof {
            use_type_invariant(&*self);
        }
        show_in(&mut self.app, section);
    }
}

/// Puts the list of `section` on display in a dashboard, if there is one.
fn show_in(app: &mut Option<App>, section: Section)
    ensures
        match *old(app) {
            Some(before) => *final(app) matches Some(after) && after@ == before@.show(section)
                && after@.in_bounds(),
            None => *final(app) is None,
        },
    no_unwind
{
    match app {
        Some(shown) => shown.show(section),
        None => {},
    }
}

/// A key press leaves the quit flag as it is, unless it is the quit key,
/// which sets it: nothing else ends the loop from within.
pub proof fn lemma_only_quit_key_quits(view: AppView, key: Key)
    ensures
        key_effect(view, key).should_quit == (view.should_quit || key == Key::Char(QUIT_KEY)),
{
}

/// One step keeps what has been put back, as long as a step of putting the
/// terminal back is carried out.
pub proof fn lemma_step_keeps_restored(state: SessionView, event: Event)
    requires
        state.restored_so_far(),
        restoring(state.phase) ==> event is Completed,
    ensures
        state.step(event).restored_so_far(),
{
}

/// Whatever fails while the store is read, the dashboard is painted or a key
/// is awaited, and whatever ends the loop: as long as the steps of putting
/// the terminal back are carried out, a session that started in the normal
/// mode and has finished leaves the terminal in the normal mode.
pub proof fn lemma_terminal_restored(tick_rate: u128, events: Seq<Event>)
    requires
        SessionView::initial(tick_rate).restores_cleanly(events),
    ensures
        SessionView::initial(tick_rate).run(events).phase == Phase::Finished
            ==> SessionView::initial(tick_rate).run(events).mode == normal_mode(),
{
    lemma_run_keeps_restored(SessionView::initial(tick_rate), events);
}

/// A run keeps what has been put back, as long as every step of putting the
/// terminal back is carried out.
pub proof fn lemma_run_keeps_restored(state: SessionView, events: Seq<Event>)
    requires
        state.restored_so_far(),
        state.restores_cleanly(events),
    ensures
        state.run(events).restored_so_far(),
    decreases events.len(),
{
    if events.len() > 0 {
        lemma_step_keeps_restored(state, events[0]);
        lemma_run_keeps_restored(state.step(events[0]), events.skip(1));
    }
}

/// Within a round the store is read before the dashboard is painted, and
/// the dashboard is painted before a key is awaited: each of the three
/// leads to the next, or out of the loop to putting the terminal back.
pub proof fn lemma_round_order(state: SessionView, event: Event)
    ensures
        state.phase == Phase::Reading ==> state.step(event).phase == Phase::Drawing
            || state.step(event).phase == Phase::DisablingRaw,
        state.phase == Phase::Drawing ==> state.step(event).phase == Phase::Polling
            || state.step(event).phase == Phase::DisablingRaw,
        state.phase == Phase::Polling ==> state.step(event).phase == Phase::Reading
            || state.step(event).phase == Phase::DisablingRaw,
{
}

/// The loop ends only by way of putting the terminal back: a session that is
/// not finished and not in the last step of it is not finished one step later.
pub proof fn lemma_finish_follows_restore(state: SessionView, event: Event)
    requires
        state.phase != Phase::Finished,
        state.phase != Phase::ShowingCursor,
    ensures
        state.step(event).phase != Phase::Finished,
{
}

/// A session that has not done anything yet is well formed.
pub proof fn lemma_initial_wf(tick_rate: u128)
    ensures
        SessionView::initial(tick_rate).wf(),
{
}

/// A step keeps a session well formed, whatever the event.
pub proof fn lemma_step_keeps_wf(state: SessionView, event: Event)
    requires
        state.wf(),
    ensures
        state.step(event).wf(),
{
}

/// A run keeps a session well formed, whatever the events.
pub proof fn lemma_run_keeps_wf(state: SessionView, events: Seq<Event>)
    requires
        state.wf(),
    ensures
        state.run(events).wf(),
    decreases events.len(),
{
    if events.len() > 0 {
        lemma_step_keeps_wf(state, events[0]);
        lemma_run_keeps_wf(state.step(events[0]), events.skip(1));
    }
}

/// A quit key that arrives while the session polls ends the loop at once:
/// the next action puts the terminal back, and nothing has failed.
pub proof fn lemma_quit_ends_loop(state: SessionView, now: u128)
    requires
        state.wf(),
        state.phase == Phase::Polling,
    ensures
        state.step(Event::Polled { key: Some(Key::Char(QUIT_KEY)), now }).phase
            == Phase::DisablingRaw,
        state.step(Event::Polled { key: Some(Key::Char(QUIT_KEY)), now }).failure is None,
{
}

/// The arrows never end the loop and never change what is on display: after
/// an arrow that arrives while the session polls, the session reads the
/// store again, and only the selected row may have changed.
pub proof fn lemma_arrow_keeps_loop(state: SessionView, key: Key, now: u128)
    requires
        state.wf(),
        state.phase == Phase::Polling,
        key == Key::Left || key == Key::Right || key == Key::Up || key == Key::Down,
    ensures
        state.step(Event::Polled { key: Some(key), now }).phase == Phase::Reading,
        state.step(Event::Polled { key: Some(key), now }).app->Some_0 == (AppView {
            selected: state.step(Event::Polled { key: Some(key), now }).app->Some_0.selected,
            ..state.app->Some_0
        }),
        state.step(Event::Polled { key: Some(key), now }).app->Some_0.in_bounds(),
{
}

} // verus!
