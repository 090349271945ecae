//! The state of the dashboard: the three lists, the list that is shown, the
//! selected row and the quit flag, with the transitions that key presses
//! cause. The four arrows move the cursor within the list that is shown and
//! clamp at its ends: the cursor never wraps around and never leaves the list.

use crate::section::Section;
use vstd::prelude::*;

verus! {

/// The character that asks the dashboard to quit.
pub const QUIT_KEY: char = 'q';

/// The mathematical value of the dashboard state.
pub struct AppView {
    pub title: Seq<char>,
    pub slots: Seq<usize>,
    pub samples: Seq<(usize, usize, usize, usize)>,
    pub verified: Seq<(usize, usize, usize)>,
    /// The section whose list is shown.
    pub active: Section,
    /// The selected row of the list that is shown.
    pub selected: nat,
    pub should_quit: bool,
}

/// A cursor movement.
#[derive(Clone, Copy, Debug, PartialEq, Eq, Structural)]
pub enum Move {
    Left,
    Right,
    Up,
    Down,
}

/// The row nearest to `row` in a list of `len` rows; row 0 of an empty list.
pub open spec fn clamp_row(row: nat, len: nat) -> nat {
    if row < len {
        row
    } else if len == 0 {
        0
    } else {
        (len - 1) as nat
    }
}

impl AppView {
    /// The length of the list of `section`.
    pub open spec fn len_of(self, section: Section) -> nat {
        match section {
            Section::SlotProgress => self.slots.len(),
            Section::Sampling => self.samples.len(),
            Section::Verification => self.verified.len(),
        }
    }

    /// The length of the list that is shown.
    pub open spec fn active_len(self) -> nat {
        self.len_of(self.active)
    }

    /// The selected row is a row of the list that is shown, or row 0 where
    /// that list is empty.
    pub open spec fn in_bounds(self) -> bool {
        self.selected == clamp_row(self.selected, self.active_len())
    }

    /// Shows the list of `section`, with the cursor on the nearest row.
    pub open spec fn show(self, section: Section) -> AppView {
        AppView {
            active: section,
            selected: clamp_row(self.selected, self.len_of(section)),
            ..self
        }
    }

    /// The cursor one row towards the start of the list that is shown; on
    /// the first row it stays.
    pub open spec fn towards_start(self) -> AppView {
        AppView {
            selected: if self.selected > 0 {
                (self.selected - 1) as nat
            } else {
                0
            },
            ..self
        }
    }

    /// The cursor one row towards the end of the list that is shown; on the
    /// last row it stays.
    pub open spec fn towards_end(self) -> AppView {
        AppView { selected: clamp_row(self.selected + 1, self.active_len()), ..self }
    }

    pub open spec fn on_left(self) -> AppView {
        self.towards_start()
    }

    pub open spec fn on_right(self) -> AppView {
        self.towards_end()
    }

    pub open spec fn on_up(self) -> AppView {
        self.towards_start()
    }

    pub open spec fn on_down(self) -> AppView {
        self.towards_end()
    }

    pub open spec fn on_key(self, c: char) -> AppView {
        if c == QUIT_KEY {
            AppView { should_quit: true, ..self }
        } else {
            self
        }
    }

    /// The state after one cursor movement.
    pub open spec fn moved(self, step: Move) -> AppView {
        match step {
            Move::Left => self.on_left(),
            Move::Right => self.on_right(),
            Move::Up => self.on_up(),
            Move::Down => self.on_down(),
        }
    }

    /// The state after a sequence of cursor movements.
    pub open spec fn moved_all(self, steps: Seq<Move>) -> AppView
        decreases steps.len(),
    {
        if steps.len() == 0 {
            self
        } else {
            self.moved_all(steps.drop_last()).moved(steps.last())
        }
    }

    /// The state with new lists, the cursor on the nearest row of the list
    /// that is shown.
    pub open spec fn refreshed(
        self,
        slots: Seq<usize>,
        samples: Seq<(usize, usize, usize, usize)>,
        verified: Seq<(usize, usize, usize)>,
    ) -> AppView {
        AppView { slots, samples, verified, ..self }.show(self.active)
    }
}

/// The dashboard state.
pub struct App {
    title: String,
    slot_list: Vec<usize>,
    r_list: Vec<(usize, usize, usize, usize)>,
    v_list: Vec<(usize, usize, usize)>,
    active: Section,
    selected: usize,
    should_quit: bool,
}

impl View for App {
    type V = AppView;

    closed spec fn view(&self) -> AppView {
        AppView {
            title: self.title@,
            slots: self.slot_list@,
            samples: self.r_list@,
            verified: self.v_list@,
            active: self.active,
            selected: self.selected as nat,
            should_quit: self.should_quit,
        }
    }
}

impl App {
    /// The cursor is within the list that is shown.
    #[verifier::type_invariant]
    pub open spec fn wf(&self) -> bool {
        self@.in_bounds()
    }

    /// A dashboard that shows the slot list, with the cursor on its first row.
    pub fn new(
        title: String,
        slot_list: Vec<usize>,
        r_list: Vec<(usize, usize, usize, usize)>,
        v_list: Vec<(usize, usize, usize)>,
    ) -> (app: App)
        ensures
            app@ == (AppView {
                title: title@,
                slots: slot_list@,
                samples: r_list@,
                verified: v_list@,
                active: Section::SlotProgress,
                selected: 0,
                should_quit: false,
            }),
            app@.in_bounds(),
    {
        App {
            title,
            slot_list,
            r_list,
            v_list,
            active: Section::SlotProgress,
            selected: 0,
            should_quit: false,
        }
    }

    /// The length of the list of `section`.
    pub fn len_of(&self, section: Section) -> (len: usize)
        ensures
            len == self@.len_of(section),
        no_unwind
    {
        match section {
            Section::SlotProgress => self.slot_list.len(),
            Section::Sampling => self.r_list.len(),
            Section::Verification => self.v_list.len(),
        }
    }

    /// Shows the list of `section`, with the cursor on the row of that list
    /// nearest to where it stands. No key is bound to this: the arrows stay
    /// within the list that is shown.
    pub fn show(&mut self, section: Section)
        ensures
            final(self)@ == old(self)@.show(section),
            final(self)@.in_bounds(),
        no_unwind
    {
        proof {
            use_type_invariant(&*self);
        }
        let len = self.len_of(section);
        if self.selected >= len {
            self.selected = if len == 0 {
                0
            } else {
                len - 1
            };
        }
        self.active = section;
        proof {
            use_type_invariant(&*self);
        }
    }

    /// Moves the cursor one row towards the start of the list that is shown.
    fn step_towards_start(&mut self)
        ensures
            final(self)@ == old(self)@.towards_start(),
            final(self)@.in_bounds(),
    {
        proof {
            use_type_invariant(&*self);
        }
        if self.selected > 0 {
            self.selected = self.selected - 1;
        }
    }

    /// Moves the cursor one row towards the end of the list that is shown.
    fn step_towards_end(&mut self)
        ensures
            final(self)@ == old(self)@.towards_end(),
            final(self)@.in_bounds(),
    {
        proof {
            use_type_invariant(&*self);
        }
        let len = self.len_of(self.active);
        if len > 0 && self.selected < len - 1 {
            self.selected = self.selected + 1;
        }
    }

    /// Reacts to a character key: the quit key sets the quit flag, any other
    /// character changes nothing.
    pub fn on_key(&mut self, c: char)
        ensures
            final(self)@ == old(self)@.on_key(c),
            final(self)@.in_bounds(),
    {
        proof {
            use_type_invariant(&*self);
        }
        if c == QUIT_KEY {
            self.should_quit = true;
        }
    }

    /// Moves the cursor one row towards the start of the list that is
    /// shown; on the first row it stays.
    pub fn on_left(&mut self)
        ensures
            final(self)@ == old(self)@.on_left(),
            final(self)@.in_bounds(),
    {
        self.step_towards_start();
    }

    /// Moves the cursor one row towards the end of the list that is shown;
    /// on the last row it stays.
    pub fn on_right(&mut self)
        ensures
            final(self)@ == old(self)@.on_right(),
            final(self)@.in_bounds(),
    {
        self.step_towards_end();
    }

    /// Moves the cursor one row up; on the first row it stays.
    pub fn on_up(&mut self)
        ensures
            final(self)@ == old(self)@.on_up(),
            final(self)@.in_bounds(),
    {
        self.step_towards_start();
    }

    /// Moves the cursor one row down; on the last row it stays.
    pub fn on_down(&mut self)
        ensures
            final(self)@ == old(self)@.on_down(),
            final(self)@.in_bounds(),
    {
        self.step_towards_end();
    }

    /// The periodic hook: it changes nothing.
    pub fn on_tick(&mut self)
        ensures
            final(self)@ == old(self)@,
    {
    }

    /// Replaces the three lists; the cursor moves to the nearest row of the
    /// list on display.
    pub fn refresh(
        &mut self,
        slot_list: Vec<usize>,
        r_list: Vec<(usize, usize, usize, usize)>,
        v_list: Vec<(usize, usize, usize)>,
    )
        ensures
            final(self)@ == old(self)@.refreshed(slot_list@, r_list@, v_list@),
            final(self)@.in_bounds(),
    {
        proof {
            use_type_invariant(&*self);
        }
        let len = match self.active {
            Section::SlotProgress => slot_list.len(),
            Section::Sampling => r_list.len(),
            Section::Verification => v_list.len(),
        };
        if self.selected >= len {
            self.selected = if len == 0 {
                0
            } else {
                len - 1
            };
        }
        self.slot_list = slot_list;
        self.r_list = r_list;
        self.v_list = v_list;
    }

    pub fn title(&self) -> (title: &String)
        ensures
            title@ == self@.title,
    {
        &self.title
    }

    pub fn slot_list(&self) -> (list: &Vec<usize>)
        ensures
            list@ == self@.slots,
    {
        &self.slot_list
    }

    pub fn r_list(&self) -> (list: &Vec<(usize, usize, usize, usize)>)
        ensures
            list@ == self@.samples,
    {
        &self.r_list
    }

    pub fn v_list(&self) -> (list: &Vec<(usize, usize, usize)>)
        ensures
            list@ == self@.verified,
    {
        &self.v_list
    }

    /// The section whose list is shown.
    pub fn active(&self) -> (section: Section)
        ensures
            section == self@.active,
    {
        self.active
    }

    /// The selected row of the list that is shown.
    pub fn selected(&self) -> (row: usize)
        ensures
            row == self@.selected,
            self@.in_bounds(),
    {
        proof {
            use_type_invariant(self);
        }
        self.selected
    }

    pub fn should_quit(&self) -> (quit: bool)
        ensures
            quit == self@.should_quit,
    {
        self.should_quit
    }
}

/// One cursor movement changes nothing but the selected row, and keeps it
/// within the list that is shown.
pub proof fn lemma_move_keeps_bounds(view: AppView, step: Move)
    requires
        view.in_bounds(),
    ensures
        view.moved(step) == (AppView { selected: view.moved(step).selected, ..view }),
        view.moved(step).in_bounds(),
{
}

/// Whatever the sequence of cursor movements, the lists, the list that is
/// shown and the quit flag stay as they are, and the selected row stays a
/// row of the list that is shown: with `n` rows, `n` at least 1, it lies
/// between 0 and `n - 1`.
pub proof fn lemma_cursor_stays_in_bounds(view: AppView, steps: Seq<Move>)
    requires
        view.in_bounds(),
    ensures
        view.moved_all(steps) == (AppView { selected: view.moved_all(steps).selected, ..view }),
        view.moved_all(steps).in_bounds(),
        view.active_len() >= 1 ==> 0 <= view.moved_all(steps).selected <= view.active_len() - 1,
    decreases steps.len(),
{
    if steps.len() > 0 {
        lemma_cursor_stays_in_bounds(view, steps.drop_last());
        lemma_move_keeps_bounds(view.moved_all(steps.drop_last()), steps.last());
    }
}

/// On the last row a movement towards the end keeps the row, and on the
/// first row a movement towards the start keeps it.
pub proof fn lemma_moves_clamp(view: AppView)
    requires
        view.in_bounds(),
    ensures
        view.selected + 1 == view.active_len() ==> view.on_down().selected == view.selected
            && view.on_right().selected == view.selected,
        view.selected == 0 ==> view.on_up().selected == 0 && view.on_left().selected == 0,
{
}

} // verus!
