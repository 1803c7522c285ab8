//! The flag browser: a table of the flags with a preview of the selected one,
//! and a field to submit its solution.
use vstd::prelude::*;
use crate::conf::Conf;
use crate::database::{clear_effect, clear_result, is_listing, solved_by, Database, Flag, User, UserView};
use crate::keys::{KeyCode, KeyModifiers};
use crate::screens::screen::{error_message, Transition};
use crate::text::{clear_string, int_to_decimal, pop_char, push_char, push_i64, push_str};

verus! {

/// Whether the keys go to the flag table or to the submission field.
#[derive(Clone, Copy, Debug, PartialEq, Eq, Structural)]
pub enum BrowseState {
    Browse,
    Submit,
}

pub struct BrowseScreen {
    state: BrowseState,
    user: User,
    flags: Vec<Flag>,
    error: Option<String>,
    selected: Option<usize>,
    scroll: u16,
    submission: String,
    conf: Conf,
}

pub struct BrowseView {
    pub state: BrowseState,
    pub user: UserView,
    pub flags: Seq<Flag>,
    pub error: Option<Seq<char>>,
    /// The selected row of the flag table.
    pub selected: Option<usize>,
    /// How far the description of the selected flag is scrolled.
    pub scroll: u16,
    pub submission: Seq<char>,
}

pub open spec fn opt_str_view(o: Option<String>) -> Option<Seq<char>> {
    match o {
        Some(s) => Some(s@),
        None => None,
    }
}

impl View for BrowseScreen {
    type V = BrowseView;

    closed spec fn view(&self) -> BrowseView {
        BrowseView {
            state: self.state,
            user: self.user@,
            flags: self.flags@,
            error: opt_str_view(self.error),
            selected: self.selected,
            scroll: self.scroll,
            submission: self.submission@,
        }
    }
}

/// `flags` lists every flag of `db`, marked solved when user `uid` solved it.
pub open spec fn lists_for(flags: Seq<Flag>, db: Database, uid: i32) -> bool {
    is_listing(flags, db.flags@, |fid: int| solved_by(db.cleared@, uid as int, fid))
}

/// The table selection after moving down: the first row when nothing is
/// selected, else the next one (the table clamps it to its last row when
/// drawn).
pub open spec fn selection_next(s: Option<usize>) -> Option<usize> {
    match s {
        None => Some(0),
        Some(i) => Some(if i < usize::MAX { (i + 1) as usize } else { usize::MAX }),
    }
}

/// The table selection after moving up: the last row when nothing is
/// selected, else the previous one, stopping at the first.
pub open spec fn selection_prev(s: Option<usize>) -> Option<usize> {
    match s {
        None => Some(usize::MAX),
        Some(i) => Some(if i > 0 { (i - 1) as usize } else { 0 }),
    }
}

pub open spec fn scroll_down(s: u16) -> u16 {
    if s < u16::MAX { (s + 1) as u16 } else { u16::MAX }
}

pub open spec fn scroll_up(s: u16) -> u16 {
    if s > 0 { (s - 1) as u16 } else { 0 }
}

/// The browser after moving the focus forward.
pub open spec fn browse_next(v: BrowseView) -> BrowseView {
    match v.state {
        BrowseState::Browse => BrowseView { selected: selection_next(v.selected), ..v },
        BrowseState::Submit => BrowseView { scroll: scroll_down(v.scroll), ..v },
    }
}

/// The browser after moving the focus back.
pub open spec fn browse_prev(v: BrowseView) -> BrowseView {
    match v.state {
        BrowseState::Browse => BrowseView { selected: selection_prev(v.selected), ..v },
        BrowseState::Submit => BrowseView { scroll: scroll_up(v.scroll), ..v },
    }
}

/// The browser after typing `c`: it goes to the submission when submitting.
pub open spec fn browse_typed(v: BrowseView, c: char) -> BrowseView {
    match v.state {
        BrowseState::Browse => v,
        BrowseState::Submit => BrowseView { submission: v.submission.push(c), ..v },
    }
}

/// The browser after a backspace: it erases from the submission when submitting.
pub open spec fn browse_erased(v: BrowseView) -> BrowseView {
    match v.state {
        BrowseState::Browse => v,
        BrowseState::Submit => BrowseView {
            submission: if v.submission.len() > 0 { v.submission.drop_last() } else { v.submission },
            ..v
        },
    }
}

/// The selection as the table shows it: clamped to the last row.
pub open spec fn fitted_selection(s: Option<usize>, rows: nat) -> Option<usize> {
    match s {
        Some(i) => if i >= rows { Some(if rows > 0 { (rows - 1) as usize } else { 0 }) } else { Some(i) },
        None => None,
    }
}

/// The title of the preview of flag `f`: its name, then its points, marked
/// when solved.
pub open spec fn preview_title_text(f: Flag) -> Seq<char> {
    f@.name + "\nPoints - "@ + int_to_decimal(f@.points as int) + if f@.solved { " - SOLVED"@ } else { ""@ }
}

/// The title of the preview of flag `f`.
pub fn preview_title(f: &Flag) -> (r: String)
    ensures
        r@ == preview_title_text(*f),
{
    let mut s = f.name().to_owned();
    push_str(&mut s, "\nPoints - ");
    push_i64(&mut s, f.points() as i64);
    if f.solved() {
        push_str(&mut s, " - SOLVED");
    } else {
        push_str(&mut s, "");
    }
    s
}

/// What Enter does to the browser (`before` → `after`) and to the tables.
/// When browsing it opens the submission; when submitting it checks the
/// submission against the selected flag and, when it is the solution,
/// records the solve, empties the submission, returns to browsing and lists
/// the flags again.
pub open spec fn browse_submitted(v: BrowseView, after: BrowseView, db_before: Database, db_after: Database) -> bool {
    match v.state {
        BrowseState::Browse => after == (BrowseView { state: BrowseState::Submit, ..v })
            && db_after.unchanged(db_before),
        BrowseState::Submit => match v.selected {
            None => after == (BrowseView { error: Some("no flag selected to submit"@), ..v })
                && db_after.unchanged(db_before),
            Some(i) => if i >= v.flags.len() {
                after == v && db_after.unchanged(db_before)
            } else if v.flags[i as int]@.flag != v.submission {
                after == (BrowseView { error: Some("incorrect flag submitted"@), ..v })
                    && db_after.unchanged(db_before)
            } else {
                let fid = v.flags[i as int]@.id;
                &&& clear_effect(db_before, db_after, v.user.id, fid)
                &&& match clear_result(db_before, v.user.id, fid) {
                    Err(e) => after == (BrowseView { error: Some(error_message(e)), ..v }),
                    Ok(()) => {
                        &&& lists_for(after.flags, db_after, v.user.id)
                        &&& after == (BrowseView {
                            flags: after.flags,
                            submission: Seq::empty(),
                            state: BrowseState::Browse,
                            ..v
                        })
                    },
                }
            },
        },
    }
}

/// What handling a key press does to the screen (`before` → `after`), and
/// where it leads (`r`).
pub open spec fn browse_handles(before: BrowseView, key: Option<(KeyCode, KeyModifiers)>, after: BrowseView, r: Option<Transition>, db_before: Database, db_after: Database) -> bool {
    &&& (key is None ==> after == before && db_after.unchanged(db_before) && r is None)
    &&& (key matches Some(k) ==> {
                let v = BrowseView { error: None, ..before };
                &&& k.0 != KeyCode::Enter ==> db_after.unchanged(db_before)
                &&& k.0 == KeyCode::Enter ==> browse_submitted(v, after, db_before, db_after) && r is None
                &&& k.0 == KeyCode::Esc ==> (if v.state == BrowseState::Browse {
                    after == v && (r matches Some(Transition::Home))
                } else {
                    r is None && after == (BrowseView {
                        scroll: 0,
                        submission: Seq::empty(),
                        state: BrowseState::Browse,
                        ..v
                    })
                })
                &&& (k.0 == KeyCode::Tab || k.0 == KeyCode::Down) ==> after == browse_next(v) && r is None
                &&& ((k.0 == KeyCode::BackTab && k.1 == KeyModifiers::Shift) || k.0 == KeyCode::Up)
                    ==> after == browse_prev(v) && r is None
                &&& k.0 == KeyCode::Backspace ==> after == browse_erased(v) && r is None
                &&& k.0 == KeyCode::Char('r') ==> r is None && lists_for(after.flags, db_before, v.user.id)
                    && after == (BrowseView { flags: after.flags, ..v })
                &&& (k.0 is Char && k.0 != KeyCode::Char('r')) ==> after == browse_typed(v, k.0->Char_0) && r is None
                &&& (k.0 == KeyCode::BackTab && k.1 != KeyModifiers::Shift || k.0 == KeyCode::Left
                    || k.0 == KeyCode::Right || k.0 == KeyCode::Other) ==> after == v && r is None
            })
}

impl BrowseScreen {
    /// The browser of `user`, listing every flag, the first row selected.
    pub fn new(db: &Database, user: User, conf: Conf) -> (s: BrowseScreen)
        ensures
            s@.state == BrowseState::Browse,
            s@.user == user@,
            lists_for(s@.flags, *db, user@.id),
            s@.error is None,
            s@.selected == Some(0usize),
            s@.scroll == 0,
            s@.submission.len() == 0,
            s.conf() == conf,
    {
        let flags = Flag::get_all_with_user(db, &user);
        BrowseScreen {
            state: BrowseState::Browse,
            user,
            flags,
            error: None,
            selected: Some(0),
            scroll: 0,
            submission: String::new(),
            conf,
        }
    }

    pub closed spec fn conf(&self) -> Conf {
        self.conf
    }

    pub fn configuration(&self) -> (r: &Conf)
        ensures
            *r == self.conf(),
    {
        &self.conf
    }

    pub fn state(&self) -> (r: BrowseState)
        ensures
            r == self@.state,
    {
        self.state
    }

    pub fn user(&self) -> (r: &User)
        ensures
            r@ == self@.user,
    {
        &self.user
    }

    pub fn flags(&self) -> (r: &Vec<Flag>)
        ensures
            r@ == self@.flags,
    {
        &self.flags
    }

    pub fn error(&self) -> (r: Option<&str>)
        ensures
            match r {
                Some(e) => self@.error == Some(e@),
                None => self@.error is None,
            },
    {
        match &self.error {
            Some(e) => Some(e.as_str()),
            None => None,
        }
    }

    /// Records an error met while drawing.
    pub fn set_error(&mut self, message: String)
        ensures
            final(self)@ == (BrowseView { error: Some(message@), ..old(self)@ }),
            final(self).conf() == old(self).conf(),
    {
        self.error = Some(message);
    }

    pub fn selected(&self) -> (r: Option<usize>)
        ensures
            r == self@.selected,
    {
        self.selected
    }

    pub fn scroll(&self) -> (r: u16)
        ensures
            r == self@.scroll,
    {
        self.scroll
    }

    pub fn submission(&self) -> (r: &str)
        ensures
            r@ == self@.submission,
    {
        self.submission.as_str()
    }

    /// The selected flag, if the selection is on a row.
    pub fn selected_flag(&self) -> (r: Option<&Flag>)
        ensures
            match r {
                Some(f) => self@.selected matches Some(i) && i < self@.flags.len() && *f == self@.flags[i as int],
                None => !(self@.selected matches Some(i) && i < self@.flags.len()),
            },
    {
        match self.selected {
            Some(i) => if i < self.flags.len() {
                Some(&self.flags[i])
            } else {
                None
            },
            None => None,
        }
    }

    /// Clamps the selection to the last row, as drawing the table does.
    pub fn fit_selection(&mut self)
        ensures
            final(self)@ == (BrowseView {
                selected: fitted_selection(old(self)@.selected, old(self)@.flags.len()),
                ..old(self)@
            }),
            final(self).conf() == old(self).conf(),
    {
        match self.selected {
            Some(i) => if i >= self.flags.len() {
                self.selected = Some(if self.flags.len() > 0 { self.flags.len() - 1 } else { 0 });
            },
            None => (),
        }
    }

    /// Down or Tab: the next row when browsing, scrolls the description when
    /// submitting.
    pub fn focus_next(&mut self)
        ensures
            final(self)@ == browse_next(old(self)@),
            final(self).conf() == old(self).conf(),
    {
        match self.state {
            BrowseState::Browse => {
                self.selected = Some(match self.selected {
                    None => 0,
                    Some(i) => if i < usize::MAX { i + 1 } else { usize::MAX },
                });
            },
            BrowseState::Submit => {
                self.scroll = if self.scroll < u16::MAX { self.scroll + 1 } else { u16::MAX };
            },
        }
    }

    /// Up or Shift+BackTab: the previous row when browsing, scrolls the
    /// description back when submitting.
    pub fn focus_prev(&mut self)
        ensures
            final(self)@ == browse_prev(old(self)@),
            final(self).conf() == old(self).conf(),
    {
        match self.state {
            BrowseState::Browse => {
                self.selected = Some(match self.selected {
                    None => usize::MAX,
                    Some(i) => if i > 0 { i - 1 } else { 0 },
                });
            },
            BrowseState::Submit => {
                self.scroll = if self.scroll > 0 { self.scroll - 1 } else { 0 };
            },
        }
    }

    /// Esc: leaves the submission (resetting it and the scroll), or, when
    /// browsing, signs out to the welcome screen.
    pub fn escape(&mut self) -> (r: Option<Transition>)
        ensures
            final(self).conf() == old(self).conf(),
            old(self)@.state == BrowseState::Browse ==> final(self)@ == old(self)@ && (r matches Some(Transition::Home)),
            old(self)@.state == BrowseState::Submit ==> r is None && final(self)@ == (BrowseView {
                scroll: 0,
                submission: Seq::empty(),
                state: BrowseState::Browse,
                ..old(self)@
            }),
    {
        match self.state {
            BrowseState::Browse => Some(Transition::Home),
            BrowseState::Submit => {
                self.scroll = 0;
                clear_string(&mut self.submission);
                self.state = BrowseState::Browse;
                None
            },
        }
    }

    /// Backspace: erases from the submission when submitting.
    pub fn erase(&mut self)
        ensures
            final(self)@ == browse_erased(old(self)@),
            final(self).conf() == old(self).conf(),
    {
        match self.state {
            BrowseState::Browse => (),
            BrowseState::Submit => {
                let _ = pop_char(&mut self.submission);
            },
        }
    }

    /// Types `c` into the submission when submitting.
    pub fn write_char(&mut self, c: char)
        ensures
            final(self)@ == browse_typed(old(self)@, c),
            final(self).conf() == old(self).conf(),
    {
        match self.state {
            BrowseState::Browse => (),
            BrowseState::Submit => push_char(&mut self.submission, c),
        }
    }

    /// Lists the flags again.
    pub fn reload(&mut self, db: &Database) -> (r: Option<Transition>)
        ensures
            r is None,
            final(self).conf() == old(self).conf(),
            lists_for(final(self)@.flags, *db, old(self)@.user.id),
            final(self)@ == (BrowseView { flags: final(self)@.flags, ..old(self)@ }),
    {
        self.flags = Flag::get_all_with_user(db, &self.user);
        None
    }

    /// Enter: when browsing, opens the submission of the selected flag; when
    /// submitting, checks the submission against the selected flag and, when
    /// it is the solution, records the solve, empties the submission, returns
    /// to browsing and lists the flags again.
    pub fn submit(&mut self, db: &mut Database) -> (r: Option<Transition>)
        requires
            old(db).wf(),
        ensures
            r is None,
            final(db).wf(),
            final(self).conf() == old(self).conf(),
            browse_submitted(old(self)@, final(self)@, *old(db), *final(db)),
    {
        match self.state {
            BrowseState::Browse => {
                self.state = BrowseState::Submit;
            },
            BrowseState::Submit => {
                let index = match self.selected {
                    Some(i) => i,
                    None => {
                        self.error = Some("no flag selected to submit".to_owned());
                        return None;
                    },
                };
                if index < self.flags.len() {
                    let flag = self.flags[index].clone();
                    let matches = flag.flag().to_owned() == self.submission;
                    if !matches {
                        self.error = Some("incorrect flag submitted".to_owned());
                        return None;
                    }
                    match flag.clear_for_user(db, self.user.id()) {
                        Err(e) => {
                            self.error = Some(e.message());
                            return None;
                        },
                        Ok(()) => (),
                    }
                    clear_string(&mut self.submission);
                    self.state = BrowseState::Browse;
                    self.reload(db);
                }
            },
        }
        None
    }

    /// Handles a key press (nothing happens without one). Any key clears the
    /// error shown; Enter submits, Esc goes back, Tab/Down and
    /// Shift+BackTab/Up move, Backspace erases, `r` lists the flags again and
    /// any other character is typed.
    pub fn handle_input(&mut self, db: &mut Database, key: Option<(KeyCode, KeyModifiers)>) -> (r: Option<Transition>)
        requires
            old(db).wf(),
        ensures
            final(db).wf(),
            final(self).conf() == old(self).conf(),
            browse_handles(old(self)@, key, final(self)@, r, *old(db), *final(db)),
    {
        let key = match key {
            Some(k) => k,
            None => return None,
        };
        self.error = None;
        match key {
            (KeyCode::Enter, _) => return self.submit(db),
            (KeyCode::Esc, _) => return self.escape(),
            (KeyCode::Tab, _) | (KeyCode::Down, _) => self.focus_next(),
            (KeyCode::BackTab, KeyModifiers::Shift) | (KeyCode::Up, _) => self.focus_prev(),
            (KeyCode::Backspace, _) => self.erase(),
            (KeyCode::Char('r'), _) => return self.reload(db),
            (KeyCode::Char(c), _) => self.write_char(c),
            _ => (),
        }
        None
    }
}

} // verus!
