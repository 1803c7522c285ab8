//! Registration of a newly seen public key: the user picks a name and, when
//! the CTF is password protected, gives the CTF's password.
use vstd::prelude::*;
use crate::conf::Conf;
use crate::database::{register_effect, register_result, user_result, Database, User};
use crate::keys::{KeyCode, KeyModifiers};
use crate::screens::screen::{error_message, Transition};
use crate::text::{pop_char, push_char};

verus! {

/// The registration form. `selected` is the focused field: 0 the name,
/// 1 the password; the password field exists only when the configuration
/// sets a password, so without one the focus stays on the name.
pub struct RegisterScreen {
    username: String,
    password: String,
    selected: u8,
    key: String,
    error: Option<String>,
    conf: Conf,
}

pub struct RegisterView {
    pub username: Seq<char>,
    pub password: Seq<char>,
    pub selected: u8,
    pub key: Seq<char>,
    pub error: Option<Seq<char>>,
    /// The CTF password of the configuration, if any.
    pub required: Option<Seq<char>>,
}

pub open spec fn opt_view(o: Option<String>) -> Option<Seq<char>> {
    match o {
        Some(s) => Some(s@),
        None => None,
    }
}

impl View for RegisterScreen {
    type V = RegisterView;

    closed spec fn view(&self) -> RegisterView {
        RegisterView {
            username: self.username@,
            password: self.password@,
            selected: self.selected,
            key: self.key@,
            error: opt_view(self.error),
            required: opt_view(self.conf.password),
        }
    }
}

/// The form after typing `c` into the focused field.
pub open spec fn reg_typed(v: RegisterView, c: char) -> RegisterView {
    if v.selected == 0 {
        RegisterView { username: v.username.push(c), ..v }
    } else {
        RegisterView { password: v.password.push(c), ..v }
    }
}

/// The form after a backspace in the focused field.
pub open spec fn reg_erased(v: RegisterView) -> RegisterView {
    if v.selected == 0 {
        RegisterView { username: if v.username.len() > 0 { v.username.drop_last() } else { v.username }, ..v }
    } else {
        RegisterView { password: if v.password.len() > 0 { v.password.drop_last() } else { v.password }, ..v }
    }
}

/// Focus moves to the password field, when there is one.
pub open spec fn reg_next(v: RegisterView) -> RegisterView {
    if v.required is Some { RegisterView { selected: 1, ..v } } else { v }
}

/// Focus moves back to the name field.
pub open spec fn reg_prev(v: RegisterView) -> RegisterView {
    if v.required is Some { RegisterView { selected: 0, ..v } } else { v }
}

/// Why the form is refused before anything is stored, if it is: an empty
/// name, or a wrong CTF password.
pub open spec fn form_refusal(v: RegisterView) -> Option<Seq<char>> {
    if v.username.len() == 0 {
        Some("username can not be empty"@)
    } else if v.required matches Some(p) && p != v.password {
        Some("Wrong password"@)
    } else {
        None
    }
}

/// What Enter does to the form (`before` → `after`), to the tables, and where
/// it leads (`r`). With a CTF password, Enter on the name field moves to the
/// password field. Otherwise a refused form shows why; an accepted one
/// registers the key under the name: success leads to the flag browser of
/// the new user, failure shows the error.
pub open spec fn register_submitted(before: RegisterView, after: RegisterView, r: Option<Transition>, db_before: Database, db_after: Database) -> bool {
    if before.required is Some && before.selected == 0 {
        &&& after == (RegisterView { selected: 1, ..before })
        &&& db_after.unchanged(db_before)
        &&& r is None
    } else if form_refusal(before) is Some {
        &&& after == (RegisterView { error: form_refusal(before), ..before })
        &&& db_after.unchanged(db_before)
        &&& r is None
    } else {
        &&& register_effect(db_before, db_after, before.username, before.key)
        &&& match register_result(db_before, before.username) {
            Ok(u) => after == before && (r matches Some(Transition::Browse(v)) && v@ == u),
            Err(e) => after == (RegisterView { error: Some(error_message(e)), ..before }) && r is None,
        }
    }
}

/// What handling a key press does to the screen (`before` → `after`), and
/// where it leads (`r`).
pub open spec fn register_handles(before: RegisterView, key: Option<(KeyCode, KeyModifiers)>, after: RegisterView, r: Option<Transition>, db_before: Database, db_after: Database) -> bool {
    &&& (key is None ==> after == before && db_after.unchanged(db_before) && r is None)
    &&& (key matches Some(k) ==> {
                let v = RegisterView { error: None, ..before };
                &&& k.0 != KeyCode::Enter ==> db_after.unchanged(db_before)
                &&& k.0 == KeyCode::Enter ==> register_submitted(v, after, r, db_before, db_after)
                &&& k.0 is Char ==> after == reg_typed(v, k.0->Char_0) && r is None
                &&& (k.0 == KeyCode::Up || (k.0 == KeyCode::BackTab && k.1 == KeyModifiers::Shift))
                    ==> after == reg_prev(v) && r is None
                &&& (k.0 == KeyCode::Down || k.0 == KeyCode::Tab) ==> after == reg_next(v) && r is None
                &&& k.0 == KeyCode::Esc ==> after == v && (r matches Some(Transition::Home))
                &&& k.0 == KeyCode::Backspace ==> after == reg_erased(v) && r is None
                &&& (k.0 == KeyCode::BackTab && k.1 != KeyModifiers::Shift || k.0 == KeyCode::Left
                    || k.0 == KeyCode::Right || k.0 == KeyCode::Other) ==> after == v && r is None
            })
}

impl RegisterScreen {
    #[verifier::type_invariant]
    spec fn inv(self) -> bool {
        &&& self.selected <= 1
        &&& self.conf.password is None ==> self.selected == 0
    }

    /// The empty form for `key`.
    pub fn new(conf: Conf, key: String) -> (s: RegisterScreen)
        ensures
            s@ == (RegisterView {
                username: Seq::empty(),
                password: Seq::empty(),
                selected: 0,
                key: key@,
                error: None,
                required: opt_view(conf.password),
            }),
            s.conf() == conf,
    {
        RegisterScreen { username: String::new(), password: String::new(), selected: 0, key, error: None, conf }
    }

    pub closed spec fn conf(&self) -> Conf {
        self.conf
    }

    pub fn configuration(&self) -> (r: &Conf)
        ensures
            *r == self.conf(),
    {
        &self.conf
    }

    pub fn username(&self) -> (r: &str)
        ensures
            r@ == self@.username,
    {
        self.username.as_str()
    }

    pub fn password(&self) -> (r: &str)
        ensures
            r@ == self@.password,
    {
        self.password.as_str()
    }

    pub fn selected(&self) -> (r: u8)
        ensures
            r == self@.selected,
            r <= 1,
            self@.required is None ==> r == 0,
    {
        proof { use_type_invariant(self); }
        self.selected
    }

    pub fn error(&self) -> (r: Option<&str>)
        ensures
            match r {
                Some(e) => self@.error == Some(e@),
                None => self@.error is None,
            },
    {
        match &self.error {
            Some(e) => Some(e.as_str()),
            None => None,
        }
    }

    /// The command hints of the bottom bar.
    pub fn commands(&self) -> (r: &'static str)
        ensures
            self@.required is Some ==> r@ == "^Q[QUIT] \u{21b5}[SUBMIT]"@,
            self@.required is None ==> r@ == "^Q[QUIT] \u{21b5}[SUBMIT] \u{21f5}[NAV]"@,
    {
        if self.conf.password.is_some() {
            "^Q[QUIT] \u{21b5}[SUBMIT]"
        } else {
            "^Q[QUIT] \u{21b5}[SUBMIT] \u{21f5}[NAV]"
        }
    }

    /// Types `c` into the focused field.
    pub fn write_char(&mut self, c: char)
        ensures
            final(self)@ == reg_typed(old(self)@, c),
            final(self).conf() == old(self).conf(),
    {
        proof { use_type_invariant(&*self); }
        let mut field = String::new();
        if self.selected == 0 {
            std::mem::swap(&mut field, &mut self.username);
            push_char(&mut field, c);
            std::mem::swap(&mut field, &mut self.username);
        } else {
            std::mem::swap(&mut field, &mut self.password);
            push_char(&mut field, c);
            std::mem::swap(&mut field, &mut self.password);
        }
    }

    /// Erases the last character of the focused field.
    pub fn delete(&mut self)
        ensures
            final(self)@ == reg_erased(old(self)@),
            final(self).conf() == old(self).conf(),
    {
        proof { use_type_invariant(&*self); }
        let mut field = String::new();
        if self.selected == 0 {
            std::mem::swap(&mut field, &mut self.username);
            pop_char(&mut field);
            std::mem::swap(&mut field, &mut self.username);
        } else {
            std::mem::swap(&mut field, &mut self.password);
            pop_char(&mut field);
            std::mem::swap(&mut field, &mut self.password);
        }
    }

    /// Moves the focus to the password field, when there is one.
    pub fn next(&mut self)
        ensures
            final(self)@ == reg_next(old(self)@),
            final(self).conf() == old(self).conf(),
    {
        proof { use_type_invariant(&*self); }
        if self.conf.password.is_some() {
            let n: u8 = self.selected + 1;
            self.selected = if n < 1 { n } else { 1 };
        }
    }

    /// Moves the focus back to the name field.
    pub fn prev(&mut self)
        ensures
            final(self)@ == reg_prev(old(self)@),
            final(self).conf() == old(self).conf(),
    {
        proof { use_type_invariant(&*self); }
        if self.conf.password.is_some() {
            self.selected = if self.selected > 0 { self.selected - 1 } else { 0 };
        }
    }

    /// Enter. With a CTF password, Enter on the name field moves to the
    /// password field. Otherwise the form is checked (a name is needed, and
    /// the CTF password must match) and the key registered under the name;
    /// success leads to the flag browser, failure shows the error.
    pub fn submit(&mut self, db: &mut Database) -> (r: Option<Transition>)
        requires
            old(db).wf(),
        ensures
            final(db).wf(),
            final(self).conf() == old(self).conf(),
            register_submitted(old(self)@, final(self)@, r, *old(db), *final(db)),
    {
        proof { use_type_invariant(&*self); }
        if self.conf.password.is_some() && self.selected == 0 {
            self.selected = 1;
            return None;
        }
        if self.username.as_str().is_empty() {
            self.error = Some("username can not be empty".to_owned());
            return None;
        }
        let wrong = match &self.conf.password {
            Some(p) => !(*p == self.password),
            None => false,
        };
        if wrong {
            self.error = Some("Wrong password".to_owned());
            return None;
        }
        let res = User::register_user(db, &self.username, &self.key);
        match res {
            Err(e) => {
                self.error = Some(e.message());
                None
            },
            Ok(u) => Some(Transition::Browse(u)),
        }
    }

    /// Handles a key press (nothing happens without one). Any key clears the
    /// error shown; Enter submits, a character is typed, Up and Shift+BackTab
    /// move the focus back, Down and Tab forward, Esc returns to the welcome
    /// screen and Backspace erases.
    pub fn handle_input(&mut self, db: &mut Database, key: Option<(KeyCode, KeyModifiers)>) -> (r: Option<Transition>)
        requires
            old(db).wf(),
        ensures
            final(db).wf(),
            final(self).conf() == old(self).conf(),
            register_handles(old(self)@, key, final(self)@, r, *old(db), *final(db)),
    {
        let key = match key {
            Some(k) => k,
            None => return None,
        };
        proof { use_type_invariant(&*self); }
        self.error = None;
        match key {
            (KeyCode::Enter, _) => return self.submit(db),
            (KeyCode::Char(c), _) => self.write_char(c),
            (KeyCode::Up, _) | (KeyCode::BackTab, KeyModifiers::Shift) => self.prev(),
            (KeyCode::Down, _) | (KeyCode::Tab, _) => self.next(),
            (KeyCode::Esc, _) => return Some(Transition::Home),
            (KeyCode::Backspace, _) => self.delete(),
            _ => (),
        }
        None
    }
}

} // verus!
