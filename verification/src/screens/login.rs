//! The sign-in form: a username field and a password field.
use vstd::prelude::*;
use crate::keys::{is_next_key, is_prev_key, KeyCode, KeyModifiers};
use crate::text::{pop_char, push_char};

verus! {

/// The sign-in form. `selected` is the focused field: 0 the username,
/// 1 the password; it never leaves that range.
pub struct LoginScreen {
    username: String,
    password: String,
    selected: u8,
}

pub struct LoginView {
    pub username: Seq<char>,
    pub password: Seq<char>,
    pub selected: u8,
}

impl View for LoginScreen {
    type V = LoginView;

    closed spec fn view(&self) -> LoginView {
        LoginView { username: self.username@, password: self.password@, selected: self.selected }
    }
}

/// What a key press on the sign-in form asks for.
pub enum LoginAction {
    /// Nothing beyond the form's own change.
    Stay,
    /// Sign in as this user.
    SignIn(String),
    /// Go back to the welcome screen.
    Back,
}

/// The form after typing `c`: the character goes to the focused field.
pub open spec fn typed(v: LoginView, c: char) -> LoginView {
    if v.selected == 0 {
        LoginView { username: v.username.push(c), ..v }
    } else if v.selected == 1 {
        LoginView { password: v.password.push(c), ..v }
    } else {
        v
    }
}

/// The form after a backspace: the last character of the focused field goes.
pub open spec fn erased(v: LoginView) -> LoginView {
    if v.selected == 0 {
        LoginView { username: if v.username.len() > 0 { v.username.drop_last() } else { v.username }, ..v }
    } else if v.selected == 1 {
        LoginView { password: if v.password.len() > 0 { v.password.drop_last() } else { v.password }, ..v }
    } else {
        v
    }
}

/// Focus moves to the next field, stopping at the password.
pub open spec fn focused_next(v: LoginView) -> LoginView {
    LoginView { selected: if v.selected + 1 < 1 { (v.selected + 1) as u8 } else { 1u8 }, ..v }
}

/// Focus moves to the previous field, stopping at the username.
pub open spec fn focused_prev(v: LoginView) -> LoginView {
    LoginView { selected: if v.selected > 0 { (v.selected - 1) as u8 } else { 0u8 }, ..v }
}

impl LoginScreen {
    #[verifier::type_invariant]
    spec fn inv(self) -> bool {
        self.selected <= 1
    }

    /// The empty form, focused on the username.
    pub fn new() -> (s: LoginScreen)
        ensures
            s@.username.len() == 0,
            s@.password.len() == 0,
            s@.selected == 0,
    {
        LoginScreen { username: String::new(), password: String::new(), selected: 0 }
    }

    pub fn username(&self) -> (r: &str)
        ensures
            r@ == self@.username,
    {
        self.username.as_str()
    }

    pub fn password(&self) -> (r: &str)
        ensures
            r@ == self@.password,
    {
        self.password.as_str()
    }

    pub fn selected(&self) -> (r: u8)
        ensures
            r == self@.selected,
            r <= 1,
    {
        proof { use_type_invariant(self); }
        self.selected
    }

    /// Types `c` into the focused field.
    pub fn write_char(&mut self, c: char)
        ensures
            final(self)@ == typed(old(self)@, c),
    {
        if self.selected == 0 {
            let mut field = String::new();
            std::mem::swap(&mut field, &mut self.username);
            push_char(&mut field, c);
            std::mem::swap(&mut field, &mut self.username);
        } else if self.selected == 1 {
            let mut field = String::new();
            std::mem::swap(&mut field, &mut self.password);
            push_char(&mut field, c);
            std::mem::swap(&mut field, &mut self.password);
        }
    }

    /// Moves the focus to the next field; the password field is the last.
    pub fn focus_next(&mut self)
        ensures
            final(self)@ == focused_next(old(self)@),
    {
        proof { use_type_invariant(&*self); }
        let next: u8 = self.selected + 1;
        self.selected = if next < 1 { next } else { 1 };
    }

    /// Moves the focus to the previous field; the username field is the first.
    pub fn focus_prev(&mut self)
        ensures
            final(self)@ == focused_prev(old(self)@),
    {
        proof { use_type_invariant(&*self); }
        self.selected = if self.selected > 0 { self.selected - 1 } else { 0 };
    }

    /// Erases the last character of the focused field.
    pub fn delete(&mut self)
        ensures
            final(self)@ == erased(old(self)@),
    {
        if self.selected == 0 {
            let mut field = String::new();
            std::mem::swap(&mut field, &mut self.username);
            pop_char(&mut field);
            std::mem::swap(&mut field, &mut self.username);
        } else if self.selected == 1 {
            let mut field = String::new();
            std::mem::swap(&mut field, &mut self.password);
            pop_char(&mut field);
            std::mem::swap(&mut field, &mut self.password);
        }
    }

    /// Enter: on the password field the form is sent, signing in as the
    /// username typed; on the username field the focus moves on.
    pub fn submit(&mut self) -> (r: Option<String>)
        ensures
            old(self)@.selected == 1 ==> final(self)@ == old(self)@ && (r matches Some(n) && n@ == old(self)@.username),
            old(self)@.selected != 1 ==> final(self)@ == focused_next(old(self)@) && r is None,
    {
        if self.selected == 1 {
            return Some(self.username.clone());
        }
        self.focus_next();
        None
    }

    /// Handles a key press: Enter submits, a character is typed, Tab/Down and
    /// Shift+BackTab/Up move the focus, Backspace erases, Esc goes back.
    pub fn handle_input(&mut self, key: (KeyCode, KeyModifiers)) -> (r: LoginAction)
        ensures
            key.0 == KeyCode::Enter ==> (if old(self)@.selected == 1 {
                final(self)@ == old(self)@ && (r matches LoginAction::SignIn(n) && n@ == old(self)@.username)
            } else {
                final(self)@ == focused_next(old(self)@) && r is Stay
            }),
            key.0 is Char ==> final(self)@ == typed(old(self)@, key.0->Char_0) && r is Stay,
            is_next_key(key) ==> final(self)@ == focused_next(old(self)@) && r is Stay,
            !is_next_key(key) && is_prev_key(key) ==> final(self)@ == focused_prev(old(self)@) && r is Stay,
            key.0 == KeyCode::Backspace ==> final(self)@ == erased(old(self)@) && r is Stay,
            key.0 == KeyCode::Esc ==> final(self)@ == old(self)@ && r is Back,
            !(key.0 == KeyCode::Enter || key.0 is Char || is_next_key(key) || is_prev_key(key)
                || key.0 == KeyCode::Backspace || key.0 == KeyCode::Esc)
                ==> final(self)@ == old(self)@ && r is Stay,
    {
        match key {
            (KeyCode::Enter, _) => {
                return match self.submit() {
                    Some(name) => LoginAction::SignIn(name),
                    None => LoginAction::Stay,
                };
            },
            (KeyCode::Char(c), _) => self.write_char(c),
            (KeyCode::Tab, _) | (KeyCode::Down, _) => self.focus_next(),
            (KeyCode::BackTab, KeyModifiers::Shift) | (KeyCode::Up, _) => self.focus_prev(),
            (KeyCode::Backspace, _) => self.delete(),
            (KeyCode::Esc, _) => return LoginAction::Back,
            _ => (),
        }
        LoginAction::Stay
    }
}

} // verus!
