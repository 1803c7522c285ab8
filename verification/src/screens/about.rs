//! The about tab: the CTF's about text.
use vstd::prelude::*;
use crate::conf::Conf;
use crate::database::{User, UserView};
use crate::keys::{KeyCode, KeyModifiers};
use crate::screens::leaderboard::opt_user_view;
use crate::screens::screen::Transition;

verus! {

pub struct AboutScreen {
    user: Option<User>,
    error: Option<String>,
    conf: Conf,
    scroll: u16,
}

pub struct AboutView {
    pub user: Option<UserView>,
    pub error: Option<Seq<char>>,
    pub scroll: u16,
}

impl View for AboutScreen {
    type V = AboutView;

    closed spec fn view(&self) -> AboutView {
        AboutView {
            user: opt_user_view(self.user),
            error: match self.error {
                Some(e) => Some(e@),
                None => None,
            },
            scroll: self.scroll,
        }
    }
}

/// The text the tab shows: the configured about text, empty when there is none.
pub open spec fn about_text_of(conf: Conf) -> Seq<char> {
    match conf.about {
        Some(a) => a@,
        None => Seq::empty(),
    }
}

/// What handling a key press does to the screen (`before` → `after`), and
/// where it leads (`r`).
pub open spec fn about_handles(before: AboutView, key: Option<(KeyCode, KeyModifiers)>, after: AboutView, r: Option<Transition>) -> bool {
    &&& (key is None ==> after == before && r is None)
    &&& (key matches Some(k) ==> {
                let v = AboutView { error: None, ..before };
                &&& (k.0 == KeyCode::Tab || k.0 == KeyCode::Down) ==> r is None && after == (AboutView {
                    scroll: if v.scroll < u16::MAX { (v.scroll + 1) as u16 } else { u16::MAX },
                    ..v
                })
                &&& ((k.0 == KeyCode::BackTab && k.1 == KeyModifiers::Shift) || k.0 == KeyCode::Up)
                    ==> r is None && after == (AboutView {
                        scroll: if v.scroll > 0 { (v.scroll - 1) as u16 } else { 0 },
                        ..v
                    })
                &&& (k.0 == KeyCode::Left && k.1 == KeyModifiers::Control) ==> after == v
                    && (r matches Some(Transition::Leaderboard(w)) && opt_user_view(w) == v.user)
                &&& !(k.0 == KeyCode::Tab || k.0 == KeyCode::Down || (k.0 == KeyCode::BackTab && k.1 == KeyModifiers::Shift)
                    || k.0 == KeyCode::Up || (k.0 == KeyCode::Left && k.1 == KeyModifiers::Control))
                    ==> after == v && r is None
            })
}

impl AboutScreen {
    /// The about tab, seen by `user`, scrolled to the top.
    pub fn new(user: Option<User>, conf: Conf) -> (s: AboutScreen)
        ensures
            s@.user == opt_user_view(user),
            s@.error is None,
            s@.scroll == 0,
            s.conf() == conf,
    {
        AboutScreen { user, conf, error: None, scroll: 0 }
    }

    pub closed spec fn conf(&self) -> Conf {
        self.conf
    }

    pub fn configuration(&self) -> (r: &Conf)
        ensures
            *r == self.conf(),
    {
        &self.conf
    }

    pub fn user(&self) -> (r: Option<&User>)
        ensures
            match r {
                Some(u) => self@.user == Some(u@),
                None => self@.user is None,
            },
    {
        match &self.user {
            Some(u) => Some(u),
            None => None,
        }
    }

    pub fn error(&self) -> (r: Option<&str>)
        ensures
            match r {
                Some(e) => self@.error == Some(e@),
                None => self@.error is None,
            },
    {
        match &self.error {
            Some(e) => Some(e.as_str()),
            None => None,
        }
    }

    pub fn scroll(&self) -> (r: u16)
        ensures
            r == self@.scroll,
    {
        self.scroll
    }

    /// The about text shown.
    pub fn about_text(&self) -> (r: &str)
        ensures
            r@ == about_text_of(self.conf()),
    {
        match &self.conf.about {
            Some(a) => a.as_str(),
            None => {
                proof { reveal_strlit(""); }
                ""
            },
        }
    }

    /// Scrolls down one line.
    pub fn focus_next(&mut self)
        ensures
            final(self)@ == (AboutView {
                scroll: if old(self)@.scroll < u16::MAX { (old(self)@.scroll + 1) as u16 } else { u16::MAX },
                ..old(self)@
            }),
            final(self).conf() == old(self).conf(),
    {
        self.scroll = if self.scroll < u16::MAX { self.scroll + 1 } else { u16::MAX };
    }

    /// Scrolls up one line.
    pub fn focus_prev(&mut self)
        ensures
            final(self)@ == (AboutView {
                scroll: if old(self)@.scroll > 0 { (old(self)@.scroll - 1) as u16 } else { 0 },
                ..old(self)@
            }),
            final(self).conf() == old(self).conf(),
    {
        self.scroll = if self.scroll > 0 { self.scroll - 1 } else { 0 };
    }

    /// Handles a key press (nothing happens without one). Any key clears the
    /// error shown; Tab/Down and Shift+BackTab/Up scroll and Ctrl+Left goes
    /// back to the leaderboard.
    pub fn handle_input(&mut self, key: Option<(KeyCode, KeyModifiers)>) -> (r: Option<Transition>)
        ensures
            final(self).conf() == old(self).conf(),
            about_handles(old(self)@, key, final(self)@, r),
    {
        let key = match key {
            Some(k) => k,
            None => return None,
        };
        self.error = None;
        match key {
            (KeyCode::Tab, _) | (KeyCode::Down, _) => self.focus_next(),
            (KeyCode::BackTab, KeyModifiers::Shift) | (KeyCode::Up, _) => self.focus_prev(),
            (KeyCode::Left, KeyModifiers::Control) => {
                return Some(Transition::Leaderboard(match &self.user {
                    Some(u) => Some(u.clone()),
                    None => None,
                }));
            },
            _ => (),
        }
        None
    }
}

} // verus!
