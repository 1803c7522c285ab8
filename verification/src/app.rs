//! A client's session: the screen it is on, and the moves between screens.
use vstd::prelude::*;
use crate::conf::Conf;
use crate::database::Database;
use crate::keys::{KeyCode, KeyModifiers};
use crate::screens::about::{about_handles, AboutScreen, AboutView};
use crate::screens::browse::{browse_handles, lists_for, BrowseScreen, BrowseState, BrowseView};
use crate::screens::home::{home_leads, HomeScreen};
use crate::screens::leaderboard::{leaderboard_handles, opt_user_view, ranks_of, LeaderboardScreen, LeaderboardView};
use crate::screens::register::{opt_view, register_handles, RegisterScreen, RegisterView};
use crate::screens::screen::Transition;

verus! {

/// The screen a session is on.
pub enum Screen {
    Home(HomeScreen),
    Register(RegisterScreen),
    Browse(BrowseScreen),
    Leaderboard(LeaderboardScreen),
    About(AboutScreen),
}

/// A client's session: the current screen, with the configuration and the
/// client's public key that new screens are opened with.
pub struct App {
    pub screen: Screen,
    pub conf: Conf,
    pub key: String,
}

/// `s` is the screen that `t` opens, freshly made, on database `db`.
pub open spec fn opened(db: Database, conf: Conf, key: Seq<char>, t: Transition, s: Screen) -> bool {
    match t {
        Transition::Home => (s matches Screen::Home(h) && h.conf() == conf && h.key()@ == key),
        Transition::Register => (s matches Screen::Register(g) && g.conf() == conf && g@ == (RegisterView {
            username: Seq::empty(),
            password: Seq::empty(),
            selected: 0,
            key,
            error: None,
            required: opt_view(conf.password),
        })),
        Transition::Browse(u) => (s matches Screen::Browse(b) && b.conf() == conf && {
            &&& b@.state == BrowseState::Browse
            &&& b@.user == u@
            &&& lists_for(b@.flags, db, u@.id)
            &&& b@.error is None
            &&& b@.selected == Some(0usize)
            &&& b@.scroll == 0
            &&& b@.submission.len() == 0
        }),
        Transition::Leaderboard(u) => (s matches Screen::Leaderboard(l) && l.conf() == conf && {
            &&& l@.user == opt_user_view(u)
            &&& ranks_of(l@.standings, db)
            &&& l@.error is None
            &&& l@.offset == 0
            &&& l@.has_about == conf.about is Some
        }),
        Transition::About(u) => (s matches Screen::About(a) && a.conf() == conf && a@ == (AboutView {
            user: opt_user_view(u),
            error: None,
            scroll: 0,
        })),
    }
}

/// One key press (or none) on a session, with the database before and after:
/// the current screen handles it, and when it leads somewhere the session
/// moves to the newly opened screen.
pub open spec fn app_step(
    before: App,
    after: App,
    key: Option<(KeyCode, KeyModifiers)>,
    animation_done: bool,
    db0: Database,
    db1: Database,
) -> bool {
    &&& after.conf == before.conf
    &&& after.key == before.key
    &&& match before.screen {
        Screen::Home(h) => db1.unchanged(db0) && exists|r: Option<Transition>| {
            &&& #[trigger] home_leads(db0, h.key()@, animation_done, r)
            &&& match r {
                None => after.screen == before.screen,
                Some(t) => opened(db1, before.conf, before.key@, t, after.screen),
            }
        },
        Screen::Register(g) => exists|v: RegisterView, r: Option<Transition>| {
            &&& #[trigger] register_handles(g@, key, v, r, db0, db1)
            &&& match r {
                None => (after.screen matches Screen::Register(g2) && g2@ == v && g2.conf() == g.conf()),
                Some(t) => opened(db1, before.conf, before.key@, t, after.screen),
            }
        },
        Screen::Browse(b) => exists|v: BrowseView, r: Option<Transition>| {
            &&& #[trigger] browse_handles(b@, key, v, r, db0, db1)
            &&& match r {
                None => (after.screen matches Screen::Browse(b2) && b2@ == v && b2.conf() == b.conf()),
                Some(t) => opened(db1, before.conf, before.key@, t, after.screen),
            }
        },
        Screen::Leaderboard(l) => db1.unchanged(db0) && exists|v: LeaderboardView, r: Option<Transition>| {
            &&& #[trigger] leaderboard_handles(l@, key, v, r, db0)
            &&& match r {
                None => (after.screen matches Screen::Leaderboard(l2) && l2@ == v && l2.conf() == l.conf()),
                Some(t) => opened(db1, before.conf, before.key@, t, after.screen),
            }
        },
        Screen::About(a) => db1.unchanged(db0) && exists|v: AboutView, r: Option<Transition>| {
            &&& #[trigger] about_handles(a@, key, v, r)
            &&& match r {
                None => (after.screen matches Screen::About(a2) && a2@ == v && a2.conf() == a.conf()),
                Some(t) => opened(db1, before.conf, before.key@, t, after.screen),
            }
        },
    }
}

impl App {
    /// The session of a client with public key `key`: it opens on the welcome
    /// screen, or on the leaderboard (seen by no one) in leaderboard mode.
    pub fn new(db: &Database, conf: Conf, key: String, leaderboard: bool) -> (app: App)
        requires
            db.wf(),
        ensures
            app.conf == conf,
            app.key@ == key@,
            opened(*db, conf, key@, if leaderboard { Transition::Leaderboard(None) } else { Transition::Home }, app.screen),
    {
        let screen = if !leaderboard {
            Screen::Home(HomeScreen::new(conf.clone(), key.clone()))
        } else {
            Screen::Leaderboard(LeaderboardScreen::new(db, None, conf.clone()))
        };
        App { screen, conf, key }
    }

    /// The screen `t` leads to.
    fn open(&self, db: &Database, t: Transition) -> (s: Screen)
        requires
            db.wf(),
        ensures
            opened(*db, self.conf, self.key@, t, s),
    {
        match t {
            Transition::Home => Screen::Home(HomeScreen::new(self.conf.clone(), self.key.clone())),
            Transition::Register => Screen::Register(RegisterScreen::new(self.conf.clone(), self.key.clone())),
            Transition::Browse(u) => Screen::Browse(BrowseScreen::new(db, u, self.conf.clone())),
            Transition::Leaderboard(u) => Screen::Leaderboard(LeaderboardScreen::new(db, u, self.conf.clone())),
            Transition::About(u) => Screen::About(AboutScreen::new(u, self.conf.clone())),
        }
    }

    /// Hands a key press (or, on a tick without input, `None`) to the current
    /// screen and moves to the screen it leads to. `animation_done` tells the
    /// welcome screen whether its banner animation is over.
    pub fn handle_input(
        &mut self,
        db: &mut Database,
        key: Option<(KeyCode, KeyModifiers)>,
        animation_done: bool,
    )
        requires
            old(db).wf(),
        ensures
            final(db).wf(),
            app_step(*old(self), *final(self), key, animation_done, *old(db), *final(db)),
    {
        let t = match &mut self.screen {
            Screen::Home(h) => {
                let r = h.handle_input(db, animation_done);
                r
            },
            Screen::Register(g) => g.handle_input(db, key),
            Screen::Browse(b) => b.handle_input(db, key),
            Screen::Leaderboard(l) => l.handle_input(db, key),
            Screen::About(a) => a.handle_input(key),
        };
        match t {
            Some(t) => {
                let s = self.open(db, t);
                self.screen = s;
            },
            None => (),
        }
    }
}

} // verus!
