//! The leaderboard: every user with their points, best first.
use vstd::prelude::*;
use crate::conf::Conf;
use crate::theme::{Rgb, Theme};
use crate::database::{
    fits_i32, listed_users, points_outcome, user_ids_wf, user_of_row, Database, User, UserRow,
    UserView,
};
use crate::keys::{KeyCode, KeyModifiers};
use crate::screens::screen::Transition;
use crate::text::{i64_to_string, int_to_decimal};

verus! {

broadcast use vstd::seq_lib::to_multiset_build, vstd::seq_lib::to_multiset_insert;

/// A user's place on the leaderboard.
pub struct Standing {
    pub user: User,
    pub points: i32,
}

impl View for Standing {
    type V = (UserView, i32);

    open spec fn view(&self) -> (UserView, i32) {
        (self.user@, self.points)
    }
}

impl Standing {
    /// The cells of the standing's row: name and points in decimal.
    pub fn row_parts(&self) -> (r: [String; 2])
        ensures
            r@[0]@ == self.user@.name,
            r@[1]@ == int_to_decimal(self.points as int),
    {
        [self.user.name().to_owned(), i64_to_string(self.points as i64)]
    }
}

/// The points the leaderboard shows for user `uid`: its points, or 0 when
/// they cannot be computed.
pub open spec fn standing_points(db: Database, uid: int) -> i32 {
    match points_outcome(db, uid) {
        Ok(p) => p,
        Err(_) => 0,
    }
}

/// Every user with its points, in table order.
pub open spec fn standings_of(db: Database) -> Seq<(UserView, i32)> {
    listed_users(db.users@).map_values(|row: UserRow| (user_of_row(row), standing_points(db, row.id as int)))
}

/// `a` is ranked above `b`: more points, or as many points and registered
/// earlier.
pub open spec fn ranks_above(a: (UserView, i32), b: (UserView, i32)) -> bool {
    a.1 > b.1 || (a.1 == b.1 && a.0.id < b.0.id)
}

/// Best first: every standing is ranked above the ones after it.
pub open spec fn ranked(s: Seq<(UserView, i32)>) -> bool {
    forall|i: int, j: int| 0 <= i < j < s.len() ==> ranks_above(#[trigger] s[i], #[trigger] s[j])
}

pub open spec fn standing_views(s: Seq<Standing>) -> Seq<(UserView, i32)> {
    s.map_values(|x: Standing| x@)
}

proof fn lemma_listed_users(rows: Seq<UserRow>, seq: i64)
    requires
        user_ids_wf(rows, seq),
    ensures
        forall|i: int| 0 <= i < listed_users(rows).len() ==> fits_i32(#[trigger] listed_users(rows)[i].id as int),
        forall|i: int, j: int| 0 <= i < j < listed_users(rows).len() ==>
            #[trigger] listed_users(rows)[i].id < #[trigger] listed_users(rows)[j].id,
        forall|i: int| 0 <= i < listed_users(rows).len() ==> exists|k: int| 0 <= k < rows.len()
            && #[trigger] listed_users(rows)[i] == rows[k],
    decreases rows.len(),
{
    if rows.len() > 0 {
        let rest = rows.drop_last();
        assert(user_ids_wf(rest, seq)) by {
            assert forall|i: int, j: int| 0 <= i < j < rest.len() implies #[trigger] rest[i].id < #[trigger] rest[j].id by {
                assert(rest[i] == rows[i] && rest[j] == rows[j]);
            }
            assert forall|i: int| 0 <= i < rest.len() implies 1 <= #[trigger] rest[i].id <= seq by {
                assert(rest[i] == rows[i]);
            }
        }
        lemma_listed_users(rest, seq);
        let lr = listed_users(rest);
        let l = listed_users(rows);
        assert forall|i: int| 0 <= i < lr.len() implies exists|k: int| 0 <= k < rows.len() && #[trigger] lr[i] == rows[k] by {
            let k = choose|k: int| 0 <= k < rest.len() && lr[i] == rest[k];
            assert(lr[i] == rows[k]);
        }
        assert forall|i: int| 0 <= i < lr.len() implies (#[trigger] lr[i]).id < rows.last().id by {
            let k = choose|k: int| 0 <= k < rows.len() && lr[i] == rows[k];
            if k != rows.len() - 1 {
                assert(rows[k].id < rows[rows.len() - 1].id);
            } else {
                let k2 = choose|k2: int| 0 <= k2 < rest.len() && lr[i] == rest[k2];
                assert(rows[k2].id < rows[rows.len() - 1].id);
            }
        }
        if fits_i32(rows.last().id as int) {
            assert(l == lr.push(rows.last()));
            assert forall|i: int| 0 <= i < l.len() implies exists|k: int| 0 <= k < rows.len() && #[trigger] l[i] == rows[k] by {
                if i == l.len() - 1 {
                    assert(l[i] == rows[rows.len() - 1]);
                } else {
                    assert(l[i] == lr[i]);
                }
            }
            assert forall|i: int, j: int| 0 <= i < j < l.len() implies #[trigger] l[i].id < #[trigger] l[j].id by {
                assert(l[i] == lr[i]);
                if j < l.len() - 1 {
                    assert(l[j] == lr[j]);
                }
            }
            assert forall|i: int| 0 <= i < l.len() implies fits_i32(#[trigger] l[i].id as int) by {
                if i < l.len() - 1 {
                    assert(l[i] == lr[i]);
                }
            }
        }
    }
}

/// Every user with its points, best first; users with as many points keep
/// their registration order.
pub fn ranking(db: &Database) -> (r: Vec<Standing>)
    requires
        db.wf(),
    ensures
        standing_views(r@).to_multiset() == standings_of(*db).to_multiset(),
        ranked(standing_views(r@)),
{
    let users = User::get_all(db);
    let ghost entries = standings_of(*db);
    proof {
        lemma_listed_users(db.users@, db.user_seq);
    }
    let ghost l = listed_users(db.users@);
    assert forall|a: int, b: int| 0 <= a < b < entries.len() implies (#[trigger] entries[a]).0.id < (#[trigger] entries[b]).0.id by {
        assert(l[a].id < l[b].id);
        assert(fits_i32(l[a].id as int) && fits_i32(l[b].id as int));
    }
    let mut out: Vec<Standing> = Vec::new();
    assert(standing_views(out@) =~= entries.take(0));
    assert forall|k: int| 0 <= k < users@.len() implies (#[trigger] users@[k])@ == entries[k].0 by {
        assert(users@[k]@ == user_of_row(l[k]));
    }
    let mut i: usize = 0;
    while i < users.len()
        invariant
            i <= users@.len(),
            users@.len() == entries.len(),
            l == listed_users(db.users@),
            entries.len() == l.len(),
            forall|k: int| 0 <= k < l.len() ==> fits_i32(#[trigger] l[k].id as int),
            forall|k: int| 0 <= k < l.len() ==> #[trigger] entries[k] == (user_of_row(l[k]), standing_points(*db, l[k].id as int)),
            entries == standings_of(*db),
            db.wf(),
            forall|k: int| 0 <= k < users@.len() ==> (#[trigger] users@[k])@ == entries[k].0,
            forall|a: int, b: int| 0 <= a < b < entries.len() ==> (#[trigger] entries[a]).0.id < (#[trigger] entries[b]).0.id,
            standing_views(out@).to_multiset() == entries.take(i as int).to_multiset(),
            ranked(standing_views(out@)),
            forall|k: int, j: int| 0 <= k < out@.len() && i <= j < entries.len()
                ==> (#[trigger] out@[k]).user@.id < (#[trigger] entries[j]).0.id,
        decreases users.len() - i,
    {
        let u = users[i].clone();
        let p = match u.points(db) {
            Ok(p) => p,
            Err(_) => 0,
        };
        let ghost x = (u@, p);
        assert(x == entries[i as int]) by {
            assert(fits_i32(l[i as int].id as int));
            assert(entries[i as int] == (user_of_row(l[i as int]), standing_points(*db, l[i as int].id as int)));
        }
        let mut k: usize = 0;
        while k < out.len()
            invariant
                k <= out@.len(),
                x == (u@, p),
                forall|m: int| 0 <= m < k ==> ranks_above((#[trigger] out@[m])@, x),
            ensures
                k <= out@.len(),
                forall|m: int| 0 <= m < k ==> ranks_above((#[trigger] out@[m])@, x),
                k < out@.len() ==> !ranks_above(out@[k as int]@, x),
            decreases out.len() - k,
        {
            let o = &out[k];
            if !(o.points > p || (o.points == p && o.user.id() < u.id())) {
                break;
            }
            k = k + 1;
        }
        let ghost before = standing_views(out@);
        out.insert(k, Standing { user: u, points: p });
        proof {
            let after = standing_views(out@);
            assert(after =~= before.insert(k as int, x));
            assert(entries.take(i + 1) =~= entries.take(i as int).push(x));
            assert forall|a: int, b: int| 0 <= a < b < after.len() implies ranks_above(#[trigger] after[a], #[trigger] after[b]) by {
                if a < k && b < k {
                    assert(after[a] == before[a] && after[b] == before[b]);
                } else if a < k && b == k {
                } else if a < k && b > k {
                    assert(after[a] == before[a] && after[b] == before[b - 1]);
                } else if a == k {
                    assert(after[b] == before[b - 1]);
                    assert(before[k as int].0.id < x.0.id);
                    assert(ranks_above(x, before[k as int]));
                } else {
                    assert(after[a] == before[a - 1] && after[b] == before[b - 1]);
                }
            }
        }
        i = i + 1;
    }
    assert(entries.take(entries.len() as int) =~= entries);
    out
}


/// The background of the leaderboard's row `i`: rows alternate, starting
/// with the lighter base01.
pub fn row_background(theme: &Theme, i: usize) -> (c: Rgb)
    ensures
        i % 2 == 1 ==> c == theme.base00,
        i % 2 == 0 ==> c == theme.base01,
{
    if i % 2 == 1 { theme.base00 } else { theme.base01 }
}

/// The leaderboard tab.
pub struct LeaderboardScreen {
    user: Option<User>,
    standings: Vec<Standing>,
    error: Option<String>,
    conf: Conf,
    offset: usize,
}

pub struct LeaderboardView {
    /// The signed-in user; `None` for a spectator.
    pub user: Option<UserView>,
    pub standings: Seq<(UserView, i32)>,
    pub error: Option<Seq<char>>,
    /// The first row shown.
    pub offset: usize,
    /// Whether the configuration has an about tab.
    pub has_about: bool,
}

pub open spec fn opt_user_view(u: Option<User>) -> Option<UserView> {
    match u {
        Some(u) => Some(u@),
        None => None,
    }
}

impl View for LeaderboardScreen {
    type V = LeaderboardView;

    closed spec fn view(&self) -> LeaderboardView {
        LeaderboardView {
            user: opt_user_view(self.user),
            standings: standing_views(self.standings@),
            error: match self.error {
                Some(e) => Some(e@),
                None => None,
            },
            offset: self.offset,
            has_about: self.conf.about is Some,
        }
    }
}

/// The standings are those of `db`, best first.
pub open spec fn ranks_of(standings: Seq<(UserView, i32)>, db: Database) -> bool {
    standings.to_multiset() == standings_of(db).to_multiset() && ranked(standings)
}

/// What handling a key press does to the screen (`before` → `after`), and
/// where it leads (`r`).
pub open spec fn leaderboard_handles(before: LeaderboardView, key: Option<(KeyCode, KeyModifiers)>, after: LeaderboardView, r: Option<Transition>, db: Database) -> bool {
    &&& (key is None ==> after == before && r is None)
    &&& (key matches Some(k) ==> {
                let v = LeaderboardView { error: None, ..before };
                &&& (k.0 == KeyCode::Tab || k.0 == KeyCode::Down) ==> r is None && after == (LeaderboardView {
                    offset: if v.offset < usize::MAX { (v.offset + 1) as usize } else { usize::MAX },
                    ..v
                })
                &&& ((k.0 == KeyCode::BackTab && k.1 == KeyModifiers::Shift) || k.0 == KeyCode::Up)
                    ==> r is None && after == (LeaderboardView {
                        offset: if v.offset > 0 { (v.offset - 1) as usize } else { 0 },
                        ..v
                    })
                &&& (k.0 == KeyCode::Char('r') && k.1 == KeyModifiers::Control) ==> r is None
                    && ranks_of(after.standings, db)
                    && after == (LeaderboardView { standings: after.standings, ..v })
                &&& (k.0 == KeyCode::Left && k.1 == KeyModifiers::Control) ==> after == v && match v.user {
                    Some(u) => r matches Some(Transition::Browse(b)) && b@ == u,
                    None => r is None,
                }
                &&& (k.0 == KeyCode::Right && k.1 == KeyModifiers::Control) ==> after == v && if v.has_about {
                    r matches Some(Transition::About(w)) && opt_user_view(w) == v.user
                } else {
                    r is None
                }
                &&& !(k.0 == KeyCode::Tab || k.0 == KeyCode::Down || (k.0 == KeyCode::BackTab && k.1 == KeyModifiers::Shift)
                    || k.0 == KeyCode::Up || (k.0 == KeyCode::Char('r') && k.1 == KeyModifiers::Control)
                    || (k.0 == KeyCode::Left && k.1 == KeyModifiers::Control)
                    || (k.0 == KeyCode::Right && k.1 == KeyModifiers::Control)) ==> after == v && r is None
            })
}

impl LeaderboardScreen {
    /// The leaderboard of `db`, seen by `user`, scrolled to the top.
    pub fn new(db: &Database, user: Option<User>, conf: Conf) -> (s: LeaderboardScreen)
        requires
            db.wf(),
        ensures
            s@.user == opt_user_view(user),
            ranks_of(s@.standings, *db),
            s@.error is None,
            s@.offset == 0,
            s@.has_about == conf.about is Some,
            s.conf() == conf,
    {
        let standings = ranking(db);
        LeaderboardScreen { user, conf, standings, error: None, offset: 0 }
    }

    pub closed spec fn conf(&self) -> Conf {
        self.conf
    }

    pub fn configuration(&self) -> (r: &Conf)
        ensures
            *r == self.conf(),
    {
        &self.conf
    }

    pub fn user(&self) -> (r: Option<&User>)
        ensures
            match r {
                Some(u) => self@.user == Some(u@),
                None => self@.user is None,
            },
    {
        match &self.user {
            Some(u) => Some(u),
            None => None,
        }
    }

    pub fn standings(&self) -> (r: &Vec<Standing>)
        ensures
            standing_views(r@) == self@.standings,
    {
        &self.standings
    }

    pub fn error(&self) -> (r: Option<&str>)
        ensures
            match r {
                Some(e) => self@.error == Some(e@),
                None => self@.error is None,
            },
    {
        match &self.error {
            Some(e) => Some(e.as_str()),
            None => None,
        }
    }

    pub fn offset(&self) -> (r: usize)
        ensures
            r == self@.offset,
    {
        self.offset
    }

    /// Takes the first row shown back from the table after drawing it.
    pub fn set_offset(&mut self, offset: usize)
        ensures
            final(self)@ == (LeaderboardView { offset, ..old(self)@ }),
            final(self).conf() == old(self).conf(),
    {
        self.offset = offset;
    }

    /// The tabs of the top bar: the about tab only when there is an about text.
    pub fn tabs(&self) -> (r: Vec<&'static str>)
        ensures
            self@.has_about ==> r@.len() == 3 && r@[0]@ == "FLAGS"@ && r@[1]@ == "LEADERBOARD"@ && r@[2]@ == "ABOUT"@,
            !self@.has_about ==> r@.len() == 2 && r@[0]@ == "FLAGS"@ && r@[1]@ == "LEADERBOARD"@,
    {
        if self.conf.about.is_some() {
            vec!["FLAGS", "LEADERBOARD", "ABOUT"]
        } else {
            vec!["FLAGS", "LEADERBOARD"]
        }
    }

    /// Scrolls down one row.
    pub fn focus_next(&mut self)
        ensures
            final(self)@ == (LeaderboardView {
                offset: if old(self)@.offset < usize::MAX { (old(self)@.offset + 1) as usize } else { usize::MAX },
                ..old(self)@
            }),
            final(self).conf() == old(self).conf(),
    {
        self.offset = if self.offset < usize::MAX { self.offset + 1 } else { usize::MAX };
    }

    /// Scrolls up one row.
    pub fn focus_prev(&mut self)
        ensures
            final(self)@ == (LeaderboardView {
                offset: if old(self)@.offset > 0 { (old(self)@.offset - 1) as usize } else { 0 },
                ..old(self)@
            }),
            final(self).conf() == old(self).conf(),
    {
        self.offset = if self.offset > 0 { self.offset - 1 } else { 0 };
    }

    /// Ranks the users again.
    pub fn reload(&mut self, db: &Database) -> (r: Option<Transition>)
        requires
            db.wf(),
        ensures
            r is None,
            ranks_of(final(self)@.standings, *db),
            final(self)@ == (LeaderboardView { standings: final(self)@.standings, ..old(self)@ }),
            final(self).conf() == old(self).conf(),
    {
        self.standings = ranking(db);
        None
    }

    /// Handles a key press (nothing happens without one). Any key clears the
    /// error shown; Tab/Down and Shift+BackTab/Up scroll, Ctrl+R ranks again,
    /// Ctrl+Left goes to the signed-in user's flags and Ctrl+Right to the
    /// about tab, when there is one.
    pub fn handle_input(&mut self, db: &Database, key: Option<(KeyCode, KeyModifiers)>) -> (r: Option<Transition>)
        requires
            db.wf(),
        ensures
            final(self).conf() == old(self).conf(),
            leaderboard_handles(old(self)@, key, final(self)@, r, *db),
    {
        let key = match key {
            Some(k) => k,
            None => return None,
        };
        self.error = None;
        match key {
            (KeyCode::Tab, _) | (KeyCode::Down, _) => self.focus_next(),
            (KeyCode::BackTab, KeyModifiers::Shift) | (KeyCode::Up, _) => self.focus_prev(),
            (KeyCode::Char('r'), KeyModifiers::Control) => return self.reload(db),
            (KeyCode::Left, KeyModifiers::Control) => {
                return match &self.user {
                    Some(u) => Some(Transition::Browse(u.clone())),
                    None => None,
                };
            },
            (KeyCode::Right, KeyModifiers::Control) => {
                if self.conf.about.is_none() {
                    return None;
                }
                return Some(Transition::About(match &self.user {
                    Some(u) => Some(u.clone()),
                    None => None,
                }));
            },
            _ => (),
        }
        None
    }
}

} // verus!
