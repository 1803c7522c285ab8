//! What the screens share: where a key press leads, and the labels of the
//! bar drawn around every screen.
use vstd::prelude::*;
use vstd::utf8::encode_utf8;
use crate::database::{points_outcome, Database, DbError, User};
use crate::text::{int_to_decimal, push_i64, push_str, push_u64};
use crate::theme::{Rgb, Theme};

verus! {

/// The screen a key press leads to.
pub enum Transition {
    /// The welcome screen.
    Home,
    /// Registration of the connected key.
    Register,
    /// The flag browser of this user.
    Browse(User),
    /// The leaderboard, seen by this user (or by a spectator).
    Leaderboard(Option<User>),
    /// The about tab.
    About(Option<User>),
}

/// The label of a screen title in the top bar: the title padded with a space
/// on each side.
pub fn title_label(title: &str) -> (r: String)
    ensures
        r@ == " "@ + title@ + " "@,
{
    let mut s = " ".to_owned();
    push_str(&mut s, title);
    push_str(&mut s, " ");
    s
}

/// The user's name as the top bar shows it: padded with a space on each side.
pub fn username_label(name: &str) -> (r: String)
    ensures
        r@ == " "@ + name@ + " "@,
{
    title_label(name)
}

/// The user's points as the top bar shows them: ` {points} points `.
pub fn points_label(points: i32) -> (r: String)
    ensures
        r@ == " "@ + int_to_decimal(points as int) + " points "@,
{
    let mut s = " ".to_owned();
    push_i64(&mut s, points as i64);
    push_str(&mut s, " points ");
    s
}

/// A label of a bar with the colours it is drawn in. Its width in cells is
/// the byte length of its text, cut to 16 bits.
pub struct Segment {
    pub text: String,
    pub width: u16,
    pub fg: Rgb,
    pub bg: Rgb,
}

/// The width a bar gives a label.
pub open spec fn bar_width(text: Seq<char>) -> u16 {
    (encode_utf8(text).len() as usize) as u16
}

/// The segment's text, width and colours are these.
pub open spec fn segment_is(s: Segment, text: Seq<char>, fg: Rgb, bg: Rgb) -> bool {
    s.text@ == text && s.width == bar_width(text) && s.fg == fg && s.bg == bg
}

fn segment(text: String, fg: Rgb, bg: Rgb) -> (s: Segment)
    ensures
        segment_is(s, text@, fg, bg),
{
    let width = text.as_str().len() as u16;
    Segment { text, width, fg, bg }
}

/// The top bar of a screen: its tabs from the left, and on the right the
/// signed-in user's name and points.
pub struct TopBar {
    pub tabs: Vec<Segment>,
    pub user: Option<(Segment, Segment)>,
}

/// The points the top bar shows for a user: 0 when they cannot be summed.
pub open spec fn shown_points(db: Database, uid: int) -> i32 {
    match points_outcome(db, uid) {
        Ok(p) => p,
        Err(_) => 0,
    }
}

/// Lays out the top bar: each tab padded with a space on each side, the
/// selected one in base05 on base02 and the others in base04 on base01; then
/// the user's name (base05 on base02) and points (base05 on base01).
pub fn top_bar(theme: &Theme, tabs: &[&str], selected: usize, user: Option<&User>, db: &Database) -> (r: TopBar)
    requires
        db.wf(),
    ensures
        r.tabs@.len() == tabs@.len(),
        forall|i: int| 0 <= i < tabs@.len() ==> segment_is(#[trigger] r.tabs@[i], " "@ + tabs@[i]@ + " "@,
            if i == selected { theme.base05 } else { theme.base04 },
            if i == selected { theme.base02 } else { theme.base01 }),
        user is None ==> r.user is None,
        user matches Some(u) ==> r.user matches Some((name, points))
            && segment_is(name, " "@ + u@.name + " "@, theme.base05, theme.base02)
            && segment_is(points, " "@ + int_to_decimal(shown_points(*db, u@.id as int) as int) + " points "@, theme.base05, theme.base01),
{
    let mut segs: Vec<Segment> = Vec::new();
    let mut i: usize = 0;
    while i < tabs.len()
        invariant
            i <= tabs@.len(),
            segs@.len() == i,
            forall|k: int| 0 <= k < i ==> segment_is(#[trigger] segs@[k], " "@ + tabs@[k]@ + " "@,
                if k == selected { theme.base05 } else { theme.base04 },
                if k == selected { theme.base02 } else { theme.base01 }),
        decreases tabs@.len() - i,
    {
        let label = title_label(tabs[i]);
        let seg = if i == selected {
            segment(label, theme.base05, theme.base02)
        } else {
            segment(label, theme.base04, theme.base01)
        };
        segs.push(seg);
        i = i + 1;
    }
    let user_segs = match user {
        Some(u) => {
            let points = match u.points(db) {
                Ok(p) => p,
                Err(_) => 0,
            };
            Some((
                segment(username_label(u.name()), theme.base05, theme.base02),
                segment(points_label(points), theme.base05, theme.base01),
            ))
        },
        None => None,
    };
    TopBar { tabs: segs, user: user_segs }
}

/// What a screen shows for a failed query.
pub open spec fn error_message(e: DbError) -> Seq<char> {
    match e {
        DbError::UserExists => "user already exists"@,
        DbError::FlagAlreadySolved => "flag already solved"@,
        DbError::InvalidLogin => "invalid password or username"@,
        DbError::Hash(t) => t@,
        DbError::NullColumn(i) => "Invalid column type Null at index: "@ + int_to_decimal(i as int)
            + ", name: password_hash"@,
        DbError::IdOutOfRange(v) => "Integer "@ + int_to_decimal(v as int) + " out of range at index 0"@,
        DbError::PointsOutOfRange(v) => "Integer "@ + int_to_decimal(v as int) + " out of range at index 0"@,
        DbError::SumOverflow => "integer overflow"@,
        DbError::Full => "database or disk is full"@,
    }
}

impl DbError {
    /// The message shown for the error.
    pub fn message(&self) -> (r: String)
        ensures
            r@ == error_message(*self),
    {
        match self {
            DbError::UserExists => "user already exists".to_owned(),
            DbError::FlagAlreadySolved => "flag already solved".to_owned(),
            DbError::InvalidLogin => "invalid password or username".to_owned(),
            DbError::Hash(t) => t.as_str().to_owned(),
            DbError::NullColumn(i) => {
                let mut s = "Invalid column type Null at index: ".to_owned();
                push_u64(&mut s, *i as u64);
                push_str(&mut s, ", name: password_hash");
                s
            },
            DbError::IdOutOfRange(v) => {
                let mut s = "Integer ".to_owned();
                push_i64(&mut s, *v);
                push_str(&mut s, " out of range at index 0");
                s
            },
            DbError::PointsOutOfRange(v) => {
                let mut s = "Integer ".to_owned();
                push_i64(&mut s, *v);
                push_str(&mut s, " out of range at index 0");
                s
            },
            DbError::SumOverflow => "integer overflow".to_owned(),
            DbError::Full => "database or disk is full".to_owned(),
        }
    }
}

} // verus!
