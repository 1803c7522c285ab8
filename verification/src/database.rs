//! The platform's database: the `users`, `flags` and `cleared` tables, and the
//! queries the platform runs on them.
//!
//! Each table is held as its rows in rowid order. Ids are handed out as an
//! `AUTOINCREMENT` primary key does: one past the largest id the table has
//! ever handed out (its sequence), never reused; when the sequence has reached
//! the largest 64-bit id no row can be added.
use vstd::prelude::*;
use crate::password::{bcrypt_hash, bcrypt_verify, bcrypt_verdict, hash_header};
use crate::text::{i64_to_string, int_to_decimal};

verus! {

/// The bcrypt cost of stored password hashes.
pub const HASH_COST: u32 = 13;

/// A row of the `users` table. `password_hash` is `None` for users that
/// registered with a public key, `key` is `None` for users that registered
/// with a password.
pub struct UserRow {
    pub id: i64,
    pub name: String,
    pub password_hash: Option<String>,
    pub key: Option<String>,
}

/// A row of the `flags` table.
pub struct FlagRow {
    pub id: i64,
    pub name: String,
    pub description: String,
    pub points: i32,
    pub flag: String,
}

/// A row of the `cleared` table: user `uid` has solved flag `fid`.
pub struct ClearedRow {
    pub id: i64,
    pub uid: i32,
    pub fid: i32,
}

/// The three tables with the sequence of each.
pub struct Database {
    pub users: Vec<UserRow>,
    pub flags: Vec<FlagRow>,
    pub cleared: Vec<ClearedRow>,
    pub user_seq: i64,
    pub flag_seq: i64,
    pub cleared_seq: i64,
}

/// Errors of the queries.
#[derive(Debug, PartialEq, Eq)]
pub enum DbError {
    /// "user already exists"
    UserExists,
    /// "flag already solved"
    FlagAlreadySolved,
    /// "invalid password or username"
    InvalidLogin,
    /// bcrypt could not hash, or could not read the stored hash; the text
    /// of bcrypt's error
    Hash(String),
    /// the stored password hash (column 2) is NULL: the user registered
    /// with a public key
    NullColumn(usize),
    /// an id does not fit in 32 bits
    IdOutOfRange(i64),
    /// a user's sum of points, which fits in 64 bits, does not fit in 32
    PointsOutOfRange(i64),
    /// a user's sum of points does not even fit in 64 bits
    SumOverflow,
    /// the table's ids are exhausted
    Full,
}

// ---------------------------------------------------------------------------
// Well-formedness

pub open spec fn fits_i32(x: int) -> bool {
    i32::MIN <= x <= i32::MAX
}

pub open spec fn user_ids_wf(rows: Seq<UserRow>, seq: i64) -> bool {
    &&& forall|i: int| 0 <= i < rows.len() ==> 1 <= #[trigger] rows[i].id <= seq
    &&& forall|i: int, j: int| 0 <= i < j < rows.len() ==> #[trigger] rows[i].id < #[trigger] rows[j].id
}

pub open spec fn flag_ids_wf(rows: Seq<FlagRow>, seq: i64) -> bool {
    &&& forall|i: int| 0 <= i < rows.len() ==> 1 <= #[trigger] rows[i].id <= seq
    &&& forall|i: int, j: int| 0 <= i < j < rows.len() ==> #[trigger] rows[i].id < #[trigger] rows[j].id
}

pub open spec fn cleared_ids_wf(rows: Seq<ClearedRow>, seq: i64) -> bool {
    &&& forall|i: int| 0 <= i < rows.len() ==> 1 <= #[trigger] rows[i].id <= seq
    &&& forall|i: int, j: int| 0 <= i < j < rows.len() ==> #[trigger] rows[i].id < #[trigger] rows[j].id
}

impl Database {
    /// Rows are in increasing id order and no id exceeds its table's sequence.
    pub open spec fn wf(self) -> bool {
        &&& self.user_seq >= 0
        &&& self.flag_seq >= 0
        &&& self.cleared_seq >= 0
        &&& user_ids_wf(self.users@, self.user_seq)
        &&& flag_ids_wf(self.flags@, self.flag_seq)
        &&& cleared_ids_wf(self.cleared@, self.cleared_seq)
    }

    /// The flags table and its sequence are those of `other`.
    pub open spec fn same_flags(self, other: Database) -> bool {
        self.flags@ == other.flags@ && self.flag_seq == other.flag_seq
    }

    pub open spec fn same_users(self, other: Database) -> bool {
        self.users@ == other.users@ && self.user_seq == other.user_seq
    }

    pub open spec fn same_cleared(self, other: Database) -> bool {
        self.cleared@ == other.cleared@ && self.cleared_seq == other.cleared_seq
    }

    pub open spec fn unchanged(self, other: Database) -> bool {
        self.same_users(other) && self.same_flags(other) && self.same_cleared(other)
    }

    /// Whether the tables are well formed: loaded rows must be checked before
    /// queries run on them.
    pub fn is_wf(&self) -> (r: bool)
        ensures
            r == self.wf(),
    {
        if self.user_seq < 0 || self.flag_seq < 0 || self.cleared_seq < 0 {
            return false;
        }
        let mut i: usize = 0;
        while i < self.users.len()
            invariant
                i <= self.users@.len(),
                forall|k: int| 0 <= k < i ==> 1 <= #[trigger] self.users@[k].id <= self.user_seq,
                forall|a: int, b: int| 0 <= a < b < i ==> #[trigger] self.users@[a].id < #[trigger] self.users@[b].id,
            decreases self.users.len() - i,
        {
            let id = self.users[i].id;
            if id < 1 || id > self.user_seq || (i > 0 && self.users[i - 1].id >= id) {
                return false;
            }
            i = i + 1;
        }
        let mut i: usize = 0;
        while i < self.flags.len()
            invariant
                i <= self.flags@.len(),
                user_ids_wf(self.users@, self.user_seq),
                forall|k: int| 0 <= k < i ==> 1 <= #[trigger] self.flags@[k].id <= self.flag_seq,
                forall|a: int, b: int| 0 <= a < b < i ==> #[trigger] self.flags@[a].id < #[trigger] self.flags@[b].id,
            decreases self.flags.len() - i,
        {
            let id = self.flags[i].id;
            if id < 1 || id > self.flag_seq || (i > 0 && self.flags[i - 1].id >= id) {
                return false;
            }
            i = i + 1;
        }
        let mut i: usize = 0;
        while i < self.cleared.len()
            invariant
                i <= self.cleared@.len(),
                user_ids_wf(self.users@, self.user_seq),
                flag_ids_wf(self.flags@, self.flag_seq),
                forall|k: int| 0 <= k < i ==> 1 <= #[trigger] self.cleared@[k].id <= self.cleared_seq,
                forall|a: int, b: int| 0 <= a < b < i ==> #[trigger] self.cleared@[a].id < #[trigger] self.cleared@[b].id,
            decreases self.cleared.len() - i,
        {
            let id = self.cleared[i].id;
            if id < 1 || id > self.cleared_seq || (i > 0 && self.cleared[i - 1].id >= id) {
                return false;
            }
            i = i + 1;
        }
        true
    }

    /// A database with the three tables created and empty.
    pub fn new() -> (db: Database)
        ensures
            db.wf(),
            db.users@.len() == 0,
            db.flags@.len() == 0,
            db.cleared@.len() == 0,
            db.user_seq == 0 && db.flag_seq == 0 && db.cleared_seq == 0,
    {
        Database {
            users: Vec::new(),
            flags: Vec::new(),
            cleared: Vec::new(),
            user_seq: 0,
            flag_seq: 0,
            cleared_seq: 0,
        }
    }
}

// ---------------------------------------------------------------------------
// Users

/// A user as the platform holds it after a query: name and id.
pub struct User {
    name: String,
    pub id: i32,
}

pub struct UserView {
    pub name: Seq<char>,
    pub id: i32,
}

impl View for User {
    type V = UserView;

    closed spec fn view(&self) -> UserView {
        UserView { name: self.name@, id: self.id }
    }
}

impl Clone for User {
    fn clone(&self) -> (r: Self)
        ensures
            r@ == self@,
    {
        User { name: self.name.clone(), id: self.id }
    }
}

/// Some row has this name.
pub open spec fn name_taken(users: Seq<UserRow>, name: Seq<char>) -> bool {
    exists|i: int| 0 <= i < users.len() && #[trigger] users[i].name@ == name
}

/// Index of the first row with this name.
pub open spec fn first_named(users: Seq<UserRow>, name: Seq<char>) -> Option<int>
    decreases users.len(),
{
    if users.len() == 0 {
        None
    } else if users[0].name@ == name {
        Some(0)
    } else {
        match first_named(users.drop_first(), name) {
            Some(i) => Some(i + 1),
            None => None,
        }
    }
}

pub open spec fn user_of_row(row: UserRow) -> UserView {
    UserView { name: row.name@, id: row.id as i32 }
}

/// A query error as contracts compare it: bcrypt's error by the characters
/// of its text, any other error as it is.
pub enum ErrorView {
    Db(DbError),
    Hash(Seq<char>),
}

pub open spec fn error_view(e: DbError) -> ErrorView {
    match e {
        DbError::Hash(t) => ErrorView::Hash(t@),
        _ => ErrorView::Db(e),
    }
}

/// The outcome of logging in as `name` with `password`: the first user of that
/// name whose stored hash the password verifies against.
pub open spec fn login_outcome(users: Seq<UserRow>, name: Seq<char>, password: Seq<char>) -> Result<UserView, ErrorView> {
    match first_named(users, name) {
        None => Err(ErrorView::Db(DbError::InvalidLogin)),
        Some(i) => match users[i].password_hash {
            None => Err(ErrorView::Db(DbError::NullColumn(2))),
            Some(h) => match bcrypt_verdict(password, h@) {
                Err(t) => Err(ErrorView::Hash(t)),
                Ok(false) => Err(ErrorView::Db(DbError::InvalidLogin)),
                Ok(true) => if fits_i32(users[i].id as int) {
                    Ok(user_of_row(users[i]))
                } else {
                    Err(ErrorView::Db(DbError::IdOutOfRange(users[i].id)))
                },
            },
        },
    }
}

proof fn lemma_first_named(users: Seq<UserRow>, name: Seq<char>)
    ensures
        match first_named(users, name) {
            Some(i) => 0 <= i < users.len() && users[i].name@ == name
                && forall|j: int| 0 <= j < i ==> #[trigger] users[j].name@ != name,
            None => !name_taken(users, name),
        },
    decreases users.len(),
{
    if users.len() > 0 && users[0].name@ != name {
        lemma_first_named(users.drop_first(), name);
        let rest = users.drop_first();
        match first_named(rest, name) {
            Some(i) => {
                assert forall|j: int| 0 <= j < i + 1 implies #[trigger] users[j].name@ != name by {
                    if j > 0 {
                        assert(users[j] == rest[j - 1]);
                    }
                }
            },
            None => {
                assert forall|i: int| 0 <= i < users.len() implies #[trigger] users[i].name@ != name by {
                    if i > 0 {
                        assert(users[i] == rest[i - 1]);
                        assert(!(0 <= i - 1 < rest.len() && rest[i - 1].name@ == name));
                    }
                }
            },
        }
    }
}

fn find_user_named(users: &Vec<UserRow>, name: &str) -> (r: Option<usize>)
    ensures
        match r {
            Some(i) => first_named(users@, name@) == Some(i as int),
            None => first_named(users@, name@) is None,
        },
{
    let target = name.to_owned();
    let mut i: usize = 0;
    while i < users.len()
        invariant
            i <= users@.len(),
            target@ == name@,
            forall|j: int| 0 <= j < i ==> #[trigger] users@[j].name@ != name@,
        decreases users.len() - i,
    {
        if users[i].name == target {
            proof { lemma_first_named_at(users@, name@, i as int); }
            return Some(i);
        }
        i = i + 1;
    }
    proof {
        lemma_first_named(users@, name@);
        if first_named(users@, name@) is Some {
            let k = first_named(users@, name@)->0;
            assert(users@[k].name@ == name@);
        }
    }
    None
}

proof fn lemma_first_named_at(users: Seq<UserRow>, name: Seq<char>, i: int)
    requires
        0 <= i < users.len(),
        users[i].name@ == name,
        forall|j: int| 0 <= j < i ==> #[trigger] users[j].name@ != name,
    ensures
        first_named(users, name) == Some(i),
    decreases i,
{
    if i > 0 {
        let rest = users.drop_first();
        assert forall|j: int| 0 <= j < i - 1 implies #[trigger] rest[j].name@ != name by {
            assert(rest[j] == users[j + 1]);
        }
        lemma_first_named_at(rest, name, i - 1);
    }
}


/// The rows of `after` are those of `before` followed by one new row for a
/// user `name` registered with a password, whose stored hash verifies
/// against `password` and is made at cost `HASH_COST`; the new row takes
/// the next id.
pub open spec fn added_password_user(before: Database, after: Database, name: Seq<char>, password: Seq<char>) -> bool {
    let n = before.users@.len();
    &&& after.user_seq == before.user_seq + 1
    &&& after.users@.len() == n + 1
    &&& after.users@.take(n as int) == before.users@
    &&& after.users@[n as int].id == after.user_seq
    &&& after.users@[n as int].name@ == name
    &&& after.users@[n as int].key is None
    &&& after.users@[n as int].password_hash matches Some(h) && bcrypt_verdict(password, h@) == Ok::<bool, Seq<char>>(true)
        && h@.len() == 60 && h@.subrange(0, 7) == hash_header(HASH_COST)
}

proof fn lemma_push_user_wf(db: Database, after: Database, row: UserRow)
    requires
        db.wf(),
        db.user_seq < i64::MAX,
        row.id == db.user_seq + 1,
        after.users@ == db.users@.push(row),
        after.user_seq == db.user_seq + 1,
        after.same_flags(db),
        after.same_cleared(db),
    ensures
        after.wf(),
{
    let rows = after.users@;
    assert forall|i: int, j: int| 0 <= i < j < rows.len() implies #[trigger] rows[i].id < #[trigger] rows[j].id by {
        if j == rows.len() - 1 {
            assert(rows[i] == db.users@[i]);
        } else {
            assert(rows[i] == db.users@[i] && rows[j] == db.users@[j]);
        }
    }
    assert forall|i: int| 0 <= i < rows.len() implies 1 <= #[trigger] rows[i].id <= after.user_seq by {
        if i < rows.len() - 1 {
            assert(rows[i] == db.users@[i]);
        }
    }
}

/// Stores a new user `name` with the bcrypt hash of `password`, unless the
/// name is taken.
pub(crate) fn store_password_user(db: &mut Database, name: &String, password: &String) -> (r: Result<(), DbError>)
    requires
        old(db).wf(),
    ensures
        final(db).wf(),
        final(db).same_flags(*old(db)),
        final(db).same_cleared(*old(db)),
        name_taken(old(db).users@, name@) ==> r == Err::<(), DbError>(DbError::UserExists)
            && final(db).unchanged(*old(db)),
        !name_taken(old(db).users@, name@) ==> match r {
            Err(DbError::Hash(_)) => final(db).unchanged(*old(db)),
            Err(DbError::Full) => old(db).user_seq == i64::MAX && final(db).unchanged(*old(db)),
            Ok(()) => old(db).user_seq < i64::MAX && added_password_user(*old(db), *final(db), name@, password@),
            _ => false,
        },
{
    if let Some(_) = find_user_named(&db.users, name.as_str()) {
        proof { lemma_first_named(db.users@, name@); }
        return Err(DbError::UserExists);
    }
    proof { lemma_first_named(db.users@, name@); }
    let hash = match bcrypt_hash(password.as_str(), HASH_COST) {
        Ok(h) => h,
        Err(t) => return Err(DbError::Hash(t)),
    };
    if db.user_seq == i64::MAX {
        return Err(DbError::Full);
    }
    let ghost before = *db;
    let row = UserRow { id: db.user_seq + 1, name: name.clone(), password_hash: Some(hash), key: None };
    db.users.push(row);
    db.user_seq = db.user_seq + 1;
    proof {
        lemma_push_user_wf(before, *db, row);
        assert(db.users@.take(before.users@.len() as int) =~= before.users@);
    }
    Ok(())
}

/// Finds the first user row named `name`.
pub(crate) fn user_row_named(db: &Database, name: &str) -> (r: Option<usize>)
    ensures
        match r {
            Some(i) => first_named(db.users@, name@) == Some(i as int) && i < db.users@.len(),
            None => first_named(db.users@, name@) is None,
        },
{
    let r = find_user_named(&db.users, name);
    proof { lemma_first_named(db.users@, name@); }
    r
}

impl User {
    fn new(name: String, id: i32) -> (u: User)
        ensures
            u@ == (UserView { name: name@, id }),
    {
        User { name, id }
    }

    /// The user's name.
    pub fn name(&self) -> (r: &str)
        ensures
            r@ == self@.name,
    {
        self.name.as_str()
    }

    /// The user's id.
    pub fn id(&self) -> (r: i32)
        ensures
            r == self@.id,
    {
        self.id
    }

    /// Registers a user with a password.
    ///
    /// Fails with `UserExists` when the name is taken. Otherwise the password
    /// is hashed with bcrypt and the row stored, and the new user is read
    /// back: its name and its id, which must fit in 32 bits.
    pub fn create_user(db: &mut Database, name: &String, password: &String) -> (r: Result<User, DbError>)
        requires
            old(db).wf(),
        ensures
            final(db).wf(),
            final(db).same_flags(*old(db)),
            final(db).same_cleared(*old(db)),
            name_taken(old(db).users@, name@) ==> r == Err::<User, DbError>(DbError::UserExists)
                && final(db).unchanged(*old(db)),
            !name_taken(old(db).users@, name@) ==> match r {
                Err(DbError::Hash(_)) => final(db).unchanged(*old(db)),
                Err(DbError::Full) => old(db).user_seq == i64::MAX && final(db).unchanged(*old(db)),
                Ok(u) => old(db).user_seq < i64::MAX && added_password_user(*old(db), *final(db), name@, password@)
                    && fits_i32(old(db).user_seq + 1)
                    && u@ == (UserView { name: name@, id: (old(db).user_seq + 1) as i32 }),
                Err(DbError::IdOutOfRange(v)) => old(db).user_seq < i64::MAX
                    && added_password_user(*old(db), *final(db), name@, password@)
                    && !fits_i32(old(db).user_seq + 1) && v == old(db).user_seq + 1,
                _ => false,
            },
    {
        match store_password_user(db, name, password) {
            Ok(()) => {
                let id = db.user_seq;
                if id > 2147483647 {
                    Err(DbError::IdOutOfRange(id))
                } else {
                    Ok(User::new(name.clone(), id as i32))
                }
            },
            Err(e) => Err(e),
        }
    }

    /// Signs in as `username` with `password`: the first user of that name,
    /// when the password verifies against its stored bcrypt hash.
    pub fn login(db: &Database, username: &str, password: &str) -> (r: Result<User, DbError>)
        requires
            db.wf(),
        ensures
            match r {
                Ok(u) => login_outcome(db.users@, username@, password@) == Ok::<UserView, ErrorView>(u@),
                Err(e) => login_outcome(db.users@, username@, password@) == Err::<UserView, ErrorView>(error_view(e)),
            },
    {
        let i = match find_user_named(&db.users, username) {
            Some(i) => i,
            None => return Err(DbError::InvalidLogin),
        };
        proof { lemma_first_named(db.users@, username@); }
        let row = &db.users[i];
        let hash = match &row.password_hash {
            Some(h) => h,
            None => return Err(DbError::NullColumn(2)),
        };
        match bcrypt_verify(password, hash.as_str()) {
            Err(t) => Err(DbError::Hash(t)),
            Ok(false) => Err(DbError::InvalidLogin),
            Ok(true) => {
                if row.id < -2147483648 || row.id > 2147483647 {
                    Err(DbError::IdOutOfRange(row.id))
                } else {
                    Ok(User::new(row.name.clone(), row.id as i32))
                }
            },
        }
    }
}


// ---------------------------------------------------------------------------
// Points

/// Points of the flag with id `fid`; 0 when there is none (the join drops the
/// solve).
pub open spec fn flag_points_of(flags: Seq<FlagRow>, fid: int) -> int
    decreases flags.len(),
{
    if flags.len() == 0 {
        0
    } else if flags.last().id == fid {
        flags.last().points as int
    } else {
        flag_points_of(flags.drop_last(), fid)
    }
}

/// Sum, over the solves of user `uid`, of the points of the solved flag.
pub open spec fn cleared_sum(cleared: Seq<ClearedRow>, flags: Seq<FlagRow>, uid: int) -> int
    decreases cleared.len(),
{
    if cleared.len() == 0 {
        0
    } else {
        cleared_sum(cleared.drop_last(), flags, uid) + if cleared.last().uid == uid {
            flag_points_of(flags, cleared.last().fid as int)
        } else {
            0
        }
    }
}

pub open spec fn user_id_exists(users: Seq<UserRow>, uid: int) -> bool {
    exists|i: int| 0 <= i < users.len() && #[trigger] users[i].id == uid
}

/// The points of user `uid`: the sum over its solves of the solved flags'
/// points, 0 for an id no user has.
pub open spec fn points_total(db: Database, uid: int) -> int {
    if user_id_exists(db.users@, uid) {
        cleared_sum(db.cleared@, db.flags@, uid)
    } else {
        0
    }
}

/// The answer of the points query: the total when it fits in 32 bits.
pub open spec fn points_outcome(db: Database, uid: int) -> Result<i32, DbError> {
    if fits_i32(points_total(db, uid)) {
        Ok(points_total(db, uid) as i32)
    } else if i64::MIN <= points_total(db, uid) <= i64::MAX {
        Err(DbError::PointsOutOfRange(points_total(db, uid) as i64))
    } else {
        Err(DbError::SumOverflow)
    }
}

fn lookup_flag_points(flags: &Vec<FlagRow>, fid: i32) -> (r: i32)
    ensures
        r as int == flag_points_of(flags@, fid as int),
{
    let mut j: usize = flags.len();
    assert(flags@.take(j as int) =~= flags@);
    while j > 0
        invariant
            j <= flags@.len(),
            flag_points_of(flags@, fid as int) == flag_points_of(flags@.take(j as int), fid as int),
        decreases j,
    {
        let ghost t = flags@.take(j as int);
        assert(t.drop_last() =~= flags@.take(j - 1));
        assert(t.last() == flags@[j - 1]);
        if flags[j - 1].id == fid as i64 {
            return flags[j - 1].points;
        }
        j = j - 1;
    }
    0
}

fn user_exists_with_id(users: &Vec<UserRow>, uid: i32) -> (r: bool)
    ensures
        r == user_id_exists(users@, uid as int),
{
    let mut i: usize = 0;
    while i < users.len()
        invariant
            i <= users@.len(),
            forall|j: int| 0 <= j < i ==> #[trigger] users@[j].id != uid as int,
        decreases users.len() - i,
    {
        if users[i].id == uid as i64 {
            return true;
        }
        i = i + 1;
    }
    false
}

impl User {
    /// The user's points: the sum of the points of the flags the user has
    /// solved, an error when that sum does not fit in 32 bits.
    pub fn points(&self, db: &Database) -> (r: Result<i32, DbError>)
        requires
            db.wf(),
        ensures
            r == points_outcome(*db, self@.id as int),
    {
        if !user_exists_with_id(&db.users, self.id) {
            return Ok(0);
        }
        let mut acc: i128 = 0;
        let mut i: usize = 0;
        while i < db.cleared.len()
            invariant
                i <= db.cleared@.len(),
                acc == cleared_sum(db.cleared@.take(i as int), db.flags@, self@.id as int),
                -(i as int) * 2147483648 <= acc <= (i as int) * 2147483648,
            decreases db.cleared.len() - i,
        {
            let ghost t = db.cleared@.take(i + 1);
            assert(t.drop_last() =~= db.cleared@.take(i as int));
            assert(t.last() == db.cleared@[i as int]);
            let c = &db.cleared[i];
            if c.uid == self.id {
                let p = lookup_flag_points(&db.flags, c.fid);
                acc = acc + p as i128;
            }
            i = i + 1;
        }
        assert(db.cleared@.take(db.cleared@.len() as int) =~= db.cleared@);
        if acc < -9223372036854775808 || acc > 9223372036854775807 {
            Err(DbError::SumOverflow)
        } else if acc < -2147483648 || acc > 2147483647 {
            Err(DbError::PointsOutOfRange(acc as i64))
        } else {
            Ok(acc as i32)
        }
    }
}


// ---------------------------------------------------------------------------
// Flags

/// A flag as the platform lists it; `solved` tells whether the user it was
/// listed for has solved it.
pub struct Flag {
    name: String,
    description: String,
    flag: String,
    points: i32,
    id: i32,
    solved: bool,
}

pub struct FlagView {
    pub name: Seq<char>,
    pub description: Seq<char>,
    pub flag: Seq<char>,
    pub points: i32,
    pub id: i32,
    pub solved: bool,
}

impl View for Flag {
    type V = FlagView;

    closed spec fn view(&self) -> FlagView {
        FlagView {
            name: self.name@,
            description: self.description@,
            flag: self.flag@,
            points: self.points,
            id: self.id,
            solved: self.solved,
        }
    }
}

impl Clone for Flag {
    fn clone(&self) -> (r: Self)
        ensures
            r@ == self@,
    {
        Flag {
            name: self.name.clone(),
            description: self.description.clone(),
            flag: self.flag.clone(),
            points: self.points,
            id: self.id,
            solved: self.solved,
        }
    }
}

/// The flag a row is listed as.
pub open spec fn flag_of_row(row: FlagRow, solved: bool) -> FlagView {
    FlagView {
        name: row.name@,
        description: row.description@,
        flag: row.flag@,
        points: row.points,
        id: row.id as i32,
        solved,
    }
}

/// The rows the flag listing returns: those whose id can be read as a 32-bit
/// id, in table order (rows that cannot be read are skipped).
pub open spec fn listed_flags(rows: Seq<FlagRow>) -> Seq<FlagRow>
    decreases rows.len(),
{
    if rows.len() == 0 {
        Seq::empty()
    } else if fits_i32(rows.last().id as int) {
        listed_flags(rows.drop_last()).push(rows.last())
    } else {
        listed_flags(rows.drop_last())
    }
}

/// User `uid` has a solve of flag `fid`.
pub open spec fn solved_by(cleared: Seq<ClearedRow>, uid: int, fid: int) -> bool {
    exists|i: int| 0 <= i < cleared.len() && (#[trigger] cleared[i]).uid == uid && cleared[i].fid == fid
}

/// `flags` is the listing of the flags table, each marked solved exactly when
/// `solved(id)` holds.
pub open spec fn is_listing(flags: Seq<Flag>, rows: Seq<FlagRow>, solved: spec_fn(int) -> bool) -> bool {
    let l = listed_flags(rows);
    &&& flags.len() == l.len()
    &&& forall|i: int| 0 <= i < l.len() ==> (#[trigger] flags[i])@ == flag_of_row(l[i], solved(l[i].id as int))
}

fn has_solve(cleared: &Vec<ClearedRow>, uid: i32, fid: i32) -> (r: bool)
    ensures
        r == solved_by(cleared@, uid as int, fid as int),
{
    let mut i: usize = 0;
    while i < cleared.len()
        invariant
            i <= cleared@.len(),
            forall|j: int| 0 <= j < i ==> !((#[trigger] cleared@[j]).uid == uid && cleared@[j].fid == fid),
        decreases cleared.len() - i,
    {
        if cleared[i].uid == uid && cleared[i].fid == fid {
            return true;
        }
        i = i + 1;
    }
    false
}

fn list_flags(db: &Database, user: Option<i32>) -> (r: Vec<Flag>)
    ensures
        is_listing(r@, db.flags@, |fid: int| match user {
            Some(uid) => solved_by(db.cleared@, uid as int, fid),
            None => false,
        }),
{
    let ghost solved = |fid: int| match user {
        Some(uid) => solved_by(db.cleared@, uid as int, fid),
        None => false,
    };
    let mut out: Vec<Flag> = Vec::new();
    let mut i: usize = 0;
    while i < db.flags.len()
        invariant
            i <= db.flags@.len(),
            solved == (|fid: int| match user {
                Some(uid) => solved_by(db.cleared@, uid as int, fid),
                None => false,
            }),
            is_listing(out@, db.flags@.take(i as int), solved),
        decreases db.flags.len() - i,
    {
        let ghost t = db.flags@.take(i + 1);
        assert(t.drop_last() =~= db.flags@.take(i as int));
        assert(t.last() == db.flags@[i as int]);
        let row = &db.flags[i];
        if row.id >= -2147483648 && row.id <= 2147483647 {
            let id = row.id as i32;
            let solved_now = match user {
                Some(uid) => has_solve(&db.cleared, uid, id),
                None => false,
            };
            let f = Flag {
                name: row.name.clone(),
                description: row.description.clone(),
                flag: row.flag.clone(),
                points: row.points,
                id,
                solved: solved_now,
            };
            out.push(f);
        }
        i = i + 1;
        proof {
            let l = listed_flags(db.flags@.take(i as int));
            assert forall|k: int| 0 <= k < l.len() implies (#[trigger] out@[k])@ == flag_of_row(l[k], solved(l[k].id as int)) by {
                let lp = listed_flags(db.flags@.take(i - 1));
                if k < lp.len() {
                    assert(l[k] == lp[k]);
                }
            }
        }
    }
    assert(db.flags@.take(db.flags@.len() as int) =~= db.flags@);
    out
}

/// What recording a solve of flag `fid` by user `uid` answers.
pub open spec fn clear_result(db: Database, uid: i32, fid: i32) -> Result<(), DbError> {
    if solved_by(db.cleared@, uid as int, fid as int) {
        Err(DbError::FlagAlreadySolved)
    } else if db.cleared_seq == i64::MAX {
        Err(DbError::Full)
    } else {
        Ok(())
    }
}

/// What recording a solve of flag `fid` by user `uid` does to the tables:
/// one new cleared row with the next id, unless the solve is already there or
/// the ids are exhausted.
pub open spec fn clear_effect(before: Database, after: Database, uid: i32, fid: i32) -> bool {
    if clear_result(before, uid, fid) is Ok {
        &&& after.same_users(before)
        &&& after.same_flags(before)
        &&& after.cleared_seq == before.cleared_seq + 1
        &&& after.cleared@ == before.cleared@.push(ClearedRow { id: after.cleared_seq, uid, fid })
    } else {
        after.unchanged(before)
    }
}

impl Flag {
    /// Every flag, in table order, none marked solved.
    pub fn get_all(db: &Database) -> (r: Vec<Flag>)
        ensures
            is_listing(r@, db.flags@, |fid: int| false),
    {
        let r = list_flags(db, None);
        proof {
            let s1 = |fid: int| match Option::<i32>::None {
                Some(uid) => solved_by(db.cleared@, uid as int, fid),
                None => false,
            };
            assert(s1 =~= (|fid: int| false));
        }
        r
    }

    /// Every flag, in table order, each marked solved when `user` has solved it.
    pub fn get_all_with_user(db: &Database, user: &User) -> (r: Vec<Flag>)
        ensures
            is_listing(r@, db.flags@, |fid: int| solved_by(db.cleared@, user@.id as int, fid)),
    {
        let r = list_flags(db, Some(user.id));
        proof {
            let s1 = |fid: int| match Some(user.id) {
                Some(uid) => solved_by(db.cleared@, uid as int, fid),
                None => false,
            };
            assert(s1 =~= (|fid: int| solved_by(db.cleared@, user@.id as int, fid)));
        }
        r
    }

    /// The cells of the flag's row in the flag table: name, description and
    /// points in decimal.
    pub fn row_parts(&self) -> (r: [String; 3])
        ensures
            r@[0]@ == self@.name,
            r@[1]@ == self@.description,
            r@[2]@ == int_to_decimal(self@.points as int),
    {
        [self.name.clone(), self.description.clone(), i64_to_string(self.points as i64)]
    }

    pub fn name(&self) -> (r: &str)
        ensures
            r@ == self@.name,
    {
        self.name.as_str()
    }

    pub fn description(&self) -> (r: &str)
        ensures
            r@ == self@.description,
    {
        self.description.as_str()
    }

    pub fn points(&self) -> (r: i32)
        ensures
            r == self@.points,
    {
        self.points
    }

    /// The solution string.
    pub fn flag(&self) -> (r: &str)
        ensures
            r@ == self@.flag,
    {
        self.flag.as_str()
    }

    pub fn id(&self) -> (r: i32)
        ensures
            r == self@.id,
    {
        self.id
    }

    /// Whether the user the flag was listed for has solved it.
    pub fn solved(&self) -> (r: bool)
        ensures
            r == self@.solved,
    {
        self.solved
    }

    /// Records that user `id` solved this flag. Fails with
    /// `FlagAlreadySolved` when that solve is already recorded; neither the
    /// user nor the flag is checked to exist.
    pub fn clear_for_user(&self, db: &mut Database, id: i32) -> (r: Result<(), DbError>)
        requires
            old(db).wf(),
        ensures
            final(db).wf(),
            clear_effect(*old(db), *final(db), id, self@.id),
            r == clear_result(*old(db), id, self@.id),
    {
        if has_solve(&db.cleared, id, self.id) {
            return Err(DbError::FlagAlreadySolved);
        }
        if db.cleared_seq == i64::MAX {
            return Err(DbError::Full);
        }
        let ghost before = *db;
        let row = ClearedRow { id: db.cleared_seq + 1, uid: id, fid: self.id };
        db.cleared.push(row);
        db.cleared_seq = db.cleared_seq + 1;
        proof {
            let rows = db.cleared@;
            assert forall|i: int, j: int| 0 <= i < j < rows.len() implies #[trigger] rows[i].id < #[trigger] rows[j].id by {
                assert(rows[i] == before.cleared@[i]);
                if j < rows.len() - 1 {
                    assert(rows[j] == before.cleared@[j]);
                }
            }
            assert forall|i: int| 0 <= i < rows.len() implies 1 <= #[trigger] rows[i].id <= db.cleared_seq by {
                if i < rows.len() - 1 {
                    assert(rows[i] == before.cleared@[i]);
                }
            }
        }
        Ok(())
    }
}


// ---------------------------------------------------------------------------
// Managing the flags table

/// `after` holds the flag rows of `before` followed by one new row with the
/// given contents and the next id.
pub open spec fn added_flag(
    before: Database,
    after: Database,
    name: Seq<char>,
    description: Seq<char>,
    points: i32,
    flag: Seq<char>,
) -> bool {
    let n = before.flags@.len();
    &&& after.flag_seq == before.flag_seq + 1
    &&& after.flags@.len() == n + 1
    &&& after.flags@.take(n as int) == before.flags@
    &&& after.flags@[n as int].id == after.flag_seq
    &&& after.flags@[n as int].name@ == name
    &&& after.flags@[n as int].description@ == description
    &&& after.flags@[n as int].points == points
    &&& after.flags@[n as int].flag@ == flag
}

/// Adds a flag.
pub fn create_flag(db: &mut Database, name: &str, description: &str, points: i32, flag: &str)
    requires
        old(db).wf(),
        old(db).flag_seq < i64::MAX,
    ensures
        final(db).wf(),
        final(db).same_users(*old(db)),
        final(db).same_cleared(*old(db)),
        added_flag(*old(db), *final(db), name@, description@, points, flag@),
{
    let ghost before = *db;
    let row = FlagRow {
        id: db.flag_seq + 1,
        name: name.to_owned(),
        description: description.to_owned(),
        points,
        flag: flag.to_owned(),
    };
    db.flags.push(row);
    db.flag_seq = db.flag_seq + 1;
    proof {
        let rows = db.flags@;
        assert forall|i: int, j: int| 0 <= i < j < rows.len() implies #[trigger] rows[i].id < #[trigger] rows[j].id by {
            assert(rows[i] == before.flags@[i]);
            if j < rows.len() - 1 {
                assert(rows[j] == before.flags@[j]);
            }
        }
        assert forall|i: int| 0 <= i < rows.len() implies 1 <= #[trigger] rows[i].id <= db.flag_seq by {
            if i < rows.len() - 1 {
                assert(rows[i] == before.flags@[i]);
            }
        }
        assert(rows.take(before.flags@.len() as int) =~= before.flags@);
    }
}

/// Position of the flag row with id `id`.
pub open spec fn flag_index(rows: Seq<FlagRow>, id: int) -> Option<int> {
    if exists|k: int| 0 <= k < rows.len() && (#[trigger] rows[k]).id == id {
        Some(choose|k: int| 0 <= k < rows.len() && (#[trigger] rows[k]).id == id)
    } else {
        None
    }
}

/// Deletes the flag with id `id`, if there is one. Solves of it stay in the
/// cleared table, and the id is not handed out again.
pub fn delete_flag(db: &mut Database, id: i32)
    requires
        old(db).wf(),
    ensures
        final(db).wf(),
        final(db).same_users(*old(db)),
        final(db).same_cleared(*old(db)),
        final(db).flag_seq == old(db).flag_seq,
        match flag_index(old(db).flags@, id as int) {
            Some(k) => final(db).flags@ == old(db).flags@.remove(k),
            None => final(db).flags@ == old(db).flags@,
        },
        forall|i: int| 0 <= i < final(db).flags@.len() ==> (#[trigger] final(db).flags@[i]).id != id,
{
    let mut i: usize = 0;
    while i < db.flags.len()
        invariant
            i <= db.flags@.len(),
            db.wf(),
            db.unchanged(*old(db)),
            forall|j: int| 0 <= j < i ==> (#[trigger] db.flags@[j]).id != id as int,
        decreases db.flags.len() - i,
    {
        if db.flags[i].id == id as i64 {
            let ghost before = *db;
            proof {
                let k = choose|k: int| 0 <= k < before.flags@.len() && (#[trigger] before.flags@[k]).id == id as int;
                if k != i as int {
                    if k < i {
                    } else {
                        assert(before.flags@[i as int].id < before.flags@[k].id);
                    }
                }
            }
            db.flags.remove(i);
            proof {
                let rows = db.flags@;
                assert(rows =~= before.flags@.remove(i as int));
                assert forall|a: int, b: int| 0 <= a < b < rows.len() implies #[trigger] rows[a].id < #[trigger] rows[b].id by {
                    let a0 = if a < i { a } else { a + 1 };
                    let b0 = if b < i { b } else { b + 1 };
                    assert(rows[a] == before.flags@[a0]);
                    assert(rows[b] == before.flags@[b0]);
                }
                assert forall|a: int| 0 <= a < rows.len() implies 1 <= #[trigger] rows[a].id <= db.flag_seq by {
                    let a0 = if a < i { a } else { a + 1 };
                    assert(rows[a] == before.flags@[a0]);
                }
                assert forall|a: int| 0 <= a < rows.len() implies (#[trigger] rows[a]).id != id by {
                    let a0 = if a < i { a } else { a + 1 };
                    assert(rows[a] == before.flags@[a0]);
                    if a >= i {
                        assert(before.flags@[i as int].id < before.flags@[a0].id);
                    }
                }
            }
            return;
        }
        i = i + 1;
    }
}

/// Drops every flag and recreates the empty flags table; its ids start again
/// from 1. Solves stay in the cleared table.
pub fn clear_flags(db: &mut Database)
    requires
        old(db).wf(),
    ensures
        final(db).wf(),
        final(db).same_users(*old(db)),
        final(db).same_cleared(*old(db)),
        final(db).flags@.len() == 0,
        final(db).flag_seq == 0,
{
    db.flags = Vec::new();
    db.flag_seq = 0;
}

/// Deletes every recorded solve. Loading a new set of flags renumbers them,
/// so the solves of the old flags go with them; the ids of deleted solves are
/// not handed out again.
pub fn clear_solves(db: &mut Database)
    requires
        old(db).wf(),
    ensures
        final(db).wf(),
        final(db).same_users(*old(db)),
        final(db).same_flags(*old(db)),
        final(db).cleared@.len() == 0,
        final(db).cleared_seq == old(db).cleared_seq,
{
    db.cleared = Vec::new();
}

/// The sample flags, as (name, description, points, solution).
pub open spec fn test_flag(k: int) -> (Seq<char>, Seq<char>, i32, Seq<char>) {
    if k == 0 {
        ("flag0"@, "easy test flag"@, 100i32, "ctf{flag}"@)
    } else if k == 1 {
        ("flag1"@, "hard flag"@, 500i32, "ctf{flag_1337}"@)
    } else if k == 2 {
        ("flag2"@, "medium flag"@, 300i32, "ctf{flag_leet}"@)
    } else if k == 3 {
        ("mdflag"@, "# markdown flag\n[with links](https://github.com)"@, 300i32, "ctf{flag_md}"@)
    } else {
        ("longflag"@, LONG_FLAG_DESCRIPTION@, 300i32, "ctf{flag_md}"@)
    }
}

pub const LONG_FLAG_DESCRIPTION: &'static str = "A REALLY LONG FLAAAAAAAAAAAAAAAAAAAAAAAAAAAAAAAAAA\nAAAAAAAAAAAAAAAAAAAAAAAAAAAAAAAAAAAAAAAAAAAAAAAAAAAAAAAAAAAAAAAAAAAAAAAAAAAAAAAAAAAAAAAAAAAAAA\n\n\n\n\nAAAAAAAAAAAAAAAAAAAAAAAAAAAAAAAAAAAAAAAAAAAAAAAAAAAAAAAAAAAAAAAAAAAAAAAAAAAAAAAAAAAAAAAAAAAAAAAAAAAAAAAAAAAAAAAAAAAAAAAAAAAAAAAAAAAAAAAAAAAAAAAAAAAAAAAG!!!!!!!!!!!!!!!!!!!!!!!!!!!!!!!!!!!!!!!!!!!!!!!\n\n\n\n\n\n\n\n\n\n\n\n(very long)";

/// Adds the five sample flags used during development.
pub fn create_test_flags(db: &mut Database)
    requires
        old(db).wf(),
        old(db).flag_seq <= i64::MAX - 5,
    ensures
        final(db).wf(),
        final(db).same_users(*old(db)),
        final(db).same_cleared(*old(db)),
        final(db).flag_seq == old(db).flag_seq + 5,
        final(db).flags@.len() == old(db).flags@.len() + 5,
        final(db).flags@.take(old(db).flags@.len() as int) == old(db).flags@,
        forall|k: int| 0 <= k < 5 ==> {
            let row = #[trigger] final(db).flags@[old(db).flags@.len() + k];
            &&& row.id == old(db).flag_seq + 1 + k
            &&& (row.name@, row.description@, row.points, row.flag@) == test_flag(k)
        },
{
    let ghost d0 = *db;
    create_flag(db, "flag0", "easy test flag", 100, "ctf{flag}");
    let ghost d1 = *db;
    create_flag(db, "flag1", "hard flag", 500, "ctf{flag_1337}");
    let ghost d2 = *db;
    create_flag(db, "flag2", "medium flag", 300, "ctf{flag_leet}");
    let ghost d3 = *db;
    create_flag(db, "mdflag", "# markdown flag\n[with links](https://github.com)", 300, "ctf{flag_md}");
    let ghost d4 = *db;
    create_flag(db, "longflag", LONG_FLAG_DESCRIPTION, 300, "ctf{flag_md}");
    proof {
        let n = d0.flags@.len() as int;
        let f = db.flags@;
        assert(d1.flags@ == d0.flags@.push(d1.flags@[n]));
        assert(d2.flags@ == d1.flags@.push(d2.flags@[n + 1]));
        assert(d3.flags@ == d2.flags@.push(d3.flags@[n + 2]));
        assert(d4.flags@ == d3.flags@.push(d4.flags@[n + 3]));
        assert(f == d4.flags@.push(f[n + 4]));
        assert(f.take(n) =~= d0.flags@);
        assert(f[n + 0] == d1.flags@[n]);
        assert(f[n + 1] == d2.flags@[n + 1]);
        assert(f[n + 2] == d3.flags@[n + 2]);
        assert(f[n + 3] == d4.flags@[n + 3]);
    }
}


// ---------------------------------------------------------------------------
// Users identified by their public key

/// The row holds this key.
pub open spec fn has_key(row: UserRow, key: Seq<char>) -> bool {
    row.key matches Some(k) && k@ == key
}

/// Index of the first row holding this key.
pub open spec fn first_with_key(users: Seq<UserRow>, key: Seq<char>) -> Option<int>
    decreases users.len(),
{
    if users.len() == 0 {
        None
    } else if has_key(users[0], key) {
        Some(0)
    } else {
        match first_with_key(users.drop_first(), key) {
            Some(i) => Some(i + 1),
            None => None,
        }
    }
}

/// The user that signing in with `key` finds.
pub open spec fn key_login_outcome(users: Seq<UserRow>, key: Seq<char>) -> Option<UserView> {
    match first_with_key(users, key) {
        Some(i) => if fits_i32(users[i].id as int) {
            Some(user_of_row(users[i]))
        } else {
            None
        },
        None => None,
    }
}

proof fn lemma_first_with_key_at(users: Seq<UserRow>, key: Seq<char>, i: int)
    requires
        0 <= i < users.len(),
        has_key(users[i], key),
        forall|j: int| 0 <= j < i ==> !has_key(#[trigger] users[j], key),
    ensures
        first_with_key(users, key) == Some(i),
    decreases i,
{
    if i > 0 {
        let rest = users.drop_first();
        assert forall|j: int| 0 <= j < i - 1 implies !has_key(#[trigger] rest[j], key) by {
            assert(rest[j] == users[j + 1]);
        }
        lemma_first_with_key_at(rest, key, i - 1);
    }
}

proof fn lemma_first_with_key_none(users: Seq<UserRow>, key: Seq<char>)
    requires
        forall|j: int| 0 <= j < users.len() ==> !has_key(#[trigger] users[j], key),
    ensures
        first_with_key(users, key) is None,
    decreases users.len(),
{
    if users.len() > 0 {
        let rest = users.drop_first();
        assert forall|j: int| 0 <= j < rest.len() implies !has_key(#[trigger] rest[j], key) by {
            assert(rest[j] == users[j + 1]);
        }
        lemma_first_with_key_none(rest, key);
    }
}

/// The rows the user listing returns: those whose id can be read as a 32-bit
/// id, in table order.
pub open spec fn listed_users(rows: Seq<UserRow>) -> Seq<UserRow>
    decreases rows.len(),
{
    if rows.len() == 0 {
        Seq::empty()
    } else if fits_i32(rows.last().id as int) {
        listed_users(rows.drop_last()).push(rows.last())
    } else {
        listed_users(rows.drop_last())
    }
}

/// The view of a query's user result.
pub open spec fn user_result(r: Result<User, DbError>) -> Result<UserView, DbError> {
    match r {
        Ok(u) => Ok(u@),
        Err(e) => Err(e),
    }
}

/// What registering `name` with a public key answers.
pub open spec fn register_result(db: Database, name: Seq<char>) -> Result<UserView, DbError> {
    if name_taken(db.users@, name) {
        Err(DbError::UserExists)
    } else if db.user_seq == i64::MAX {
        Err(DbError::Full)
    } else if fits_i32(db.user_seq + 1) {
        Ok(UserView { name, id: (db.user_seq + 1) as i32 })
    } else {
        Err(DbError::IdOutOfRange((db.user_seq + 1) as i64))
    }
}

/// What registering `name` with `key` does to the tables: nothing when the
/// name is taken or the ids are exhausted, else one new user row holding the
/// key, with the next id.
pub open spec fn register_effect(before: Database, after: Database, name: Seq<char>, key: Seq<char>) -> bool {
    if name_taken(before.users@, name) || before.user_seq == i64::MAX {
        after.unchanged(before)
    } else {
        let row = after.users@.last();
        &&& after.same_flags(before)
        &&& after.same_cleared(before)
        &&& after.user_seq == before.user_seq + 1
        &&& after.users@ == before.users@.push(row)
        &&& row.id == after.user_seq
        &&& row.name@ == name
        &&& row.password_hash is None
        &&& has_key(row, key)
    }
}

impl User {
    /// Registers user `name` identified by the public key `key` (in OpenSSH
    /// text form). Fails with `UserExists` when the name is taken.
    pub fn register_user(db: &mut Database, name: &String, key: &String) -> (r: Result<User, DbError>)
        requires
            old(db).wf(),
        ensures
            final(db).wf(),
            register_effect(*old(db), *final(db), name@, key@),
            user_result(r) == register_result(*old(db), name@),
    {
        if let Some(_) = find_user_named(&db.users, name.as_str()) {
            proof { lemma_first_named(db.users@, name@); }
            return Err(DbError::UserExists);
        }
        proof { lemma_first_named(db.users@, name@); }
        if db.user_seq == i64::MAX {
            return Err(DbError::Full);
        }
        let ghost before = *db;
        let id = db.user_seq + 1;
        let row = UserRow { id, name: name.clone(), password_hash: None, key: Some(key.clone()) };
        db.users.push(row);
        db.user_seq = id;
        proof { lemma_push_user_wf(before, *db, row); }
        if id > 2147483647 {
            Err(DbError::IdOutOfRange(id))
        } else {
            Ok(User::new(name.clone(), id as i32))
        }
    }

    /// Signs in with a public key: the first user registered with it.
    pub fn login_with_key(db: &Database, key: &String) -> (r: Option<User>)
        ensures
            match r {
                Some(u) => key_login_outcome(db.users@, key@) == Some(u@),
                None => key_login_outcome(db.users@, key@) is None,
            },
    {
        let mut i: usize = 0;
        while i < db.users.len()
            invariant
                i <= db.users@.len(),
                forall|j: int| 0 <= j < i ==> !has_key(#[trigger] db.users@[j], key@),
            decreases db.users.len() - i,
        {
            let row = &db.users[i];
            let hit = match &row.key {
                Some(k) => *k == *key,
                None => false,
            };
            if hit {
                proof { lemma_first_with_key_at(db.users@, key@, i as int); }
                if row.id < -2147483648 || row.id > 2147483647 {
                    return None;
                }
                return Some(User::new(row.name.clone(), row.id as i32));
            }
            i = i + 1;
        }
        proof { lemma_first_with_key_none(db.users@, key@); }
        None
    }

    /// Every user, in table order.
    pub fn get_all(db: &Database) -> (r: Vec<User>)
        ensures
            r@.len() == listed_users(db.users@).len(),
            forall|i: int| 0 <= i < r@.len() ==> (#[trigger] r@[i])@ == user_of_row(listed_users(db.users@)[i]),
    {
        let mut out: Vec<User> = Vec::new();
        let mut i: usize = 0;
        while i < db.users.len()
            invariant
                i <= db.users@.len(),
                out@.len() == listed_users(db.users@.take(i as int)).len(),
                forall|k: int| 0 <= k < out@.len() ==> (#[trigger] out@[k])@ == user_of_row(listed_users(db.users@.take(i as int))[k]),
            decreases db.users.len() - i,
        {
            let ghost t = db.users@.take(i + 1);
            assert(t.drop_last() =~= db.users@.take(i as int));
            assert(t.last() == db.users@[i as int]);
            let row = &db.users[i];
            if row.id >= -2147483648 && row.id <= 2147483647 {
                out.push(User::new(row.name.clone(), row.id as i32));
            }
            i = i + 1;
            proof {
                let l = listed_users(db.users@.take(i as int));
                let lp = listed_users(db.users@.take(i - 1));
                assert forall|k: int| 0 <= k < out@.len() implies (#[trigger] out@[k])@ == user_of_row(l[k]) by {
                    if k < lp.len() {
                        assert(l[k] == lp[k]);
                    }
                }
            }
        }
        assert(db.users@.take(db.users@.len() as int) =~= db.users@);
        out
    }
}

} // verus!
