//! Properties of the database that span several queries.
use vstd::prelude::*;
use crate::database::{
    added_password_user, cleared_sum, first_named, first_with_key, fits_i32, flag_points_of, has_key,
    key_login_outcome, listed_flags, login_outcome, name_taken, solved_by, user_of_row, ClearedRow,
    Database, DbError, ErrorView, FlagRow, UserRow, UserView, clear_effect, clear_result, points_outcome,
    points_total, user_id_exists, register_effect, register_result,
};
use crate::cli::cut_description;
use crate::password::bcrypt_verdict;
use vstd::utf8::{decode_utf8_encode_utf8, encode_utf8, encode_utf8_decode_utf8, encode_utf8_valid_utf8, is_char_boundary, valid_utf8_split};

verus! {

proof fn lemma_first_named_after_append(before: Seq<UserRow>, row: UserRow)
    requires
        !name_taken(before, row.name@),
    ensures
        first_named(before.push(row), row.name@) == Some(before.len() as int),
    decreases before.len(),
{
    let after = before.push(row);
    if before.len() > 0 {
        assert(after[0] == before[0]);
        assert(before[0].name@ != row.name@);
        let rest = before.drop_first();
        assert(after.drop_first() =~= rest.push(row));
        assert forall|i: int| 0 <= i < rest.len() implies #[trigger] rest[i].name@ != row.name@ by {
            assert(rest[i] == before[i + 1]);
        }
        lemma_first_named_after_append(rest, row);
    }
}

/// A user registered with a password can sign in with that password: when a
/// registration stored the row (the name was free) and its id is a 32-bit id,
/// signing in with the same name and password yields that user.
pub proof fn law_register_then_login(before: Database, after: Database, name: Seq<char>, password: Seq<char>)
    requires
        !name_taken(before.users@, name),
        added_password_user(before, after, name, password),
        fits_i32(after.user_seq as int),
    ensures
        login_outcome(after.users@, name, password) == Ok::<UserView, ErrorView>(
            UserView { name, id: after.user_seq as i32 },
        ),
{
    let n = before.users@.len() as int;
    let row = after.users@[n];
    assert(after.users@ =~= before.users@.push(row)) by {
        assert(after.users@.take(n) == before.users@);
    }
    lemma_first_named_after_append(before.users@, row);
}

/// A name is registered at most once: once a registration stored the row,
/// the name is taken, so registering it again is refused with `UserExists`.
pub proof fn law_name_registered_once(before: Database, after: Database, name: Seq<char>, password: Seq<char>)
    requires
        added_password_user(before, after, name, password),
    ensures
        name_taken(after.users@, name),
{
    let n = before.users@.len() as int;
    assert(after.users@[n].name@ == name);
}

/// No two users share a name.
pub open spec fn names_unique(users: Seq<UserRow>) -> bool {
    forall|i: int, j: int| 0 <= i < j < users.len() ==> #[trigger] users[i].name@ != #[trigger] users[j].name@
}

/// Registration keeps user names unique.
pub proof fn law_registration_keeps_names_unique(before: Database, after: Database, name: Seq<char>, password: Seq<char>)
    requires
        names_unique(before.users@),
        !name_taken(before.users@, name),
        added_password_user(before, after, name, password),
    ensures
        names_unique(after.users@),
{
    let n = before.users@.len() as int;
    assert forall|i: int, j: int| 0 <= i < j < after.users@.len() implies #[trigger] after.users@[i].name@ != #[trigger] after.users@[j].name@ by {
        assert(after.users@.take(n) == before.users@);
        assert(after.users@[i] == before.users@[i]);
        if j < n {
            assert(after.users@[j] == before.users@[j]);
        }
    }
}

/// A user who registered with a public key signs in with it, provided no
/// earlier user holds the key and the new id is a 32-bit id.
pub proof fn law_key_register_then_login(users: Seq<UserRow>, row: UserRow, key: Seq<char>)
    requires
        forall|i: int| 0 <= i < users.len() ==> !has_key(#[trigger] users[i], key),
        has_key(row, key),
        fits_i32(row.id as int),
    ensures
        key_login_outcome(users.push(row), key) == Some(user_of_row(row)),
    decreases users.len(),
{
    lemma_first_with_key_after_append(users, row, key);
}

proof fn lemma_first_with_key_after_append(users: Seq<UserRow>, row: UserRow, key: Seq<char>)
    requires
        forall|i: int| 0 <= i < users.len() ==> !has_key(#[trigger] users[i], key),
        has_key(row, key),
    ensures
        first_with_key(users.push(row), key) == Some(users.len() as int),
    decreases users.len(),
{
    let after = users.push(row);
    if users.len() > 0 {
        assert(after[0] == users[0]);
        let rest = users.drop_first();
        assert(after.drop_first() =~= rest.push(row));
        assert forall|i: int| 0 <= i < rest.len() implies !has_key(#[trigger] rest[i], key) by {
            assert(rest[i] == users[i + 1]);
        }
        lemma_first_with_key_after_append(rest, row, key);
    }
}

/// A flag is solved at most once per user: after a solve of flag `fid` by
/// user `uid` is recorded, recording it again is refused with
/// `FlagAlreadySolved`.
pub proof fn law_solve_recorded_once(cleared: Seq<ClearedRow>, row: ClearedRow)
    ensures
        solved_by(cleared.push(row), row.uid as int, row.fid as int),
{
    assert(cleared.push(row)[cleared.len() as int] == row);
}

/// Recording a solve of flag `fid` by user `uid` adds the flag's points to
/// that user's points and leaves every other user's points unchanged.
pub proof fn law_solve_adds_points(before: Database, row: ClearedRow, uid: int)
    ensures
        ({
            let after_cleared = before.cleared@.push(row);
            let old_sum = cleared_sum(before.cleared@, before.flags@, uid);
            let new_sum = cleared_sum(after_cleared, before.flags@, uid);
            &&& row.uid == uid ==> new_sum == old_sum + flag_points_of(before.flags@, row.fid as int)
            &&& row.uid != uid ==> new_sum == old_sum
        }),
{
    let after_cleared = before.cleared@.push(row);
    assert(after_cleared.drop_last() =~= before.cleared@);
}

/// A solve counts the points of the flag with exactly its id: with ids in
/// increasing order, the flag at position `j` gives its own points.
pub proof fn law_points_of_present_flag(rows: Seq<FlagRow>, j: int)
    requires
        0 <= j < rows.len(),
        forall|a: int, b: int| 0 <= a < b < rows.len() ==> #[trigger] rows[a].id < #[trigger] rows[b].id,
    ensures
        flag_points_of(rows, rows[j].id as int) == rows[j].points,
    decreases rows.len(),
{
    if j < rows.len() - 1 {
        let rest = rows.drop_last();
        assert(rows[j].id < rows[rows.len() - 1].id);
        assert(rest[j] == rows[j]);
        assert forall|a: int, b: int| 0 <= a < b < rest.len() implies #[trigger] rest[a].id < #[trigger] rest[b].id by {
            assert(rest[a] == rows[a] && rest[b] == rows[b]);
        }
        law_points_of_present_flag(rest, j);
    }
}

proof fn lemma_listed_member(rows: Seq<FlagRow>, k: int)
    requires
        0 <= k < listed_flags(rows).len(),
    ensures
        fits_i32(listed_flags(rows)[k].id as int),
        exists|j: int| 0 <= j < rows.len() && rows[j] == listed_flags(rows)[k],
    decreases rows.len(),
{
    let rest = rows.drop_last();
    let l = listed_flags(rest);
    if k < l.len() {
        lemma_listed_member(rest, k);
        let j = choose|j: int| 0 <= j < rest.len() && rest[j] == l[k];
        assert(rows[j] == rest[j]);
    } else {
        assert(rows[rows.len() - 1] == rows.last());
    }
}

/// Solving a flag of the listing adds the points the listing shows for it to
/// the solver's points: once the solve is recorded, the user's total has
/// grown by exactly that flag's points, and the points query answers the new
/// total whenever it fits in 32 bits.
pub proof fn law_solving_listed_flag_adds_its_points(before: Database, after: Database, uid: i32, k: int)
    requires
        before.wf(),
        user_id_exists(before.users@, uid as int),
        0 <= k < listed_flags(before.flags@).len(),
        clear_result(before, uid, listed_flags(before.flags@)[k].id as i32) is Ok,
        clear_effect(before, after, uid, listed_flags(before.flags@)[k].id as i32),
    ensures
        points_total(after, uid as int) == points_total(before, uid as int) + listed_flags(before.flags@)[k].points,
        fits_i32(points_total(before, uid as int) + listed_flags(before.flags@)[k].points) ==>
            points_outcome(after, uid as int)
                == Ok::<i32, DbError>((points_total(before, uid as int) + listed_flags(before.flags@)[k].points) as i32),
{
    let f = listed_flags(before.flags@)[k];
    lemma_listed_member(before.flags@, k);
    let j = choose|j: int| 0 <= j < before.flags@.len() && before.flags@[j] == f;
    law_points_of_present_flag(before.flags@, j);
    let row = ClearedRow { id: after.cleared_seq, uid, fid: f.id as i32 };
    law_solve_adds_points(before, row, uid as int);
    assert(after.cleared@ == before.cleared@.push(row));
}

/// A user without solves has no points.
pub proof fn law_no_solves_no_points(cleared: Seq<ClearedRow>, flags: Seq<FlagRow>, uid: int)
    requires
        forall|i: int| 0 <= i < cleared.len() ==> (#[trigger] cleared[i]).uid != uid,
    ensures
        cleared_sum(cleared, flags, uid) == 0,
    decreases cleared.len(),
{
    if cleared.len() > 0 {
        let rest = cleared.drop_last();
        assert forall|i: int| 0 <= i < rest.len() implies (#[trigger] rest[i]).uid != uid by {
            assert(rest[i] == cleared[i]);
        }
        assert(cleared.last() == cleared[cleared.len() - 1]);
        law_no_solves_no_points(rest, flags, uid);
    }
}

/// With the flags table empty (as `clear_flags` leaves it) every user has 0
/// points: solves of flags that no longer exist count nothing.
pub proof fn law_no_flags_no_points(cleared: Seq<ClearedRow>, flags: Seq<FlagRow>, uid: int)
    requires
        flags.len() == 0,
    ensures
        cleared_sum(cleared, flags, uid) == 0,
    decreases cleared.len(),
{
    if cleared.len() > 0 {
        law_no_flags_no_points(cleared.drop_last(), flags, uid);
    }
}

/// After `clear_flags` the flag listing is empty.
pub proof fn law_cleared_flags_list_empty(flags: Seq<FlagRow>)
    requires
        flags.len() == 0,
    ensures
        listed_flags(flags).len() == 0,
{
}

/// A wrong password is refused: when bcrypt rejects the password for the
/// first user of that name, signing in fails with `InvalidLogin`.
pub proof fn law_wrong_password_refused(users: Seq<UserRow>, name: Seq<char>, password: Seq<char>, i: int)
    requires
        first_named(users, name) == Some(i),
        users[i].password_hash matches Some(h) && bcrypt_verdict(password, h@) == Ok::<bool, Seq<char>>(false),
    ensures
        login_outcome(users, name, password) == Err::<UserView, ErrorView>(ErrorView::Db(DbError::InvalidLogin)),
{
}

/// A solve of a flag that no row has (a deleted flag) counts no points.
pub proof fn law_points_of_missing_flag(rows: Seq<FlagRow>, fid: int)
    requires
        forall|i: int| 0 <= i < rows.len() ==> (#[trigger] rows[i]).id != fid,
    ensures
        flag_points_of(rows, fid) == 0,
    decreases rows.len(),
{
    if rows.len() > 0 {
        let rest = rows.drop_last();
        assert(rows.last() == rows[rows.len() - 1]);
        assert forall|i: int| 0 <= i < rest.len() implies (#[trigger] rest[i]).id != fid by {
            assert(rest[i] == rows[i]);
        }
        law_points_of_missing_flag(rest, fid);
    }
}

/// Deleting a flag removes its points, and only its points, from what a solve
/// counts: with ids in increasing order, after removing the flag at position
/// `k` a solve of it counts 0 and a solve of any other flag counts that
/// flag's points.
pub proof fn law_deleted_flag_counts_nothing(rows: Seq<FlagRow>, k: int, j: int)
    requires
        0 <= k < rows.len(),
        0 <= j < rows.len(),
        forall|a: int, b: int| 0 <= a < b < rows.len() ==> #[trigger] rows[a].id < #[trigger] rows[b].id,
    ensures
        flag_points_of(rows.remove(k), rows[k].id as int) == 0,
        j != k ==> flag_points_of(rows.remove(k), rows[j].id as int) == rows[j].points,
{
    let after = rows.remove(k);
    assert forall|i: int| 0 <= i < after.len() implies (#[trigger] after[i]).id != rows[k].id by {
        if i < k {
            assert(after[i] == rows[i]);
        } else {
            assert(after[i] == rows[i + 1]);
        }
    }
    law_points_of_missing_flag(after, rows[k].id as int);
    if j != k {
        assert forall|a: int, b: int| 0 <= a < b < after.len() implies #[trigger] after[a].id < #[trigger] after[b].id by {
            let a0 = if a < k { a } else { a + 1 };
            let b0 = if b < k { b } else { b + 1 };
            assert(after[a] == rows[a0] && after[b] == rows[b0]);
        }
        let j1 = if j < k { j } else { j - 1 };
        assert(after[j1] == rows[j]);
        law_points_of_present_flag(after, j1);
    }
}

/// Recording a solve is refused as already solved exactly when the same user
/// already has a solve of that flag; other users' solves of it do not count.
/// Otherwise, while ids remain, the solve is recorded as a new row with the
/// next id, after all earlier rows.
pub proof fn law_solve_refused_only_for_same_user(before: Database, after: Database, uid: i32, fid: i32)
    requires
        clear_effect(before, after, uid, fid),
    ensures
        (exists|i: int| 0 <= i < before.cleared@.len() && (#[trigger] before.cleared@[i]).uid == uid
            && before.cleared@[i].fid == fid) ==> clear_result(before, uid, fid)
            == Err::<(), DbError>(DbError::FlagAlreadySolved) && after.unchanged(before),
        (forall|i: int| 0 <= i < before.cleared@.len() ==> !((#[trigger] before.cleared@[i]).uid == uid
            && before.cleared@[i].fid == fid)) && before.cleared_seq < i64::MAX ==> {
            &&& clear_result(before, uid, fid) == Ok::<(), DbError>(())
            &&& after.cleared_seq == before.cleared_seq + 1
            &&& after.cleared@.len() == before.cleared@.len() + 1
            &&& after.cleared@.take(before.cleared@.len() as int) == before.cleared@
            &&& after.cleared@.last() == (ClearedRow { id: (before.cleared_seq + 1) as i64, uid, fid })
        },
{
    let n = before.cleared@.len() as int;
    if clear_result(before, uid, fid) is Ok {
        assert(after.cleared@.take(n) =~= before.cleared@);
    }
}

/// A name that some user already has cannot be registered again: the answer
/// is `UserExists` and the tables stay as they were.
pub proof fn law_taken_name_refused(before: Database, after: Database, name: Seq<char>, key: Seq<char>, i: int)
    requires
        0 <= i < before.users@.len(),
        before.users@[i].name@ == name,
        register_effect(before, after, name, key),
    ensures
        register_result(before, name) == Err::<UserView, DbError>(DbError::UserExists),
        after.unchanged(before),
{
    assert(name_taken(before.users@, name));
}

/// Registering with a key keeps user names pairwise distinct.
pub proof fn law_key_registration_keeps_names_unique(before: Database, after: Database, name: Seq<char>, key: Seq<char>)
    requires
        forall|a: int, b: int| 0 <= a < b < before.users@.len() ==> #[trigger] before.users@[a].name@ != #[trigger] before.users@[b].name@,
        register_effect(before, after, name, key),
    ensures
        forall|a: int, b: int| 0 <= a < b < after.users@.len() ==> #[trigger] after.users@[a].name@ != #[trigger] after.users@[b].name@,
{
    if !(name_taken(before.users@, name) || before.user_seq == i64::MAX) {
        let n = before.users@.len() as int;
        assert forall|a: int, b: int| 0 <= a < b < after.users@.len() implies #[trigger] after.users@[a].name@ != #[trigger] after.users@[b].name@ by {
            assert(after.users@[a] == before.users@[a]);
            if b < n {
                assert(after.users@[b] == before.users@[b]);
            } else {
                assert(after.users@[b] == after.users@.last());
                if after.users@[a].name@ == name {
                    assert(name_taken(before.users@, name));
                }
            }
        }
    }
}

proof fn lemma_first_with_key_holds(users: Seq<UserRow>, key: Seq<char>)
    ensures
        first_with_key(users, key) matches Some(i) ==> 0 <= i < users.len() && has_key(users[i], key)
            && forall|j: int| 0 <= j < i ==> !has_key(#[trigger] users[j], key),
    decreases users.len(),
{
    if users.len() > 0 && !has_key(users[0], key) {
        let rest = users.drop_first();
        lemma_first_with_key_holds(rest, key);
        if let Some(i) = first_with_key(rest, key) {
            assert(users[i + 1] == rest[i]);
            assert forall|j: int| 0 <= j < i + 1 implies !has_key(#[trigger] users[j], key) by {
                if j > 0 {
                    assert(users[j] == rest[j - 1]);
                }
            }
        }
    }
}

/// Signing in with a key finds the user holding it: the answer is the name
/// and id of the first row whose key is the given one, and no answer when no
/// row holds it.
pub proof fn law_key_login_finds_holder(users: Seq<UserRow>, key: Seq<char>)
    ensures
        key_login_outcome(users, key) matches Some(u) ==> exists|i: int| 0 <= i < users.len()
            && #[trigger] has_key(users[i], key)
            && u.name == users[i].name@ && u.id as int == users[i].id
            && forall|j: int| 0 <= j < i ==> !has_key(#[trigger] users[j], key),
        (forall|i: int| 0 <= i < users.len() ==> !has_key(#[trigger] users[i], key)) ==> key_login_outcome(users, key) is None,
{
    lemma_first_with_key_holds(users, key);
    if let Some(i) = first_with_key(users, key) {
        assert(has_key(users[i], key));
    }
}

/// The flag listing shows the first ten bytes of a description, or the whole
/// description when it is shorter: the shown text is the description's
/// prefix whose UTF-8 encoding is its first min(10, length) bytes.
pub proof fn law_listing_shows_description_start(desc: Seq<char>)
    requires
        encode_utf8(desc).len() <= usize::MAX,
        is_char_boundary(encode_utf8(desc), if encode_utf8(desc).len() < 10 { encode_utf8(desc).len() as int } else { 10 }),
    ensures
        encode_utf8(cut_description(desc)) == encode_utf8(desc).subrange(0,
            if encode_utf8(desc).len() < 10 { encode_utf8(desc).len() as int } else { 10 }),
        encode_utf8(desc).len() < 10 ==> cut_description(desc) == desc,
{
    let bytes = encode_utf8(desc);
    let k: int = if bytes.len() < 10 { bytes.len() as int } else { 10 };
    encode_utf8_valid_utf8(desc);
    valid_utf8_split(bytes, k);
    decode_utf8_encode_utf8(bytes.subrange(0, k));
    if bytes.len() < 10 {
        assert(bytes.subrange(0, k) =~= bytes);
        encode_utf8_decode_utf8(desc);
    }
}

} // verus!
