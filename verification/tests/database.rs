use sshack::database::{
    clear_flags, create_flag, create_test_flags, delete_flag, Database, DbError, Flag, User,
};
use sshack::users::{create_user, validate_login};

fn key_user(db: &mut Database, name: &str, key: &str) -> User {
    User::register_user(db, &name.to_string(), &key.to_string()).unwrap()
}

#[test]
fn new_database_is_empty() {
    let db = Database::new();
    assert!(db.users.is_empty());
    assert!(Flag::get_all(&db).is_empty());
    assert_eq!(db.user_seq, 0);
}

#[test]
fn create_flag_assigns_increasing_ids() {
    let mut db = Database::new();
    create_flag(&mut db, "a", "first", 10, "ctf{a}");
    create_flag(&mut db, "b", "second", 20, "ctf{b}");
    let flags = Flag::get_all(&db);
    assert_eq!(flags.len(), 2);
    assert_eq!(flags[0].id(), 1);
    assert_eq!(flags[1].id(), 2);
    assert_eq!(flags[1].name(), "b");
    assert_eq!(flags[1].description(), "second");
    assert_eq!(flags[1].points(), 20);
    assert_eq!(flags[1].flag(), "ctf{b}");
    assert!(!flags[0].solved());
}

#[test]
fn row_parts_render_points_in_decimal() {
    let mut db = Database::new();
    create_flag(&mut db, "neg", "d", -42, "x");
    create_flag(&mut db, "big", "d", i32::MAX, "x");
    let flags = Flag::get_all(&db);
    let parts = flags[0].row_parts();
    assert_eq!(parts[0], "neg");
    assert_eq!(parts[1], "d");
    assert_eq!(parts[2], "-42");
    assert_eq!(flags[1].row_parts()[2], "2147483647");
}

#[test]
fn test_flags_are_the_five_samples() {
    let mut db = Database::new();
    create_test_flags(&mut db);
    let flags = Flag::get_all(&db);
    let names: Vec<&str> = flags.iter().map(|f| f.name()).collect();
    assert_eq!(names, vec!["flag0", "flag1", "flag2", "mdflag", "longflag"]);
    let points: Vec<i32> = flags.iter().map(|f| f.points()).collect();
    assert_eq!(points, vec![100, 500, 300, 300, 300]);
    assert_eq!(flags[1].flag(), "ctf{flag_1337}");
    assert_eq!(flags[3].description(), "# markdown flag\n[with links](https://github.com)");
    assert!(flags[4].description().ends_with("(very long)"));
}

#[test]
fn clear_flags_empties_and_restarts_ids() {
    let mut db = Database::new();
    create_test_flags(&mut db);
    clear_flags(&mut db);
    assert!(Flag::get_all(&db).is_empty());
    create_flag(&mut db, "again", "d", 1, "f");
    assert_eq!(Flag::get_all(&db)[0].id(), 1);
}

#[test]
fn delete_flag_removes_only_that_flag() {
    let mut db = Database::new();
    create_test_flags(&mut db);
    delete_flag(&mut db, 2);
    let ids: Vec<i32> = Flag::get_all(&db).iter().map(|f| f.id()).collect();
    assert_eq!(ids, vec![1, 3, 4, 5]);
    delete_flag(&mut db, 42);
    assert_eq!(Flag::get_all(&db).len(), 4);
    create_flag(&mut db, "n", "d", 1, "f");
    assert_eq!(Flag::get_all(&db)[4].id(), 6);
}

#[test]
fn register_user_then_login_with_key() {
    let mut db = Database::new();
    let u = key_user(&mut db, "alice", "ssh-ed25519 AAAA alice");
    assert_eq!(u.name(), "alice");
    assert_eq!(u.id(), 1);
    let again = User::login_with_key(&db, &"ssh-ed25519 AAAA alice".to_string()).unwrap();
    assert_eq!(again.name(), "alice");
    assert_eq!(again.id, 1);
    assert!(User::login_with_key(&db, &"ssh-ed25519 BBBB bob".to_string()).is_none());
}

#[test]
fn register_user_refuses_taken_name() {
    let mut db = Database::new();
    key_user(&mut db, "alice", "k1");
    let r = User::register_user(&mut db, &"alice".to_string(), &"k2".to_string());
    assert!(matches!(r, Err(DbError::UserExists)));
    assert_eq!(db.users.len(), 1);
}

#[test]
fn register_user_when_ids_exhausted() {
    let mut db = Database::new();
    db.user_seq = i64::MAX;
    let r = User::register_user(&mut db, &"a".to_string(), &"k".to_string());
    assert!(matches!(r, Err(DbError::Full)));
    assert!(db.users.is_empty());
}

#[test]
fn register_user_with_id_beyond_32_bits() {
    let mut db = Database::new();
    db.user_seq = i32::MAX as i64;
    let r = User::register_user(&mut db, &"a".to_string(), &"k".to_string());
    assert!(matches!(r, Err(DbError::IdOutOfRange(2147483648))));
    assert_eq!(db.users.len(), 1);
    assert!(User::login_with_key(&db, &"k".to_string()).is_none());
}

#[test]
fn solving_adds_points_once() {
    let mut db = Database::new();
    let u = key_user(&mut db, "alice", "k");
    create_test_flags(&mut db);
    assert_eq!(u.points(&db), Ok(0));
    let flags = Flag::get_all(&db);
    assert_eq!(flags[1].clear_for_user(&mut db, u.id), Ok(()));
    assert_eq!(u.points(&db), Ok(500));
    assert_eq!(flags[1].clear_for_user(&mut db, u.id), Err(DbError::FlagAlreadySolved));
    assert_eq!(u.points(&db), Ok(500));
    assert_eq!(flags[0].clear_for_user(&mut db, u.id), Ok(()));
    assert_eq!(u.points(&db), Ok(600));
    assert_eq!(db.cleared.len(), 2);
}

#[test]
fn other_users_solves_do_not_count() {
    let mut db = Database::new();
    let a = key_user(&mut db, "alice", "ka");
    let b = key_user(&mut db, "bob", "kb");
    create_test_flags(&mut db);
    let flags = Flag::get_all(&db);
    flags[2].clear_for_user(&mut db, b.id).unwrap();
    assert_eq!(a.points(&db), Ok(0));
    assert_eq!(b.points(&db), Ok(300));
}

#[test]
fn solved_marks_follow_the_user() {
    let mut db = Database::new();
    let a = key_user(&mut db, "alice", "ka");
    let b = key_user(&mut db, "bob", "kb");
    create_test_flags(&mut db);
    Flag::get_all(&db)[3].clear_for_user(&mut db, a.id).unwrap();
    let for_a: Vec<bool> = Flag::get_all_with_user(&db, &a).iter().map(|f| f.solved()).collect();
    let for_b: Vec<bool> = Flag::get_all_with_user(&db, &b).iter().map(|f| f.solved()).collect();
    assert_eq!(for_a, vec![false, false, false, true, false]);
    assert_eq!(for_b, vec![false; 5]);
}

#[test]
fn points_after_clear_flags_are_zero() {
    let mut db = Database::new();
    let a = key_user(&mut db, "alice", "ka");
    create_test_flags(&mut db);
    Flag::get_all(&db)[0].clear_for_user(&mut db, a.id).unwrap();
    clear_flags(&mut db);
    assert_eq!(a.points(&db), Ok(0));
}

#[test]
fn points_overflowing_32_bits() {
    let mut db = Database::new();
    let a = key_user(&mut db, "alice", "ka");
    create_flag(&mut db, "x", "d", i32::MAX, "f");
    create_flag(&mut db, "y", "d", 1, "f");
    for f in Flag::get_all(&db) {
        f.clear_for_user(&mut db, a.id).unwrap();
    }
    assert_eq!(a.points(&db), Err(DbError::PointsOutOfRange(2147483648)));
    assert_eq!(DbError::PointsOutOfRange(2147483648).message(), "Integer 2147483648 out of range at index 0");
    assert_eq!(DbError::NullColumn(2).message(), "Invalid column type Null at index: 2, name: password_hash");
}

#[test]
fn clear_for_user_when_ids_exhausted() {
    let mut db = Database::new();
    create_flag(&mut db, "x", "d", 1, "f");
    db.cleared_seq = i64::MAX;
    let f = &Flag::get_all(&db)[0];
    assert_eq!(f.clear_for_user(&mut db, 1), Err(DbError::Full));
    assert!(db.cleared.is_empty());
}

#[test]
fn get_all_users_lists_in_order() {
    let mut db = Database::new();
    key_user(&mut db, "a", "1");
    key_user(&mut db, "b", "2");
    let users = User::get_all(&db);
    assert_eq!(users.len(), 2);
    assert_eq!(users[0].name(), "a");
    assert_eq!(users[1].id, 2);
}

#[test]
fn create_user_stores_row_and_returns_the_user() {
    let mut db = Database::new();
    let r = User::create_user(&mut db, &"carol".to_string(), &"hunter2".to_string()).unwrap();
    assert_eq!(r.name(), "carol");
    assert_eq!(r.id, 1);
    assert_eq!(db.users.len(), 1);
    let hash = db.users[0].password_hash.clone().unwrap();
    assert_eq!(hash.len(), 60);
    assert!(hash.starts_with("$2b$13$"));
    let u = User::login(&db, "carol", "hunter2").unwrap();
    assert_eq!(u.name(), "carol");
    assert_eq!(u.id, 1);
    assert!(matches!(User::login(&db, "carol", "wrong"), Err(DbError::InvalidLogin)));
    assert!(matches!(User::login(&db, "nobody", "hunter2"), Err(DbError::InvalidLogin)));
    let again = User::create_user(&mut db, &"carol".to_string(), &"x".to_string());
    assert!(matches!(again, Err(DbError::UserExists)));
}

#[test]
fn password_users_validate() {
    let mut db = Database::new();
    assert_eq!(create_user(&mut db, &"dave".to_string(), &"pw".to_string()), Ok(()));
    assert_eq!(validate_login(&db, "dave", "pw"), Ok(true));
    assert_eq!(validate_login(&db, "dave", "pw2"), Ok(false));
    assert_eq!(validate_login(&db, "erin", "pw"), Err(DbError::InvalidLogin));
    assert_eq!(create_user(&mut db, &"dave".to_string(), &"pw".to_string()), Err(DbError::UserExists));
}

#[test]
fn login_of_key_user_has_no_hash() {
    let mut db = Database::new();
    key_user(&mut db, "kim", "k");
    assert!(matches!(User::login(&db, "kim", "pw"), Err(DbError::NullColumn(2))));
    assert_eq!(validate_login(&db, "kim", "pw"), Err(DbError::NullColumn(2)));
}

#[test]
fn stored_hash_that_bcrypt_cannot_read() {
    let mut db = Database::new();
    key_user(&mut db, "kim", "k");
    db.users[0].password_hash = Some("not a bcrypt hash".to_string());
    let err = User::login(&db, "kim", "pw").err().unwrap();
    assert_eq!(err, DbError::Hash("Invalid hash: the hash format is malformed; expected 60 ASCII bytes".to_string()));
    assert_eq!(err.message(), "Invalid hash: the hash format is malformed; expected 60 ASCII bytes");
    assert_eq!(validate_login(&db, "kim", "pw"), Err(DbError::InvalidLogin));
}

#[test]
fn create_user_with_id_beyond_32_bits() {
    let mut db = Database::new();
    db.user_seq = i32::MAX as i64;
    let r = User::create_user(&mut db, &"zed".to_string(), &"pw".to_string());
    assert_eq!(r.err(), Some(DbError::IdOutOfRange(2147483648)));
    assert_eq!(db.users.len(), 1);
}
