use sshack::app::{App, Screen};
use sshack::conf::Conf;
use sshack::database::{create_flag, create_test_flags, Database, Flag, User};
use sshack::input::{is_zero_mouse_report, parse_event, InputAction, InputBuffer, ParseFailure, TermEvent};
use sshack::keys::{is_quit, KeyCode, KeyModifiers};
use sshack::text::password_mask;
use sshack::theme::standard_theme;
use sshack::screens::browse::{preview_title, BrowseScreen, BrowseState};
use sshack::screens::leaderboard::{ranking, row_background, LeaderboardScreen};
use sshack::screens::login::{LoginAction, LoginScreen};
use sshack::screens::register::RegisterScreen;
use sshack::screens::screen::{points_label, title_label, top_bar, username_label, Transition};

fn conf(password: Option<&str>, about: Option<&str>) -> Conf {
    Conf::get(None, None).with(password, about)
}

trait With {
    fn with(self, password: Option<&str>, about: Option<&str>) -> Self;
}

impl With for Conf {
    fn with(mut self, password: Option<&str>, about: Option<&str>) -> Self {
        self.password = password.map(|p| p.to_string());
        self.about = about.map(|a| a.to_string());
        self
    }
}

fn key(code: KeyCode) -> Option<(KeyCode, KeyModifiers)> {
    Some((code, KeyModifiers::Plain))
}

#[test]
fn login_form_focus_stays_on_fields() {
    let mut s = LoginScreen::new();
    s.focus_prev();
    assert_eq!(s.selected(), 0);
    s.focus_next();
    s.focus_next();
    s.focus_next();
    assert_eq!(s.selected(), 1);
    s.focus_prev();
    assert_eq!(s.selected(), 0);
}

#[test]
fn login_form_typing_and_erasing() {
    let mut s = LoginScreen::new();
    s.write_char('a');
    s.write_char('b');
    s.delete();
    s.write_char('c');
    s.focus_next();
    s.write_char('p');
    s.write_char('w');
    assert_eq!(s.username(), "ac");
    assert_eq!(s.password(), "pw");
    s.delete();
    s.delete();
    s.delete();
    assert_eq!(s.password(), "");
}

#[test]
fn login_form_keys() {
    let mut s = LoginScreen::new();
    assert!(matches!(s.handle_input((KeyCode::Char('x'), KeyModifiers::Plain)), LoginAction::Stay));
    assert!(matches!(s.handle_input((KeyCode::Enter, KeyModifiers::Plain)), LoginAction::Stay));
    assert_eq!(s.selected(), 1);
    assert!(matches!(s.handle_input((KeyCode::BackTab, KeyModifiers::Plain)), LoginAction::Stay));
    assert_eq!(s.selected(), 1);
    match s.handle_input((KeyCode::Enter, KeyModifiers::Plain)) {
        LoginAction::SignIn(name) => assert_eq!(name, "x"),
        _ => panic!("expected sign in"),
    }
    assert!(matches!(s.handle_input((KeyCode::Esc, KeyModifiers::Plain)), LoginAction::Back));
    s.handle_input((KeyCode::BackTab, KeyModifiers::Shift));
    assert_eq!(s.selected(), 0);
}

#[test]
fn register_without_ctf_password() {
    let mut db = Database::new();
    let mut s = RegisterScreen::new(conf(None, None), "k".to_string());
    assert!(s.handle_input(&mut db, key(KeyCode::Enter)).is_none());
    assert_eq!(s.error(), Some("username can not be empty"));
    s.handle_input(&mut db, key(KeyCode::Down));
    assert_eq!(s.selected(), 0);
    s.handle_input(&mut db, key(KeyCode::Char('z')));
    assert_eq!(s.error(), None);
    assert_eq!(s.username(), "z");
    match s.handle_input(&mut db, key(KeyCode::Enter)) {
        Some(Transition::Browse(u)) => {
            assert_eq!(u.name(), "z");
            assert_eq!(u.id, 1);
        },
        _ => panic!("expected the flag browser"),
    }
    assert_eq!(db.users.len(), 1);
}

#[test]
fn register_with_ctf_password() {
    let mut db = Database::new();
    let mut s = RegisterScreen::new(conf(Some("secret"), None), "k".to_string());
    s.handle_input(&mut db, key(KeyCode::Char('n')));
    assert!(s.handle_input(&mut db, key(KeyCode::Enter)).is_none());
    assert_eq!(s.selected(), 1);
    s.handle_input(&mut db, key(KeyCode::Char('x')));
    assert!(s.handle_input(&mut db, key(KeyCode::Enter)).is_none());
    assert_eq!(s.error(), Some("Wrong password"));
    assert!(db.users.is_empty());
    s.handle_input(&mut db, key(KeyCode::Backspace));
    for c in "secret".chars() {
        s.handle_input(&mut db, key(KeyCode::Char(c)));
    }
    assert_eq!(s.password(), "secret");
    assert!(matches!(s.handle_input(&mut db, key(KeyCode::Enter)), Some(Transition::Browse(_))));
    assert!(matches!(s.handle_input(&mut db, key(KeyCode::Esc)), Some(Transition::Home)));
}

#[test]
fn register_taken_name_shows_error() {
    let mut db = Database::new();
    User::register_user(&mut db, &"n".to_string(), &"other".to_string()).unwrap();
    let mut s = RegisterScreen::new(conf(None, None), "k".to_string());
    s.handle_input(&mut db, key(KeyCode::Char('n')));
    assert!(s.handle_input(&mut db, key(KeyCode::Enter)).is_none());
    assert_eq!(s.error(), Some("user already exists"));
    assert!(s.handle_input(&mut db, None).is_none());
    assert_eq!(s.error(), Some("user already exists"));
}

fn browser(db: &mut Database) -> BrowseScreen {
    let u = User::register_user(db, &"p".to_string(), &"k".to_string()).unwrap();
    create_test_flags(db);
    BrowseScreen::new(db, u, conf(None, None))
}

#[test]
fn browse_submit_correct_flag() {
    let mut db = Database::new();
    let mut s = browser(&mut db);
    assert_eq!(s.flags().len(), 5);
    assert_eq!(s.selected(), Some(0));
    s.handle_input(&mut db, key(KeyCode::Down));
    assert_eq!(s.selected(), Some(1));
    s.handle_input(&mut db, key(KeyCode::Enter));
    assert_eq!(s.state(), BrowseState::Submit);
    for c in "ctf{flag_1337}".chars() {
        s.handle_input(&mut db, key(KeyCode::Char(c)));
    }
    assert_eq!(s.submission(), "ctf{flag_1337}");
    s.handle_input(&mut db, key(KeyCode::Enter));
    assert_eq!(s.error(), None);
    assert_eq!(s.state(), BrowseState::Browse);
    assert_eq!(s.submission(), "");
    assert!(s.flags()[1].solved());
    assert_eq!(s.user().points(&db), Ok(500));
}

#[test]
fn browse_submit_errors() {
    let mut db = Database::new();
    let mut s = browser(&mut db);
    s.handle_input(&mut db, key(KeyCode::Enter));
    s.handle_input(&mut db, key(KeyCode::Char('x')));
    s.handle_input(&mut db, key(KeyCode::Enter));
    assert_eq!(s.error(), Some("incorrect flag submitted"));
    s.handle_input(&mut db, key(KeyCode::Backspace));
    for c in "ctf{flag}".chars() {
        s.handle_input(&mut db, key(KeyCode::Char(c)));
    }
    s.handle_input(&mut db, key(KeyCode::Enter));
    assert_eq!(s.error(), None);
    s.handle_input(&mut db, key(KeyCode::Enter));
    for c in "ctf{flag}".chars() {
        s.handle_input(&mut db, key(KeyCode::Char(c)));
    }
    s.handle_input(&mut db, key(KeyCode::Enter));
    assert_eq!(s.error(), Some("flag already solved"));
}

#[test]
fn browse_r_reloads_even_while_typing() {
    let mut db = Database::new();
    let mut s = browser(&mut db);
    s.handle_input(&mut db, key(KeyCode::Enter));
    s.handle_input(&mut db, key(KeyCode::Char('r')));
    assert_eq!(s.submission(), "");
}

#[test]
fn browse_escape_and_scroll() {
    let mut db = Database::new();
    let mut s = browser(&mut db);
    s.handle_input(&mut db, key(KeyCode::Enter));
    s.handle_input(&mut db, key(KeyCode::Down));
    s.handle_input(&mut db, key(KeyCode::Down));
    assert_eq!(s.scroll(), 2);
    s.handle_input(&mut db, key(KeyCode::Up));
    assert_eq!(s.scroll(), 1);
    assert!(s.handle_input(&mut db, key(KeyCode::Esc)).is_none());
    assert_eq!(s.scroll(), 0);
    assert_eq!(s.state(), BrowseState::Browse);
    assert!(matches!(s.handle_input(&mut db, key(KeyCode::Esc)), Some(Transition::Home)));
}

#[test]
fn browse_selection_clamps_when_drawn() {
    let mut db = Database::new();
    let mut s = browser(&mut db);
    for _ in 0..10 {
        s.handle_input(&mut db, key(KeyCode::Tab));
    }
    assert_eq!(s.selected(), Some(10));
    assert!(s.selected_flag().is_none());
    s.fit_selection();
    assert_eq!(s.selected(), Some(4));
    assert_eq!(s.selected_flag().unwrap().name(), "longflag");
    s.handle_input(&mut db, key(KeyCode::Up));
    assert_eq!(s.selected(), Some(3));
}

#[test]
fn preview_title_shows_points_and_solved() {
    let mut db = Database::new();
    let u = User::register_user(&mut db, &"p".to_string(), &"k".to_string()).unwrap();
    create_flag(&mut db, "web", "d", 250, "f");
    assert_eq!(preview_title(&Flag::get_all(&db)[0]), "web\nPoints - 250");
    Flag::get_all(&db)[0].clear_for_user(&mut db, u.id).unwrap();
    assert_eq!(preview_title(&Flag::get_all_with_user(&db, &u)[0]), "web\nPoints - 250 - SOLVED");
}

#[test]
fn ranking_is_best_first_and_stable() {
    let mut db = Database::new();
    let a = User::register_user(&mut db, &"a".to_string(), &"1".to_string()).unwrap();
    let b = User::register_user(&mut db, &"b".to_string(), &"2".to_string()).unwrap();
    let c = User::register_user(&mut db, &"c".to_string(), &"3".to_string()).unwrap();
    let _d = User::register_user(&mut db, &"d".to_string(), &"4".to_string()).unwrap();
    create_test_flags(&mut db);
    let flags = Flag::get_all(&db);
    flags[0].clear_for_user(&mut db, a.id).unwrap();
    flags[1].clear_for_user(&mut db, c.id).unwrap();
    flags[2].clear_for_user(&mut db, b.id).unwrap();
    flags[3].clear_for_user(&mut db, a.id).unwrap();
    let r = ranking(&db);
    let names: Vec<&str> = r.iter().map(|s| s.user.name()).collect();
    assert_eq!(names, vec!["c", "a", "b", "d"]);
    let points: Vec<i32> = r.iter().map(|s| s.points).collect();
    assert_eq!(points, vec![500, 400, 300, 0]);
    assert_eq!(r[1].row_parts()[1], "400");
}

#[test]
fn leaderboard_navigation() {
    let mut db = Database::new();
    let a = User::register_user(&mut db, &"a".to_string(), &"1".to_string()).unwrap();
    let mut s = LeaderboardScreen::new(&db, Some(a), conf(None, Some("about")));
    s.handle_input(&db, key(KeyCode::Up));
    assert_eq!(s.offset(), 0);
    s.handle_input(&db, key(KeyCode::Down));
    assert_eq!(s.offset(), 1);
    assert!(s.handle_input(&db, key(KeyCode::Left)).is_none());
    assert!(matches!(s.handle_input(&db, Some((KeyCode::Left, KeyModifiers::Control))), Some(Transition::Browse(_))));
    assert!(matches!(s.handle_input(&db, Some((KeyCode::Right, KeyModifiers::Control))), Some(Transition::About(Some(_)))));
    let mut spectator = LeaderboardScreen::new(&db, None, conf(None, None));
    assert!(spectator.handle_input(&db, Some((KeyCode::Left, KeyModifiers::Control))).is_none());
    assert!(spectator.handle_input(&db, Some((KeyCode::Right, KeyModifiers::Control))).is_none());
    assert_eq!(spectator.standings().len(), 1);
}

#[test]
fn labels() {
    assert_eq!(title_label("BROWSE"), " BROWSE ");
    assert_eq!(username_label("alice"), " alice ");
    assert_eq!(points_label(1337), " 1337 points ");
    assert_eq!(points_label(-5), " -5 points ");
}

#[test]
fn quit_key() {
    assert!(is_quit((KeyCode::Char('q'), KeyModifiers::Control)));
    assert!(!is_quit((KeyCode::Char('q'), KeyModifiers::Plain)));
}

#[test]
fn session_moves_between_screens() {
    let mut db = Database::new();
    let mut app = App::new(&db, conf(None, Some("about")), "key1".to_string(), false);
    assert!(matches!(app.screen, Screen::Home(_)));
    app.handle_input(&mut db, None, false);
    assert!(matches!(app.screen, Screen::Home(_)));
    app.handle_input(&mut db, None, true);
    assert!(matches!(app.screen, Screen::Register(_)));
    app.handle_input(&mut db, key(KeyCode::Char('m')), true);
    app.handle_input(&mut db, key(KeyCode::Enter), true);
    assert!(matches!(app.screen, Screen::Browse(_)));
    app.handle_input(&mut db, key(KeyCode::Esc), true);
    assert!(matches!(app.screen, Screen::Home(_)));
    app.handle_input(&mut db, None, true);
    match &app.screen {
        Screen::Browse(b) => assert_eq!(b.user().name(), "m"),
        _ => panic!("expected the flag browser of m"),
    }
    let spectator = App::new(&db, conf(None, None), "key2".to_string(), true);
    assert!(matches!(spectator.screen, Screen::Leaderboard(_)));
}

#[test]
fn about_tab_scroll_and_back() {
    let mut db = Database::new();
    let mut app = App::new(&db, conf(None, Some("hello")), "k".to_string(), true);
    app.handle_input(&mut db, Some((KeyCode::Right, KeyModifiers::Control)), true);
    match &mut app.screen {
        Screen::About(a) => {
            assert_eq!(a.about_text(), "hello");
            a.handle_input(key(KeyCode::Down));
            a.handle_input(key(KeyCode::Down));
            assert_eq!(a.scroll(), 2);
            a.handle_input(Some((KeyCode::BackTab, KeyModifiers::Shift)));
            assert_eq!(a.scroll(), 1);
        },
        _ => panic!("expected the about tab"),
    }
    app.handle_input(&mut db, Some((KeyCode::Left, KeyModifiers::Control)), true);
    assert!(matches!(app.screen, Screen::Leaderboard(_)));
}

#[test]
fn input_buffer_gathers_until_an_event() {
    let mut b = InputBuffer::new();
    b.push(0x1b);
    b.push(b'[');
    assert!(matches!(b.step(None, true), InputAction::KeepReading));
    assert_eq!(b.bytes(), &[0x1b, b'[']);
    b.push(b'A');
    let up = (KeyCode::Up, KeyModifiers::Plain);
    match b.step(Some(TermEvent::Key { code: KeyCode::Up, modifier_bits: 0 }), false) {
        InputAction::Dispatch(k) => assert_eq!(k, up),
        _ => panic!("expected a dispatched key"),
    }
    assert!(b.bytes().is_empty());
}

#[test]
fn input_buffer_esc_waits_for_more_bytes() {
    let esc = (KeyCode::Esc, KeyModifiers::Plain);
    let mut b = InputBuffer::new();
    b.push(0x1b);
    assert!(matches!(b.step(Some(TermEvent::Key { code: KeyCode::Esc, modifier_bits: 0 }), true), InputAction::KeepReading));
    assert_eq!(b.bytes(), &[0x1b]);
    match b.step(Some(TermEvent::Key { code: KeyCode::Esc, modifier_bits: 0 }), false) {
        InputAction::Dispatch(k) => assert_eq!(k, esc),
        _ => panic!("expected the Esc key"),
    }
    assert!(b.bytes().is_empty());
}

#[test]
fn input_buffer_quit_and_skip() {
    let mut b = InputBuffer::new();
    b.push(0x11);
    assert!(matches!(b.step(Some(TermEvent::Key { code: KeyCode::Char('q'), modifier_bits: 2 }), false), InputAction::Quit));
    assert!(b.bytes().is_empty());
    b.push(b'x');
    assert!(matches!(b.step(Some(TermEvent::NonKey), false), InputAction::Skip));
    assert!(b.bytes().is_empty());
}

#[test]
fn password_is_masked_per_byte() {
    assert_eq!(password_mask(""), "");
    assert_eq!(password_mask("abc"), "***");
    assert_eq!(password_mask("é"), "**");
}

#[test]
fn leaderboard_rows_alternate_and_tabs() {
    let t = standard_theme();
    assert_eq!(row_background(&t, 0), t.base01);
    assert_eq!(row_background(&t, 1), t.base00);
    assert_eq!(row_background(&t, 2), t.base01);
    let db = Database::new();
    let with_about = LeaderboardScreen::new(&db, None, conf(None, Some("x")));
    assert_eq!(with_about.tabs(), vec!["FLAGS", "LEADERBOARD", "ABOUT"]);
    let without = LeaderboardScreen::new(&db, None, conf(None, None));
    assert_eq!(without.tabs(), vec!["FLAGS", "LEADERBOARD"]);
}

#[test]
fn register_commands_depend_on_ctf_password() {
    let open = RegisterScreen::new(conf(None, None), "k".to_string());
    assert_eq!(open.commands(), "^Q[QUIT] \u{21b5}[SUBMIT] \u{21f5}[NAV]");
    let guarded = RegisterScreen::new(conf(Some("pw"), None), "k".to_string());
    assert_eq!(guarded.commands(), "^Q[QUIT] \u{21b5}[SUBMIT]");
}

#[test]
fn top_bar_tabs_and_user() {
    let t = standard_theme();
    let mut db = Database::new();
    let user = User::register_user(&mut db, &"zoë".to_string(), &"k".to_string()).unwrap();
    create_flag(&mut db, "a", "d", 250, "ctf{a}");
    let flags = Flag::get_all_with_user(&db, &user);
    flags[0].clear_for_user(&mut db, user.id).unwrap();
    let bar = top_bar(&t, &["FLAGS", "LEADERBOARD", "ABOUT"], 1, Some(&user), &db);
    assert_eq!(bar.tabs.len(), 3);
    assert_eq!(bar.tabs[0].text, " FLAGS ");
    assert_eq!(bar.tabs[0].width, 7);
    assert_eq!((bar.tabs[0].fg, bar.tabs[0].bg), (t.base04, t.base01));
    assert_eq!(bar.tabs[1].text, " LEADERBOARD ");
    assert_eq!((bar.tabs[1].fg, bar.tabs[1].bg), (t.base05, t.base02));
    let (name, points) = bar.user.unwrap();
    assert_eq!(name.text, " zoë ");
    assert_eq!(name.width, 6);
    assert_eq!(points.text, " 250 points ");
    assert_eq!(points.width, 12);
    assert_eq!((points.fg, points.bg), (t.base05, t.base01));
    assert!(top_bar(&t, &["HOME"], 0, None, &db).user.is_none());
}

fn plain(c: char) -> InputAction {
    InputAction::Dispatch((KeyCode::Char(c), KeyModifiers::Plain))
}

#[test]
fn pasted_text_gives_one_key_per_character() {
    let mut b = InputBuffer::new();
    let (actions, failure) = b.feed(b"abc");
    assert_eq!(actions, vec![plain('a'), plain('b'), plain('c')]);
    assert_eq!(failure, None);
    assert!(b.bytes().is_empty());
}

#[test]
fn escape_sequences_and_lone_esc() {
    let mut b = InputBuffer::new();
    let (actions, _) = b.feed(b"\x1b[Ax\x1b[Z");
    assert_eq!(
        actions,
        vec![
            InputAction::Dispatch((KeyCode::Up, KeyModifiers::Plain)),
            plain('x'),
            InputAction::Dispatch((KeyCode::BackTab, KeyModifiers::Shift)),
        ]
    );
    let (actions, _) = InputBuffer::new().feed(b"\x1b");
    assert_eq!(actions, vec![InputAction::Dispatch((KeyCode::Esc, KeyModifiers::Plain))]);
    let (actions, _) = InputBuffer::new().feed(b"\r\x7f\t");
    assert_eq!(
        actions,
        vec![
            InputAction::Dispatch((KeyCode::Enter, KeyModifiers::Plain)),
            InputAction::Dispatch((KeyCode::Backspace, KeyModifiers::Plain)),
            InputAction::Dispatch((KeyCode::Tab, KeyModifiers::Plain)),
        ]
    );
}

#[test]
fn ctrl_q_ends_the_read() {
    let mut b = InputBuffer::new();
    let (actions, failure) = b.feed(b"a\x11bc");
    assert_eq!(actions, vec![plain('a'), InputAction::Quit]);
    assert_eq!(failure, None);
}

#[test]
fn unparsable_bytes_stop_the_read() {
    let (actions, failure) = InputBuffer::new().feed(b"a\x1bOXb");
    assert_eq!(actions, vec![plain('a')]);
    assert_eq!(failure, Some(ParseFailure));
    assert_eq!(parse_event(b"\x1bO"), Ok(None));
    assert_eq!(parse_event(b"A"), Ok(Some(TermEvent::Key { code: KeyCode::Char('A'), modifier_bits: 1 })));
    assert_eq!(parse_event(b"\x03"), Ok(Some(TermEvent::Key { code: KeyCode::Char('c'), modifier_bits: 2 })));
}

#[test]
fn mouse_reports_with_zero_coordinates_are_refused() {
    let (actions, failure) = InputBuffer::new().feed(b"\x1b[<0;0;0M");
    assert!(actions.is_empty());
    assert_eq!(failure, Some(ParseFailure));
    let (actions, failure) = InputBuffer::new().feed(b"\x1b[32;0;1M");
    assert!(actions.is_empty());
    assert_eq!(failure, Some(ParseFailure));
    let (actions, failure) = InputBuffer::new().feed(b"\x1b[<0;5;+00m");
    assert!(actions.is_empty());
    assert_eq!(failure, Some(ParseFailure));
    let (actions, failure) = InputBuffer::new().feed(b"\x1b[<0;5;7Mq");
    assert_eq!(actions, vec![plain('q')]);
    assert_eq!(failure, None);
    let (actions, failure) = InputBuffer::new().feed(b"\x1b[200~a;0;0M\x1b[201~x");
    assert_eq!(actions, vec![plain('x')]);
    assert_eq!(failure, None);
    assert!(is_zero_mouse_report(b"\x1b[<3;1;0m"));
    assert!(!is_zero_mouse_report(b"\x1b[<3;1;10m"));
    assert!(!is_zero_mouse_report(b"\x1b[<0;0;0"));
}
