use sshack::cli::{can_list, list_line, Args, CommandOutput, Commands, FlagCommands, FlagEntry};
use sshack::conf::{Conf, ConfToml, DEFAULT_PORT};
use sshack::screens::home::banner_size;
use sshack::database::{create_flag, create_test_flags, Database, Flag, User};
use sshack::sftp::{inside_folder, relative_path, subsystem_granted, FileKind, ReadStep, ReaddirStep, SftpSession, SftpStatus};
use sshack::text::i64_to_string;
use sshack::theme::{parse_hex_u32, standard_theme, theme_file_name, Rgb, ThemeStrings};

#[test]
fn decimal_rendering() {
    assert_eq!(i64_to_string(0), "0");
    assert_eq!(i64_to_string(9), "9");
    assert_eq!(i64_to_string(10), "10");
    assert_eq!(i64_to_string(-1234), "-1234");
    assert_eq!(i64_to_string(i64::MIN), "-9223372036854775808");
    assert_eq!(i64_to_string(i64::MAX), "9223372036854775807");
}

#[test]
fn hex_parsing_matches_from_str_radix() {
    for s in ["ff4136", "FFFFFF", "+1a", "0", "ffffffff", "100000000", "", "+", "-1", "12g", " 1", "0x10"] {
        assert_eq!(parse_hex_u32(s), u32::from_str_radix(s, 16).ok(), "{s}");
    }
}

#[test]
fn colors_from_u32() {
    assert_eq!(Rgb::from_u32(0xff4136), Rgb { r: 0xff, g: 0x41, b: 0x36 });
    assert_eq!(Rgb::from_u32(0x12345678), Rgb { r: 0x34, g: 0x56, b: 0x78 });
    assert_eq!(standard_theme().base0d, Rgb { r: 0x00, g: 0x74, b: 0xd9 });
}

fn strings(v: &str) -> ThemeStrings {
    let s = |x: &str| x.to_string();
    ThemeStrings {
        base00: s(v), base01: s("010101"), base02: s("020202"), base03: s("030303"),
        base04: s("040404"), base05: s("050505"), base06: s("060606"), base07: s("070707"),
        base08: s("080808"), base09: s("090909"), base0a: s("0a0a0a"), base0b: s("0b0b0b"),
        base0c: s("0c0c0c"), base0d: s("0d0d0d"), base0e: s("0e0e0e"), base0f: s("0f0f0f"),
    }
}

#[test]
fn theme_from_strings() {
    let t = strings("1d1f21");
    assert!(t.is_valid());
    let theme = t.theme();
    assert_eq!(theme.base00, Rgb { r: 0x1d, g: 0x1f, b: 0x21 });
    assert_eq!(theme.base0f, Rgb { r: 0x0f, g: 0x0f, b: 0x0f });
    assert!(!strings("zz").is_valid());
    assert_eq!(theme_file_name("colors"), "colors.yaml");
}

#[test]
fn default_configuration() {
    let c = Conf::get(None, None);
    assert_eq!(c.port, DEFAULT_PORT);
    assert_eq!(c.port, 1337);
    assert!(c.animation);
    assert!(c.password.is_none());
    assert!(c.about.as_deref().unwrap().contains("SSHack ctf framework"));
    assert!(c.banner.starts_with("\n   __________"));
    assert_eq!(c.theme, standard_theme());
}

#[test]
fn configuration_from_file() {
    let toml = ConfToml {
        theme: "colors".to_string(),
        banner: "B".to_string(),
        port: 2222,
        animation: None,
        password: Some("pw".to_string()),
        about: None,
    };
    let c = toml.conf(Some(standard_theme())).unwrap();
    assert_eq!(c.port, 2222);
    assert!(c.animation);
    assert_eq!(c.password.as_deref(), Some("pw"));
    let kept = Conf::get(Some(c.clone()), None);
    assert_eq!(kept.port, 2222);
    let off = ConfToml {
        theme: "x".to_string(), banner: String::new(), port: 1, animation: Some(false), password: None, about: None,
    };
    assert!(!off.conf(Some(standard_theme())).unwrap().animation);
    let missing = ConfToml {
        theme: "x".to_string(), banner: String::new(), port: 1, animation: None, password: None, about: None,
    };
    assert!(missing.conf(None).is_none());
}

#[test]
fn list_lines_cut_descriptions() {
    let mut db = Database::new();
    create_test_flags(&mut db);
    let out = FlagCommands::List.run(&mut db, None);
    match out {
        CommandOutput::Lines(lines) => {
            assert_eq!(lines[0], "1 - flag0 - easy test  - 100 - ctf{flag}");
            assert_eq!(lines[3], "4 - mdflag - # markdown - 300 - ctf{flag_md}");
            assert_eq!(lines.len(), 5);
        },
        _ => panic!("expected lines"),
    }
}

#[test]
fn list_line_multibyte_boundary() {
    let mut db = Database::new();
    create_flag(&mut db, "u", "aaaaaaaaaé", 1, "f");
    create_flag(&mut db, "v", "ééééé", 2, "g");
    let flags = Flag::get_all(&db);
    assert!(!can_list(&flags[0]));
    assert!(can_list(&flags[1]));
    assert_eq!(list_line(&flags[1]), "2 - v - ééééé - 2 - g");
}

#[test]
fn add_delete_write_load() {
    let mut db = Database::new();
    FlagCommands::Add { name: "a".into(), description: "d".into(), points: 5, flag: "f".into() }.run(&mut db, None);
    FlagCommands::Add { name: "b".into(), description: "e".into(), points: 6, flag: "g".into() }.run(&mut db, None);
    FlagCommands::Delete { id: 1 }.run(&mut db, None);
    let exported = match (FlagCommands::Write { path: None }).run(&mut db, None) {
        CommandOutput::Export(e) => e,
        _ => panic!("expected export"),
    };
    assert_eq!(exported.len(), 1);
    assert_eq!(exported[0].name, "b");
    let entries = vec![
        FlagEntry { name: "x".into(), description: "dx".into(), points: 1, flag: "fx".into() },
        FlagEntry { name: "y".into(), description: "dy".into(), points: 2, flag: "fy".into() },
    ];
    FlagCommands::Load { path: None }.run(&mut db, Some(entries));
    let flags = Flag::get_all(&db);
    assert_eq!(flags.len(), 2);
    assert_eq!(flags[0].id(), 1);
    assert_eq!(flags[1].name(), "y");
    assert_eq!(flags[1].flag(), "fy");
}

#[test]
fn leaderboard_flag_of_run() {
    let a = Args { command: Commands::Run { local: true, leaderboard: true } };
    assert!(a.leaderboard());
    let b = Args { command: Commands::Flags { command: FlagCommands::List } };
    assert!(!b.leaderboard());
}

#[test]
fn sftp_session_bookkeeping() {
    let mut s = SftpSession::new();
    assert_eq!(s.init(3), Ok(()));
    assert_eq!(s.init(3), Err(SftpStatus::ConnectionLost));
    assert_eq!(s.open(false), Err(SftpStatus::NoSuchFile));
    assert_eq!(s.open(true), Ok(()));
    assert_eq!(s.read(), ReadStep::SendFile);
    assert_eq!(s.read(), ReadStep::Eof);
    assert_eq!(s.open(true), Ok(()));
    assert_eq!(s.read(), ReadStep::SendFile);
    s.opendir();
    assert_eq!(s.readdir("/files"), ReaddirStep::Eof);
    assert_eq!(s.readdir("/"), ReaddirStep::SendListing);
    assert_eq!(s.readdir("/"), ReaddirStep::Eof);
    s.opendir();
    assert_eq!(s.readdir("/"), ReaddirStep::SendListing);
    assert_eq!(s.stat(true), Ok(FileKind::Regular));
    assert_eq!(s.fstat(true), Ok(FileKind::Unmarked));
    assert_eq!(s.stat(false), Err(SftpStatus::NoSuchFile));
    assert_eq!(s.close(), SftpStatus::Done);
    assert_eq!(s.unimplemented(), SftpStatus::OpUnsupported);
}

#[test]
fn relative_paths() {
    assert_eq!(relative_path("///a/b"), "a/b");
    assert_eq!(relative_path("a/"), "a/");
    assert_eq!(relative_path("/"), "");
    assert_eq!(relative_path(""), "");
    assert_eq!(relative_path("/é/x"), "é/x");
}

#[test]
fn banner_size_matches_lines() {
    for s in ["", "\n", "a", "a\n", "a\r\nbcd\n", "ab\r", "\n\nxyz\n\n", "é€\nab", sshack::conf::DEFAULT_BANNER] {
        let lines = s.lines().count();
        let width = s.lines().map(|l| l.chars().count()).max().unwrap_or(0);
        assert_eq!(banner_size(s), (lines, width), "{s:?}");
    }
}

#[test]
fn sftp_only_for_registered_keys() {
    let mut db = Database::new();
    let key = "ssh-ed25519 AAAA alice".to_string();
    let other = "ssh-ed25519 BBBB bob".to_string();
    assert!(!subsystem_granted(&db, "sftp", Some(&key)));
    User::register_user(&mut db, &"alice".to_string(), &key).unwrap();
    assert!(subsystem_granted(&db, "sftp", Some(&key)));
    assert!(!subsystem_granted(&db, "sftp", Some(&other)));
    assert!(!subsystem_granted(&db, "sftp", None));
    assert!(!subsystem_granted(&db, "shell", Some(&key)));
}

#[test]
fn loading_flags_removes_earlier_solves() {
    let mut db = Database::new();
    let user = User::register_user(&mut db, &"u".to_string(), &"k".to_string()).unwrap();
    create_flag(&mut db, "old", "d", 50, "ctf{old}");
    Flag::get_all(&db)[0].clear_for_user(&mut db, user.id).unwrap();
    assert_eq!(user.points(&db), Ok(50));
    let entries = vec![FlagEntry { name: "new".into(), description: "d".into(), points: 100, flag: "ctf{new}".into() }];
    FlagCommands::Load { path: None }.run(&mut db, Some(entries));
    assert!(db.cleared.is_empty());
    assert_eq!(user.points(&db), Ok(0));
    assert!(!Flag::get_all_with_user(&db, &user)[0].solved());
}

#[test]
fn files_stay_inside_the_folder() {
    let parts = |v: &[&str]| v.iter().map(|s| s.as_bytes().to_vec()).collect::<Vec<Vec<u8>>>();
    let folder = parts(&["/", "home", "u", "files"]);
    assert!(inside_folder(&folder, &parts(&["/", "home", "u", "files", "a.txt"])));
    assert!(inside_folder(&folder, &folder));
    assert!(!inside_folder(&folder, &parts(&["/", "home", "u", "secret"])));
    assert!(!inside_folder(&folder, &parts(&["/", "home", "u", "filesx", "a"])));
    assert!(!inside_folder(&folder, &parts(&["/", "home"])));
}
