use sysmon::console::{Action, App, InputMode, Key, Ptable, Session, Tint};
use sysmon::prompt::{command, findbyname, Command, NamedProcess};

fn typed(app: &mut App, s: &mut Session, text: &str) {
    for c in text.chars() {
        assert!(matches!(app.handle_key(s, Key::Char(c)), Action::Continue));
    }
}

#[test]
fn default_app_is_empty() {
    let app = App::default();
    assert_eq!(app.input, "");
    assert!(app.input_mode == InputMode::Normal);
    assert!(app.messages.is_empty());
    assert!(app.output.is_empty());
}

#[test]
fn normal_mode_keys() {
    let mut app = App::default();
    let mut s = Session::new();
    assert!(matches!(app.handle_key(&mut s, Key::Char('x')), Action::Continue));
    assert!(matches!(app.handle_key(&mut s, Key::Enter), Action::Continue));
    assert!(matches!(app.handle_key(&mut s, Key::Char('Q')), Action::Quit));
    assert!(app.input_mode == InputMode::Normal);
    assert!(matches!(app.handle_key(&mut s, Key::Char('E')), Action::Continue));
    assert!(app.input_mode == InputMode::Editing);
    typed(&mut app, &mut s, "q");
    assert_eq!(app.input, "q");
}

#[test]
fn typing_and_backspace() {
    let mut app = App::default();
    let mut s = Session::new();
    app.handle_key(&mut s, Key::Char('e'));
    typed(&mut app, &mut s, "dé");
    app.handle_key(&mut s, Key::Char('x'));
    app.handle_key(&mut s, Key::Backspace);
    assert_eq!(app.input, "dé");
    app.handle_key(&mut s, Key::Backspace);
    app.handle_key(&mut s, Key::Backspace);
    app.handle_key(&mut s, Key::Backspace);
    assert_eq!(app.input, "");
    app.handle_key(&mut s, Key::Esc);
    assert!(app.input_mode == InputMode::Normal);
}

fn enter(app: &mut App, s: &mut Session, line: &str) -> Action {
    typed(app, s, line);
    assert!(!app.key_panics(s, Key::Enter));
    app.handle_key(s, Key::Enter)
}

#[test]
fn enter_dispatches_commands() {
    let mut app = App::default();
    let mut s = Session::new();
    app.handle_key(&mut s, Key::Char('e'));
    assert!(matches!(enter(&mut app, &mut s, "uname"), Action::KernelVersion));
    assert_eq!(app.messages, vec!["uname"]);
    assert_eq!(app.input, "");
    assert!(matches!(enter(&mut app, &mut s, "  release  "), Action::OsVersion));
    assert!(matches!(enter(&mut app, &mut s, "hostname"), Action::HostName));
    assert!(matches!(enter(&mut app, &mut s, "sysinfo"), Action::SystemInformation));
    assert!(matches!(enter(&mut app, &mut s, "sensors"), Action::Sensors));
    assert!(matches!(enter(&mut app, &mut s, "lscpu"), Action::Cpus));
    match enter(&mut app, &mut s, "df -m") {
        Action::Disks(a) => assert_eq!(a, "m"),
        _ => panic!("expected a disk report"),
    }
    match enter(&mut app, &mut s, "hddtemp") {
        Action::DriveTemperatures(a) => assert_eq!(a, "m"),
        _ => panic!("expected a drive report"),
    }
    match enter(&mut app, &mut s, "gputemp -max") {
        Action::GpuTemperatures(a) => assert_eq!(a, "max"),
        _ => panic!("expected a gpu report"),
    }
    assert_eq!(s.arg, "max");
    match enter(&mut app, &mut s, "kill -15") {
        Action::Kill(p) => assert_eq!(p, -15),
        _ => panic!("expected a kill"),
    }
    assert!(matches!(enter(&mut app, &mut s, "kill"), Action::Continue));
    match enter(&mut app, &mut s, "ignite top") {
        Action::Ignite(p) => assert_eq!(p, "top"),
        _ => panic!("expected a program"),
    }
    assert!(matches!(enter(&mut app, &mut s, "ptable"), Action::ProcessTable));
    app.show("line".to_string());
    assert!(matches!(enter(&mut app, &mut s, "clear"), Action::Continue));
    assert!(app.output.is_empty());
    assert!(matches!(enter(&mut app, &mut s, "frobnicate now"), Action::Continue));
    assert_eq!(app.output, vec![": command not found\n"]);
    assert_eq!(app.messages.len(), 15);
    assert_eq!(app.messages[14], "frobnicate now");
}

#[test]
fn failing_keys_are_detected() {
    let mut app = App::default();
    let mut s = Session::new();
    app.handle_key(&mut s, Key::Char('e'));
    assert!(app.key_panics(&s, Key::Enter));
    typed(&mut app, &mut s, "   ");
    assert!(app.key_panics(&s, Key::Enter));
    typed(&mut app, &mut s, "kill x");
    assert!(app.key_panics(&s, Key::Enter));
    let mut app2 = App::default();
    app2.handle_key(&mut s, Key::Char('e'));
    typed(&mut app2, &mut s, "df éx");
    assert!(app2.key_panics(&s, Key::Enter));
    assert!(!app2.key_panics(&s, Key::Down));
    assert!(!App::default().key_panics(&s, Key::Enter));
}

fn table(n: u32) -> Vec<Ptable> {
    (0..n)
        .map(|i| Ptable {
            pid: i,
            cpu: "0.5".to_string(),
            mem: "1.25".to_string(),
            cmdline: if i % 2 == 0 { Some(format!("cmd{}", i)) } else { None },
        })
        .collect()
}

#[test]
fn ptable_lists_processes_with_a_command_line() {
    let mut app = App::default();
    let n = app.printptable(&table(4));
    assert_eq!(n, 2);
    assert_eq!(
        app.output,
        vec![
            format!("{:<10} {:<10} {:<20} {:<30}", "PID", "%CPU", "%MEM", "COMMAND"),
            format!("{:<10} {:<10} {:<20} {:<30}", 0, "0.5", "1.25", "cmd0"),
            format!("{:<10} {:<10} {:<20} {:<30}", 2, "0.5", "1.25", "cmd2"),
        ]
    );
}

#[test]
fn scrolling_the_process_table() {
    let mut app = App::default();
    let mut s = Session::new();
    app.handle_key(&mut s, Key::Char('e'));
    assert!(matches!(enter(&mut app, &mut s, "ptable"), Action::ProcessTable));
    app.load_ptable(&mut s, &table(100));
    assert!(s.flag);
    assert_eq!(s.num, 50);
    let full = app.output.clone();
    assert_eq!(full.len(), 51);
    for _ in 0..3 {
        assert!(!app.key_panics(&s, Key::Down));
        app.handle_key(&mut s, Key::Down);
    }
    assert_eq!(s.history.len(), 3);
    assert_eq!(app.output[1], full[4]);
    for _ in 0..3 {
        assert!(!app.key_panics(&s, Key::Up));
        app.handle_key(&mut s, Key::Up);
    }
    assert_eq!(app.output, full);
    assert!(s.history.is_empty());
    for _ in 0..10 {
        app.handle_key(&mut s, Key::Down);
    }
    assert_eq!(s.history.len(), 6);
}

#[test]
fn scrolling_a_short_table_fails() {
    let mut app = App::default();
    let mut s = Session::new();
    app.handle_key(&mut s, Key::Char('e'));
    app.load_ptable(&mut s, &table(10));
    assert!(app.key_panics(&s, Key::Down));
    assert!(!app.key_panics(&s, Key::Up));
}

#[test]
fn kill_reports() {
    let mut app = App::default();
    app.report_kill(Ok(()));
    app.report_kill(Err("ESRCH: No such process".to_string()));
    assert_eq!(app.output, vec!["Process with killed successfully.\n", "Error killing process: ESRCH: No such process\n"]);
}

#[test]
fn screen_model() {
    let mut app = App::default();
    let mut s = Session::new();
    let sc = app.screen(2, 3).unwrap();
    let help: Vec<(String, bool)> = sc.help.iter().map(|p| (p.text.clone(), p.bold)).collect();
    assert_eq!(help, vec![("Press ".to_string(), false), ("q".to_string(), true), (" to exit, ".to_string(), false), ("e".to_string(), true), (" to start editing.".to_string(), false)]);
    assert!(sc.help_blinks);
    assert!(sc.input_tint == Tint::Yellow);
    assert_eq!(sc.cursor, None);
    app.handle_key(&mut s, Key::Char('e'));
    typed(&mut app, &mut s, "日本a");
    let sc = app.screen(2, 3).unwrap();
    assert!(!sc.help_blinks);
    assert!(sc.input_tint == Tint::Green);
    assert_eq!(sc.input, "日本a");
    assert_eq!(sc.cursor, Some((2 + 5 + 1, 4)));
    assert_eq!(sc.help[1].text, "Esc");
    assert!(app.screen(65530, 3).is_none());
    assert!(app.screen(0, 65535).is_none());
}

#[test]
fn prompt_commands() {
    assert!(command("quit\n") == Command::Quit);
    assert!(command("  help ") == Command::Help);
    assert!(command("desc") == Command::SortAscending);
    assert!(command("asc") == Command::SortDescending);
    assert!(command("PT") == Command::ProcessTable);
    assert!(command("pt") == Command::Unknown);
    assert!(command("memory info ") == Command::Unknown);
    assert!(command("Network info") == Command::NetworkInfo);
    assert!(command("hddtemp") == Command::Nothing);
    assert!(command("kill") == Command::Kill);
    assert!(command("finsbyname") == Command::FindByName);
    assert!(command("findbyid\n") == Command::FindById(None));
    assert!(command("findbyid 12") == Command::Unknown);
}

#[test]
fn find_by_name_ignores_case() {
    let ps = vec![
        NamedProcess { pid: 1, name: Some("Firefox".to_string()) },
        NamedProcess { pid: 2, name: None },
        NamedProcess { pid: 3, name: Some("firefox-bin".to_string()) },
        NamedProcess { pid: 4, name: Some("FIREFOX".to_string()) },
    ];
    let found: Vec<u32> = findbyname(&ps, "firefox").iter().map(|p| p.pid).collect();
    assert_eq!(found, vec![1, 4]);
    let greek = vec![NamedProcess { pid: 9, name: Some("ΟΔΟΣ".to_string()) }];
    assert_eq!(findbyname(&greek, "οδος").len(), 1);
    assert_eq!(findbyname(&greek, "οδοσ").len(), 0);
    assert_eq!(findbyname(&greek, "ΟΔΟΣ").len(), 1);
    assert_eq!(findbyname(&greek, "οδος").len(), ("ΟΔΟΣ".to_lowercase() == "οδος".to_lowercase()) as usize);
}
