use proc_loader::{
    dbg_msg_box, err_msg_box, ConfigParser, LoadAction, LoadConfig, LoadError, LoadEvent,
    LoadSession, ProcConfig, INIT_DECLINED,
};

fn scope(libs: &[(&str, bool)]) -> ProcConfig {
    ProcConfig {
        exe_name: "app.exe".to_string(),
        load_libraries: libs
            .iter()
            .map(|(p, a)| LoadConfig { path: p.to_string(), allow_init_failure: *a })
            .collect(),
    }
}

/// Drives a session with a loader that answers from `outcomes`, and
/// returns the paths it was asked to load and the final action.
fn drive(mut session: LoadSession, outcomes: &[(&str, LoadEvent)]) -> (Vec<String>, LoadAction) {
    let mut attempts = Vec::new();
    let mut action = session.action();
    loop {
        match action {
            LoadAction::Load(path) => {
                let ev = outcomes.iter().find(|(p, _)| *p == path).map(|(_, e)| *e).unwrap_or(LoadEvent::Loaded);
                attempts.push(path);
                action = session.step(ev);
            }
            other => return (attempts, other),
        }
    }
}

#[test]
fn declined_init_tolerated_then_fatal_failure() {
    let s = LoadSession::new(scope(&[("a", false), ("b", true), ("c", false), ("d", false)]));
    let (attempts, end) = drive(
        s,
        &[("b", LoadEvent::Failed(INIT_DECLINED)), ("c", LoadEvent::Failed(2))],
    );
    assert_eq!(attempts, vec!["a", "b", "c"]);
    assert_eq!(end, LoadAction::Abort(LoadError { path: "c".to_string(), platform_code: 2 }));
}

#[test]
fn first_failure_stops_the_list() {
    let s = LoadSession::new(scope(&[("a", false), ("b", false)]));
    let (attempts, end) = drive(s, &[("a", LoadEvent::Failed(126))]);
    assert_eq!(attempts, vec!["a"]);
    assert_eq!(end, LoadAction::Abort(LoadError { path: "a".to_string(), platform_code: 126 }));
}

#[test]
fn declined_init_without_allowance_is_fatal() {
    let s = LoadSession::new(scope(&[("a", false), ("b", false)]));
    let (attempts, end) = drive(s, &[("a", LoadEvent::Failed(INIT_DECLINED))]);
    assert_eq!(attempts, vec!["a"]);
    assert_eq!(
        end,
        LoadAction::Abort(LoadError { path: "a".to_string(), platform_code: INIT_DECLINED })
    );
}

#[test]
fn other_code_is_fatal_even_with_allowance() {
    let s = LoadSession::new(scope(&[("a", true), ("b", false)]));
    let (attempts, end) = drive(s, &[("a", LoadEvent::Failed(5))]);
    assert_eq!(attempts, vec!["a"]);
    assert_eq!(end, LoadAction::Abort(LoadError { path: "a".to_string(), platform_code: 5 }));
}

#[test]
fn all_loaded_finishes() {
    let s = LoadSession::new(scope(&[("a", false), ("b", true)]));
    let (attempts, end) = drive(s, &[]);
    assert_eq!(attempts, vec!["a", "b"]);
    assert_eq!(end, LoadAction::Done);
}

#[test]
fn empty_scope_loads_nothing() {
    let s = LoadSession::new(scope(&[]));
    assert_eq!(s.action(), LoadAction::Done);
}

#[test]
fn outcomes_after_the_end_change_nothing() {
    let mut s = LoadSession::new(scope(&[("a", false)]));
    assert_eq!(s.step(LoadEvent::Failed(3)), LoadAction::Abort(LoadError { path: "a".to_string(), platform_code: 3 }));
    assert_eq!(s.step(LoadEvent::Loaded), LoadAction::Abort(LoadError { path: "a".to_string(), platform_code: 3 }));
    assert_eq!(s.action(), LoadAction::Abort(LoadError { path: "a".to_string(), platform_code: 3 }));
}

#[test]
fn end_to_end_example() {
    let text: Vec<String> = ["[general]", "debug = false", "[app.exe]", "load = hook.dll"]
        .iter()
        .map(|l| l.to_string())
        .collect();
    let config = ConfigParser::parse_config(&text).unwrap();
    let scope = config.proc_config_for_exe("app.exe").unwrap();
    let (attempts, end) = drive(LoadSession::new(scope), &[]);
    assert_eq!(attempts, vec!["hook.dll"]);
    assert_eq!(end, LoadAction::Done);

    let config = ConfigParser::parse_config(&text).unwrap();
    assert!(config.proc_config_for_exe("other.exe").is_none());
}

#[test]
fn notification_texts() {
    assert_eq!(err_msg_box("boom"), "\u{1F915} boom");
    assert_eq!(dbg_msg_box("parsed"), "debug: parsed");
    assert_eq!(dbg_msg_box(""), "debug: ");
}
