use proc_loader::{Config, ConfigParser, LoadConfig, ParseError, ParseErrorKind, ProcConfig};

fn lines(text: &[&str]) -> Vec<String> {
    text.iter().map(|l| l.to_string()).collect()
}

fn parse(text: &[&str]) -> Result<Config, ParseError> {
    ConfigParser::parse_config(&lines(text))
}

fn lib(path: &str, allow: bool) -> LoadConfig {
    LoadConfig { path: path.to_string(), allow_init_failure: allow }
}

fn err(line: usize, cause: ParseErrorKind) -> Result<Config, ParseError> {
    Err(ParseError { line, cause })
}

#[test]
fn documented_example_file() {
    let c = parse(&[
        "[general]",
        "debug = true",
        "",
        "[host.exe]",
        "load = C:\\path\\to\\extra.dll",
        "allow_init_failure = true",
        "load = C:\\path\\to\\other.dll",
    ])
    .unwrap();
    assert!(c.debug);
    assert_eq!(
        c.proc_configs,
        vec![ProcConfig {
            exe_name: "host.exe".to_string(),
            load_libraries: vec![
                lib("C:\\path\\to\\extra.dll", true),
                lib("C:\\path\\to\\other.dll", false),
            ],
        }]
    );
}

#[test]
fn empty_file_gives_default_config() {
    let c = parse(&[]).unwrap();
    assert!(!c.debug);
    assert!(c.proc_configs.is_empty());
}

#[test]
fn comments_and_blank_lines_are_ignored() {
    let c = parse(&["# a comment", "   ", "\t# indented comment", "[app.exe]", "  # load = x.dll"]).unwrap();
    assert_eq!(c.proc_configs.len(), 1);
    assert!(c.proc_configs[0].load_libraries.is_empty());
}

#[test]
fn reparsing_gives_the_same_config() {
    let text = ["[general]", "debug = false", "[a.exe]", "load = x.dll", "allow_init_failure = true", "[b.exe]", "load = y.dll"];
    assert_eq!(parse(&text), parse(&text));
    let bad = ["[a.exe]", "bogus = 1"];
    assert_eq!(parse(&bad), parse(&bad));
}

#[test]
fn whitespace_around_tokens_is_insignificant() {
    let c = parse(&["  [  app.exe  ]  ", "\tload\t=\tmy lib.dll \u{3000}", "allow_init_failure=false"]).unwrap();
    assert_eq!(c.proc_configs[0].exe_name, "app.exe");
    assert_eq!(c.proc_configs[0].load_libraries, vec![lib("my lib.dll", false)]);
}

#[test]
fn value_is_split_at_first_equals_only() {
    let c = parse(&["[app.exe]", "load = a=b.dll"]).unwrap();
    assert_eq!(c.proc_configs[0].load_libraries, vec![lib("a=b.dll", false)]);
}

#[test]
fn allow_init_failure_applies_to_last_load() {
    let c = parse(&["[app.exe]", "load = a.dll", "load = b.dll", "allow_init_failure = true", "load = c.dll"]).unwrap();
    assert_eq!(
        c.proc_configs[0].load_libraries,
        vec![lib("a.dll", false), lib("b.dll", true), lib("c.dll", false)]
    );
}

#[test]
fn duplicate_scopes_are_kept_apart() {
    let c = parse(&["[app.exe]", "load = first.dll", "[app.exe]", "load = second.dll"]).unwrap();
    assert_eq!(c.proc_configs.len(), 2);
    let p = c.proc_config_for_exe("app.exe").unwrap();
    assert_eq!(p.load_libraries, vec![lib("first.dll", false)]);
}

#[test]
fn general_section_again_creates_no_scope() {
    let c = parse(&["[general]", "[app.exe]", "load = a.dll", "[general]", "debug = true"]).unwrap();
    assert!(c.debug);
    assert_eq!(c.proc_configs.len(), 1);
}

#[test]
fn scope_lookup_is_exact() {
    let c = parse(&["[App.exe]", "load = a.dll"]).unwrap();
    assert!(c.proc_config_for_exe("app.exe").is_none());
    let c = parse(&["[app]", "load = a.dll"]).unwrap();
    assert!(c.proc_config_for_exe("app.exe").is_none());
}

#[test]
fn allow_init_failure_without_load_is_rejected() {
    assert_eq!(
        parse(&["[app.exe]", "allow_init_failure = true"]),
        err(2, ParseErrorKind::InitFailureWithoutLoad)
    );
    assert_eq!(
        parse(&["[a.exe]", "load = a.dll", "[b.exe]", "# note", "allow_init_failure = false", "load = b.dll"]),
        err(5, ParseErrorKind::InitFailureWithoutLoad)
    );
    assert_eq!(
        parse(&["[app.exe]", "allow_init_failure = maybe"]),
        err(2, ParseErrorKind::InitFailureWithoutLoad)
    );
}

#[test]
fn load_before_any_section_is_rejected() {
    assert_eq!(
        parse(&["# header missing", "", "load = a.dll", "[app.exe]"]),
        err(3, ParseErrorKind::OutsideSection("load".to_string()))
    );
    assert_eq!(
        parse(&["allow_init_failure = true"]),
        err(1, ParseErrorKind::OutsideSection("allow_init_failure".to_string()))
    );
}

#[test]
fn unknown_key_in_general_is_rejected() {
    assert_eq!(
        parse(&["[general]", "load = a.dll"]),
        err(2, ParseErrorKind::UnknownParameter("load".to_string()))
    );
    assert_eq!(
        parse(&["[general]", "verbose = true"]),
        err(2, ParseErrorKind::UnknownParameter("verbose".to_string()))
    );
}

#[test]
fn unknown_key_in_process_scope_is_rejected() {
    assert_eq!(
        parse(&["[app.exe]", "load = a.dll", "debug = true"]),
        err(3, ParseErrorKind::UnknownParameter("debug".to_string()))
    );
}

#[test]
fn invalid_booleans_are_rejected() {
    assert_eq!(
        parse(&["[general]", "debug = True"]),
        err(2, ParseErrorKind::InvalidBool("debug".to_string(), "True".to_string()))
    );
    assert_eq!(
        parse(&["[app.exe]", "load = a.dll", "allow_init_failure = 1"]),
        err(3, ParseErrorKind::InvalidBool("allow_init_failure".to_string(), "1".to_string()))
    );
}

#[test]
fn malformed_headers_are_rejected() {
    assert_eq!(parse(&["[app.exe"]), err(1, ParseErrorKind::MissingClosingBracket));
    assert_eq!(parse(&["["]), err(1, ParseErrorKind::MissingClosingBracket));
    assert_eq!(parse(&["[]"]), err(1, ParseErrorKind::EmptySectionName));
    assert_eq!(parse(&["", "[   ]"]), err(2, ParseErrorKind::EmptySectionName));
}

#[test]
fn malformed_assignments_are_rejected() {
    assert_eq!(parse(&["[app.exe]", "load a.dll"]), err(2, ParseErrorKind::MissingEquals));
    assert_eq!(parse(&["[app.exe]", " = a.dll"]), err(2, ParseErrorKind::MissingKey));
    assert_eq!(parse(&["[app.exe]", "load =  "]), err(2, ParseErrorKind::MissingValue));
}

#[test]
fn first_error_wins() {
    assert_eq!(
        parse(&["[app.exe]", "bogus = 1", "[", "load"]),
        err(2, ParseErrorKind::UnknownParameter("bogus".to_string()))
    );
}

#[test]
fn parser_reads_lines_in_steps() {
    let mut p = ConfigParser::new();
    assert_eq!(p.parse_line("[app.exe]"), Ok(()));
    assert_eq!(p.parse_line("load = a.dll"), Ok(()));
    assert_eq!(p.parse_line("nonsense"), Err(ParseErrorKind::MissingEquals));
    assert_eq!(p.parse(&lines(&["allow_init_failure = true"])), Ok(()));
    let c = p.into_config();
    assert_eq!(c.proc_configs[0].load_libraries, vec![lib("a.dll", true)]);
}

#[test]
fn section_header_detection() {
    assert_eq!(ConfigParser::is_section("load = x"), Ok(None));
    assert_eq!(ConfigParser::is_section("[ a b ]"), Ok(Some("a b")));
    assert_eq!(ConfigParser::is_section("[a"), Err(ParseErrorKind::MissingClosingBracket));
}

#[test]
fn missing_default_file_is_no_config() {
    assert_eq!(ConfigParser::parse_default_path(None), Ok(None));
    let l = lines(&["[general]", "debug = true"]);
    let c = ConfigParser::parse_default_path(Some(&l)).unwrap().unwrap();
    assert!(c.debug);
    let bad = lines(&["debug = true"]);
    assert_eq!(
        ConfigParser::parse_default_path(Some(&bad)),
        Err(ParseError { line: 1, cause: ParseErrorKind::OutsideSection("debug".to_string()) })
    );
}

#[test]
fn config_as_text() {
    let c = parse(&["[general]", "debug = true", "[app.exe]", "load = a.dll", "allow_init_failure = true", "[b.exe]"]).unwrap();
    assert_eq!(
        c.to_string(),
        "[general]\r\ndebug = true\r\n\r\n[app.exe]\r\npath = 'a.dll'\r\nallow_init_failure = true\r\n\r\n[b.exe]\r\n"
    );
    assert_eq!(c.proc_configs[0].load_libraries[0].to_string(), "path = 'a.dll'\r\nallow_init_failure = true");
    assert_eq!(parse(&[]).unwrap().to_string(), "[general]\r\ndebug = false\r\n");
}

#[test]
fn error_messages() {
    let e = parse(&["[app.exe]", "x", "", "", "", "", "", "", "", "", "", ""]).unwrap_err();
    assert_eq!(e.to_string(), "line 2: expected 'key = value'");
    let mut many = vec!["# c"; 1233];
    many.push("[general]");
    many.push("load = a.dll");
    assert_eq!(parse(&many).unwrap_err().to_string(), "line 1235: unknown parameter: 'load'");
    assert_eq!(
        ParseErrorKind::InvalidBool("debug".to_string(), "yes".to_string()).to_string(),
        "failed to parse 'debug' value - 'yes' is neither true nor false"
    );
    assert_eq!(
        ParseError { line: 10, cause: ParseErrorKind::OutsideSection("load".to_string()) }.to_string(),
        "line 10: parameter 'load' must be declared inside a section"
    );
    assert_eq!(ParseError { line: 0, cause: ParseErrorKind::MissingKey }.to_string(), "line 0: missing parameter name");
}
