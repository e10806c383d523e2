//! The configuration file parser: one forward pass over the lines, with the
//! section currently open as its only state.
use vstd::prelude::*;

use crate::config::{
    libraries_view, scopes_view, Config, ConfigView, LibraryView, LoadConfig, ProcConfig,
    ScopeView,
};
use crate::text::{
    chars_of, decimal, decimal_string, find_char, first_index_of, same_text, trim, trim_str,
};

verus! {

/// Why a line was rejected.
#[derive(Debug, PartialEq, Eq)]
pub enum ParseErrorKind {
    /// A section header that does not end with `]`.
    MissingClosingBracket,
    /// A section header whose name is empty or only whitespace.
    EmptySectionName,
    /// A line that is neither a header, a comment nor `key = value`.
    MissingEquals,
    /// `= value` with nothing before the `=`.
    MissingKey,
    /// `key =` with nothing after the `=`.
    MissingValue,
    /// A `key = value` line before any section header.
    OutsideSection(String),
    /// A key that the current section does not know.
    UnknownParameter(String),
    /// `allow_init_failure` in a process section that has no `load` yet.
    InitFailureWithoutLoad,
    /// A boolean key whose value is neither `true` nor `false`.
    InvalidBool(String, String),
}

/// `ParseErrorKind` as a mathematical value.
pub enum ErrorKindView {
    MissingClosingBracket,
    EmptySectionName,
    MissingEquals,
    MissingKey,
    MissingValue,
    OutsideSection(Seq<char>),
    UnknownParameter(Seq<char>),
    InitFailureWithoutLoad,
    InvalidBool(Seq<char>, Seq<char>),
}

impl View for ParseErrorKind {
    type V = ErrorKindView;

    open spec fn view(&self) -> ErrorKindView {
        match self {
            ParseErrorKind::MissingClosingBracket => ErrorKindView::MissingClosingBracket,
            ParseErrorKind::EmptySectionName => ErrorKindView::EmptySectionName,
            ParseErrorKind::MissingEquals => ErrorKindView::MissingEquals,
            ParseErrorKind::MissingKey => ErrorKindView::MissingKey,
            ParseErrorKind::MissingValue => ErrorKindView::MissingValue,
            ParseErrorKind::OutsideSection(k) => ErrorKindView::OutsideSection(k@),
            ParseErrorKind::UnknownParameter(k) => ErrorKindView::UnknownParameter(k@),
            ParseErrorKind::InitFailureWithoutLoad => ErrorKindView::InitFailureWithoutLoad,
            ParseErrorKind::InvalidBool(k, v) => ErrorKindView::InvalidBool(k@, v@),
        }
    }
}

/// A rejected line: its number, counting from 1, and the reason.
#[derive(Debug, PartialEq, Eq)]
pub struct ParseError {
    pub line: usize,
    pub cause: ParseErrorKind,
}

/// `ParseError` as a mathematical value.
pub struct ParseErrorView {
    pub line: nat,
    pub cause: ErrorKindView,
}

impl View for ParseError {
    type V = ParseErrorView;

    open spec fn view(&self) -> ParseErrorView {
        ParseErrorView { line: self.line as nat, cause: self.cause@ }
    }
}

/// The section that `key = value` lines currently belong to.
#[derive(Clone, Copy, PartialEq, Eq, Structural, Debug)]
pub enum Context {
    /// No header seen yet.
    NoSection,
    /// Inside `[general]`.
    General,
    /// Inside the process scope with this index.
    Process(usize),
}

/// The parser: the configuration built so far and the open section.
pub struct ConfigParser {
    config: Config,
    context: Context,
}

/// The parser's state as a mathematical value.
pub struct ParserView {
    pub config: ConfigView,
    pub context: Context,
}

/// What a single line says, once it is well formed.
pub enum LineView {
    /// Empty, whitespace only, or a comment.
    Blank,
    /// A `[name]` header, with the trimmed name.
    Section(Seq<char>),
    /// `key = value`, both trimmed.
    Assign(Seq<char>, Seq<char>),
}

/// The boolean that `v` spells, if any.
pub open spec fn bool_of(v: Seq<char>) -> Option<bool> {
    if v == "true"@ {
        Some(true)
    } else if v == "false"@ {
        Some(false)
    } else {
        None
    }
}

/// A trimmed line read as a section header: `Ok(None)` when it is not one.
pub open spec fn section_of(t: Seq<char>) -> Result<Option<Seq<char>>, ErrorKindView> {
    if t.len() == 0 || t[0] != '[' {
        Ok(None)
    } else if t.len() < 2 || t.last() != ']' {
        Err(ErrorKindView::MissingClosingBracket)
    } else if trim(t.subrange(1, t.len() - 1)).len() == 0 {
        Err(ErrorKindView::EmptySectionName)
    } else {
        Ok(Some(trim(t.subrange(1, t.len() - 1))))
    }
}

/// A trimmed line read as `key = value`, split at the first `=`.
pub open spec fn assignment_of(t: Seq<char>) -> Result<(Seq<char>, Seq<char>), ErrorKindView> {
    match first_index_of(t, '=') {
        None => Err(ErrorKindView::MissingEquals),
        Some(i) => {
            let k = trim(t.subrange(0, i));
            let v = trim(t.subrange(i + 1, t.len() as int));
            if k.len() == 0 {
                Err(ErrorKindView::MissingKey)
            } else if v.len() == 0 {
                Err(ErrorKindView::MissingValue)
            } else {
                Ok((k, v))
            }
        },
    }
}

/// What the line `l` says.
pub open spec fn line_of(l: Seq<char>) -> Result<LineView, ErrorKindView> {
    let t = trim(l);
    if t.len() == 0 || t[0] == '#' {
        Ok(LineView::Blank)
    } else {
        match section_of(t) {
            Err(e) => Err(e),
            Ok(Some(name)) => Ok(LineView::Section(name)),
            Ok(None) => match assignment_of(t) {
                Err(e) => Err(e),
                Ok((k, v)) => Ok(LineView::Assign(k, v)),
            },
        }
    }
}

/// The state before the first line.
pub open spec fn initial_state() -> ParserView {
    ParserView {
        config: ConfigView { debug: false, scopes: Seq::empty() },
        context: Context::NoSection,
    }
}

/// Every process context points at the last scope, the one being filled.
pub open spec fn state_wf(st: ParserView) -> bool {
    match st.context {
        Context::Process(i) => i + 1 == st.config.scopes.len(),
        _ => true,
    }
}

/// The effect of a section header named `name`.
pub open spec fn open_section(st: ParserView, name: Seq<char>) -> ParserView {
    if name == "general"@ {
        ParserView { config: st.config, context: Context::General }
    } else {
        ParserView {
            config: ConfigView {
                debug: st.config.debug,
                scopes: st.config.scopes.push(ScopeView { exe_name: name, libraries: Seq::empty() }),
            },
            context: Context::Process(st.config.scopes.len() as usize),
        }
    }
}

/// The effect of `key = value` inside `[general]`.
pub open spec fn general_param(st: ParserView, k: Seq<char>, v: Seq<char>) -> Result<
    ParserView,
    ErrorKindView,
> {
    if k == "debug"@ {
        match bool_of(v) {
            Some(b) => Ok(
                ParserView {
                    config: ConfigView { debug: b, scopes: st.config.scopes },
                    context: st.context,
                },
            ),
            None => Err(ErrorKindView::InvalidBool(k, v)),
        }
    } else {
        Err(ErrorKindView::UnknownParameter(k))
    }
}

/// `st` with scope `i` replaced by `s`.
pub open spec fn with_scope(st: ParserView, i: int, s: ScopeView) -> ParserView {
    ParserView {
        config: ConfigView { debug: st.config.debug, scopes: st.config.scopes.update(i, s) },
        context: st.context,
    }
}

/// The effect of `key = value` outside `[general]`.
pub open spec fn proc_param(st: ParserView, k: Seq<char>, v: Seq<char>) -> Result<
    ParserView,
    ErrorKindView,
> {
    match st.context {
        Context::Process(i) => {
            let s = st.config.scopes[i as int];
            if k == "load"@ {
                let lib = LibraryView { path: v, allow_init_failure: false };
                Ok(
                    with_scope(
                        st,
                        i as int,
                        ScopeView { exe_name: s.exe_name, libraries: s.libraries.push(lib) },
                    ),
                )
            } else if k == "allow_init_failure"@ {
                if s.libraries.len() == 0 {
                    Err(ErrorKindView::InitFailureWithoutLoad)
                } else {
                    match bool_of(v) {
                        Some(b) => {
                            let last = s.libraries.len() - 1;
                            let lib = LibraryView {
                                path: s.libraries[last].path,
                                allow_init_failure: b,
                            };
                            Ok(
                                with_scope(
                                    st,
                                    i as int,
                                    ScopeView {
                                        exe_name: s.exe_name,
                                        libraries: s.libraries.update(last, lib),
                                    },
                                ),
                            )
                        },
                        None => Err(ErrorKindView::InvalidBool(k, v)),
                    }
                }
            } else {
                Err(ErrorKindView::UnknownParameter(k))
            }
        },
        _ => Err(ErrorKindView::OutsideSection(k)),
    }
}

/// The effect of the line `l` on the state `st`.
pub open spec fn step(st: ParserView, l: Seq<char>) -> Result<ParserView, ErrorKindView> {
    match line_of(l) {
        Err(e) => Err(e),
        Ok(LineView::Blank) => Ok(st),
        Ok(LineView::Section(name)) => Ok(open_section(st, name)),
        Ok(LineView::Assign(k, v)) => match st.context {
            Context::General => general_param(st, k, v),
            _ => proc_param(st, k, v),
        },
    }
}

/// The state after `lines`, starting from `st`, or the first error, with
/// lines numbered from 1.
pub open spec fn run_lines(st: ParserView, lines: Seq<Seq<char>>) -> Result<
    ParserView,
    ParseErrorView,
>
    decreases lines.len(),
{
    if lines.len() == 0 {
        Ok(st)
    } else {
        match run_lines(st, lines.drop_last()) {
            Err(e) => Err(e),
            Ok(s) => match step(s, lines.last()) {
                Ok(s2) => Ok(s2),
                Err(k) => Err(ParseErrorView { line: lines.len(), cause: k }),
            },
        }
    }
}

/// The configuration that the file `lines` describes, or its first error.
pub open spec fn parse_text(lines: Seq<Seq<char>>) -> Result<ConfigView, ParseErrorView> {
    match run_lines(initial_state(), lines) {
        Ok(st) => Ok(st.config),
        Err(e) => Err(e),
    }
}

/// The characters of each line.
pub open spec fn lines_view(lines: Seq<String>) -> Seq<Seq<char>> {
    lines.map_values(|s: String| s@)
}

/// The mathematical value of what `is_section` returns.
pub open spec fn section_result(r: Result<Option<&str>, ParseErrorKind>) -> Result<
    Option<Seq<char>>,
    ErrorKindView,
> {
    match r {
        Ok(Some(n)) => Ok(Some(n@)),
        Ok(None) => Ok(None),
        Err(e) => Err(e@),
    }
}

/// The mathematical value of what `split_assignment` returns.
pub open spec fn assignment_result(r: Result<(&str, &str), ParseErrorKind>) -> Result<
    (Seq<char>, Seq<char>),
    ErrorKindView,
> {
    match r {
        Ok((k, v)) => Ok((k@, v@)),
        Err(e) => Err(e@),
    }
}

/// A step whose outcome `r` moved the state from `before` to `after` did
/// what `expected` says: on success it reached that state, and on failure
/// it reported that error and left the state as it was.
pub open spec fn applied(
    expected: Result<ParserView, ErrorKindView>,
    r: Result<(), ParseErrorKind>,
    before: ParserView,
    after: ParserView,
) -> bool {
    match r {
        Ok(()) => expected == Ok::<ParserView, ErrorKindView>(after),
        Err(e) => expected == Err::<ParserView, ErrorKindView>(e@) && after == before,
    }
}

/// A run over lines whose outcome is `r` and final state `after` did what
/// `expected` says: it reached that state, or it stopped with that error.
pub open spec fn ran(
    expected: Result<ParserView, ParseErrorView>,
    r: Result<(), ParseError>,
    after: ParserView,
) -> bool {
    match r {
        Ok(()) => expected == Ok::<ParserView, ParseErrorView>(after),
        Err(e) => expected == Err::<ParserView, ParseErrorView>(e@),
    }
}

/// The boolean that `v` spells: `true` or `false`, exactly.
pub fn parse_bool(v: &str) -> (r: Option<bool>)
    ensures
        r == bool_of(v@),
{
    if same_text(v, "true") {
        Some(true)
    } else if same_text(v, "false") {
        Some(false)
    } else {
        None
    }
}

/// Splits a trimmed line at its first `=` into a trimmed key and value,
/// both of which must be non-empty.
pub fn split_assignment(line: &str) -> (r: Result<(&str, &str), ParseErrorKind>)
    ensures
        assignment_result(r) == assignment_of(line@),
{
    let cs = chars_of(line);
    match find_char(&cs, '=') {
        None => Err(ParseErrorKind::MissingEquals),
        Some(i) => {
            let key = trim_str(line.substring_char(0, i));
            let value = trim_str(line.substring_char(i + 1, cs.len()));
            if key.unicode_len() == 0 {
                Err(ParseErrorKind::MissingKey)
            } else if value.unicode_len() == 0 {
                Err(ParseErrorKind::MissingValue)
            } else {
                Ok((key, value))
            }
        },
    }
}

impl ConfigParser {
    /// The parser's state as a mathematical value.
    pub closed spec fn view(&self) -> ParserView {
        ParserView { config: self.config@, context: self.context }
    }

    /// The state invariant: a process context points at the last scope.
    pub open spec fn wf(&self) -> bool {
        state_wf(self.view())
    }

    /// A parser that has read nothing yet.
    pub fn new() -> (r: ConfigParser)
        ensures
            r.view() == initial_state(),
            r.wf(),
    {
        ConfigParser { config: Config::new(), context: Context::NoSection }
    }

    /// The configuration read so far.
    pub fn into_config(self) -> (r: Config)
        ensures
            r@ == self.view().config,
    {
        self.config
    }

    /// Reads a trimmed line as a section header: `Ok(None)` when it does
    /// not start with `[`, the trimmed name between the brackets otherwise.
    pub fn is_section(line: &str) -> (r: Result<Option<&str>, ParseErrorKind>)
        ensures
            section_result(r) == section_of(line@),
    {
        let cs = chars_of(line);
        let n = cs.len();
        if n == 0 || cs[0] != '[' {
            return Ok(None);
        }
        if n < 2 || cs[n - 1] != ']' {
            return Err(ParseErrorKind::MissingClosingBracket);
        }
        let name = trim_str(line.substring_char(1, n - 1));
        if name.unicode_len() == 0 {
            return Err(ParseErrorKind::EmptySectionName);
        }
        Ok(Some(name))
    }

    /// Applies `key = value` read inside `[general]`.
    pub fn parse_general_param(&mut self, key: &str, value: &str) -> (r: Result<(), ParseErrorKind>)
        ensures
            applied(
                general_param(old(self).view(), key@, value@),
                r,
                old(self).view(),
                final(self).view(),
            ),
            final(self).wf() == old(self).wf(),
    {
        if same_text(key, "debug") {
            match parse_bool(value) {
                Some(b) => {
                    self.config.debug = b;
                    Ok(())
                },
                None => Err(
                    ParseErrorKind::InvalidBool(String::from_str(key), String::from_str(value)),
                ),
            }
        } else {
            Err(ParseErrorKind::UnknownParameter(String::from_str(key)))
        }
    }

    /// Applies `key = value` read outside `[general]`: `load` adds a
    /// library to the open process scope, `allow_init_failure` sets the
    /// flag of its last library.
    pub fn parse_proc_param(&mut self, key: &str, value: &str) -> (r: Result<(), ParseErrorKind>)
        requires
            old(self).wf(),
        ensures
            applied(proc_param(old(self).view(), key@, value@), r, old(self).view(), final(self).view()),
            final(self).wf(),
    {
        let ghost st = self.view();
        match self.context {
            Context::Process(i) => {
                if same_text(key, "load") {
                    let mut scope = self.config.proc_configs.pop().unwrap();
                    let ghost before = scope;
                    scope.load_libraries.push(
                        LoadConfig { path: String::from_str(value), allow_init_failure: false },
                    );
                    proof {
                        let lib = LibraryView { path: value@, allow_init_failure: false };
                        assert(libraries_view(scope.load_libraries@) =~= libraries_view(
                            before.load_libraries@,
                        ).push(lib));
                    }
                    self.config.proc_configs.push(scope);
                    proof {
                        assert(st.config.scopes[i as int] == before@);
                        assert(scopes_view(self.config.proc_configs@) =~= st.config.scopes.update(
                            i as int,
                            scope@,
                        ));
                    }
                    Ok(())
                } else if same_text(key, "allow_init_failure") {
                    if self.config.proc_configs[i].load_libraries.len() == 0 {
                        return Err(ParseErrorKind::InitFailureWithoutLoad);
                    }
                    match parse_bool(value) {
                        Some(b) => {
                            let mut scope = self.config.proc_configs.pop().unwrap();
                            let ghost before = scope;
                            let mut lib = scope.load_libraries.pop().unwrap();
                            lib.allow_init_failure = b;
                            scope.load_libraries.push(lib);
                            proof {
                                let last = before.load_libraries@.len() - 1;
                                assert(libraries_view(scope.load_libraries@) =~= libraries_view(
                                    before.load_libraries@,
                                ).update(last, lib@));
                            }
                            self.config.proc_configs.push(scope);
                            proof {
                                assert(st.config.scopes[i as int] == before@);
                                assert(scopes_view(self.config.proc_configs@)
                                    =~= st.config.scopes.update(i as int, scope@));
                            }
                            Ok(())
                        },
                        None => Err(
                            ParseErrorKind::InvalidBool(
                                String::from_str(key),
                                String::from_str(value),
                            ),
                        ),
                    }
                } else {
                    Err(ParseErrorKind::UnknownParameter(String::from_str(key)))
                }
            },
            _ => Err(ParseErrorKind::OutsideSection(String::from_str(key))),
        }
    }

    /// Reads one line: a comment or blank line changes nothing, a header
    /// opens a section, and `key = value` is applied to the open section.
    pub fn parse_line(&mut self, line: &str) -> (r: Result<(), ParseErrorKind>)
        requires
            old(self).wf(),
        ensures
            applied(step(old(self).view(), line@), r, old(self).view(), final(self).view()),
            final(self).wf(),
    {
        let ghost st = self.view();
        let t = trim_str(line);
        if t.unicode_len() == 0 || t.get_char(0) == '#' {
            return Ok(());
        }
        match Self::is_section(t) {
            Err(e) => Err(e),
            Ok(Some(name)) => {
                if same_text(name, "general") {
                    self.context = Context::General;
                } else {
                    let n = self.config.proc_configs.len();
                    let scope = ProcConfig { exe_name: String::from_str(name), load_libraries: Vec::new() };
                    assert(scope@.libraries =~= Seq::<LibraryView>::empty());
                    self.config.proc_configs.push(scope);
                    self.context = Context::Process(n);
                    assert(scopes_view(self.config.proc_configs@) =~= st.config.scopes.push(scope@));
                }
                Ok(())
            },
            Ok(None) => match split_assignment(t) {
                Err(e) => Err(e),
                Ok((key, value)) => match self.context {
                    Context::General => self.parse_general_param(key, value),
                    _ => self.parse_proc_param(key, value),
                },
            },
        }
    }

    /// Reads `lines` in order, numbering them from 1, and stops at the
    /// first line that is rejected.
    pub fn parse(&mut self, lines: &Vec<String>) -> (r: Result<(), ParseError>)
        requires
            old(self).wf(),
        ensures
            final(self).wf(),
            ran(run_lines(old(self).view(), lines_view(lines@)), r, final(self).view()),
            r matches Err(e) ==> 1 <= e.line <= lines.len() && run_lines(
                old(self).view(),
                lines_view(lines@).take(e.line - 1),
            ) == Ok::<ParserView, ParseErrorView>(final(self).view()),
    {
        let ghost st = self.view();
        let ghost lv = lines_view(lines@);
        let mut i: usize = 0;
        assert(lv.take(0) =~= Seq::<Seq<char>>::empty());
        while i < lines.len()
            invariant
                i <= lines.len(),
                lv == lines_view(lines@),
                st == old(self).view(),
                self.wf(),
                run_lines(st, lv.take(i as int)) == Ok::<ParserView, ParseErrorView>(self.view()),
            decreases lines.len() - i,
        {
            let ghost before = self.view();
            let res = self.parse_line(lines[i].as_str());
            assert(lv.take(i + 1).drop_last() =~= lv.take(i as int));
            assert(lv.take(i + 1).last() == lines@[i as int]@);
            match res {
                Ok(()) => {},
                Err(cause) => {
                    let e = ParseError { line: i + 1, cause };
                    proof {
                        assert(run_lines(st, lv.take(i + 1)) == Err::<ParserView, ParseErrorView>(
                            e@,
                        ));
                        lemma_error_persists(st, lv, i + 1);
                    }
                    return Err(e);
                },
            }
            i = i + 1;
        }
        assert(lv.take(i as int) =~= lv);
        Ok(())
    }
}

/// Once a prefix of the lines is rejected, the whole file is rejected with
/// the same error: no later line is looked at.
pub proof fn lemma_error_persists(st: ParserView, lines: Seq<Seq<char>>, m: int)
    requires
        0 <= m <= lines.len(),
        run_lines(st, lines.take(m)) is Err,
    ensures
        run_lines(st, lines) == run_lines(st, lines.take(m)),
    decreases lines.len(),
{
    if m < lines.len() {
        assert(lines.drop_last().take(m) =~= lines.take(m));
        lemma_error_persists(st, lines.drop_last(), m);
    } else {
        assert(lines.take(m) =~= lines);
    }
}

/// The mathematical value of a parse result.
pub open spec fn config_result(r: Result<Config, ParseError>) -> Result<ConfigView, ParseErrorView> {
    match r {
        Ok(c) => Ok(c@),
        Err(e) => Err(e@),
    }
}

impl ConfigParser {
    /// The configuration that `lines` describe, or the first line that is
    /// rejected.
    pub fn parse_config(lines: &Vec<String>) -> (r: Result<Config, ParseError>)
        ensures
            config_result(r) == parse_text(lines_view(lines@)),
    {
        let mut parser = ConfigParser::new();
        match parser.parse(lines) {
            Ok(()) => Ok(parser.into_config()),
            Err(e) => Err(e),
        }
    }

    /// The configuration of the default file, given its lines when the file
    /// exists: no file is no configuration, and not an error.
    pub fn parse_default_path(found: Option<&Vec<String>>) -> (r: Result<
        Option<Config>,
        ParseError,
    >)
        ensures
            match found {
                None => r is Ok && r->Ok_0 is None,
                Some(lines) => match r {
                    Ok(Some(c)) => parse_text(lines_view(lines@)) == Ok::<
                        ConfigView,
                        ParseErrorView,
                    >(c@),
                    Ok(None) => false,
                    Err(e) => parse_text(lines_view(lines@)) == Err::<
                        ConfigView,
                        ParseErrorView,
                    >(e@),
                },
            },
    {
        match found {
            None => Ok(None),
            Some(lines) => match Self::parse_config(lines) {
                Ok(c) => Ok(Some(c)),
                Err(e) => Err(e),
            },
        }
    }
}

/// Parsing is a function of the text: the same lines always give the same
/// configuration, or the same error.
pub proof fn parse_is_deterministic(a: Seq<Seq<char>>, b: Seq<Seq<char>>)
    requires
        a == b,
    ensures
        parse_text(a) == parse_text(b),
{
}

/// The open section is a process scope that has no library yet.
pub open spec fn open_scope_has_no_load(st: ParserView) -> bool {
    match st.context {
        Context::Process(i) => st.config.scopes[i as int].libraries.len() == 0,
        _ => false,
    }
}

/// `allow_init_failure` in a process scope with no `load` before it is
/// rejected at its own line, whatever its value and whatever follows.
pub proof fn allow_init_failure_needs_load(lines: Seq<Seq<char>>, n: int, v: Seq<char>)
    requires
        0 <= n < lines.len(),
        run_lines(initial_state(), lines.take(n)) is Ok,
        open_scope_has_no_load(run_lines(initial_state(), lines.take(n))->Ok_0),
        line_of(lines[n]) == Ok::<LineView, ErrorKindView>(
            LineView::Assign("allow_init_failure"@, v),
        ),
    ensures
        parse_text(lines) == Err::<ConfigView, ParseErrorView>(
            ParseErrorView { line: (n + 1) as nat, cause: ErrorKindView::InitFailureWithoutLoad },
        ),
{
    reveal_strlit("load");
    reveal_strlit("allow_init_failure");
    assert("load"@.len() != "allow_init_failure"@.len());
    assert(lines.take(n + 1).drop_last() =~= lines.take(n));
    assert(lines.take(n + 1).last() == lines[n]);
    lemma_error_persists(initial_state(), lines, n + 1);
}

/// Before any header, each line either changes nothing or is rejected.
proof fn lemma_no_header_yet(lines: Seq<Seq<char>>, n: int)
    requires
        0 <= n <= lines.len(),
        forall|j: int| 0 <= j < n ==> !(#[trigger] line_of(lines[j]) matches Ok(LineView::Section(_))),
    ensures
        run_lines(initial_state(), lines.take(n)) is Err || run_lines(initial_state(), lines.take(n))
            == Ok::<ParserView, ParseErrorView>(initial_state()),
        (forall|j: int| 0 <= j < n ==> #[trigger] line_of(lines[j]) == Ok::<LineView, ErrorKindView>(LineView::Blank))
            ==> run_lines(initial_state(), lines.take(n)) == Ok::<ParserView, ParseErrorView>(initial_state()),
    decreases n,
{
    if n == 0 {
        assert(lines.take(0) =~= Seq::<Seq<char>>::empty());
    } else {
        lemma_no_header_yet(lines, n - 1);
        assert(lines.take(n).drop_last() =~= lines.take(n - 1));
        assert(lines.take(n).last() == lines[n - 1]);
        assert(!(line_of(lines[n - 1]) matches Ok(LineView::Section(_))));
    }
}

/// A `load` line before any section header is rejected: at its own line
/// when only blank lines and comments come before it.
pub proof fn load_before_any_section_is_rejected(lines: Seq<Seq<char>>, n: int, v: Seq<char>)
    requires
        0 <= n < lines.len(),
        forall|j: int| 0 <= j < n ==> !(#[trigger] line_of(lines[j]) matches Ok(LineView::Section(_))),
        line_of(lines[n]) == Ok::<LineView, ErrorKindView>(LineView::Assign("load"@, v)),
    ensures
        parse_text(lines) is Err,
        (forall|j: int| 0 <= j < n ==> #[trigger] line_of(lines[j]) == Ok::<LineView, ErrorKindView>(LineView::Blank))
            ==> parse_text(lines) == Err::<ConfigView, ParseErrorView>(
            ParseErrorView { line: (n + 1) as nat, cause: ErrorKindView::OutsideSection("load"@) },
        ),
{
    lemma_no_header_yet(lines, n);
    assert(lines.take(n + 1).drop_last() =~= lines.take(n));
    assert(lines.take(n + 1).last() == lines[n]);
    if run_lines(initial_state(), lines.take(n)) is Err {
        lemma_error_persists(initial_state(), lines, n);
    } else {
        lemma_error_persists(initial_state(), lines, n + 1);
    }
}

/// Whether the section `ctx` knows the key `k`.
pub open spec fn known_key(ctx: Context, k: Seq<char>) -> bool {
    match ctx {
        Context::NoSection => false,
        Context::General => k == "debug"@,
        Context::Process(_) => k == "load"@ || k == "allow_init_failure"@,
    }
}

/// The error for a key that the section `ctx` does not know.
pub open spec fn unknown_key_error(ctx: Context, k: Seq<char>) -> ErrorKindView {
    match ctx {
        Context::NoSection => ErrorKindView::OutsideSection(k),
        _ => ErrorKindView::UnknownParameter(k),
    }
}

/// A key that the open section does not know is rejected at its own line,
/// with an error that names it; it is never skipped.
pub proof fn unknown_key_is_rejected(lines: Seq<Seq<char>>, n: int, k: Seq<char>, v: Seq<char>)
    requires
        0 <= n < lines.len(),
        run_lines(initial_state(), lines.take(n)) is Ok,
        !known_key(run_lines(initial_state(), lines.take(n))->Ok_0.context, k),
        line_of(lines[n]) == Ok::<LineView, ErrorKindView>(LineView::Assign(k, v)),
    ensures
        parse_text(lines) == Err::<ConfigView, ParseErrorView>(
            ParseErrorView {
                line: (n + 1) as nat,
                cause: unknown_key_error(run_lines(initial_state(), lines.take(n))->Ok_0.context, k),
            },
        ),
{
    assert(lines.take(n + 1).drop_last() =~= lines.take(n));
    assert(lines.take(n + 1).last() == lines[n]);
    lemma_error_persists(initial_state(), lines, n + 1);
}

/// The human-readable cause of a rejected line.
pub open spec fn cause_text(e: ErrorKindView) -> Seq<char> {
    match e {
        ErrorKindView::MissingClosingBracket => "section header is missing its closing bracket"@,
        ErrorKindView::EmptySectionName => "section name is empty"@,
        ErrorKindView::MissingEquals => "expected 'key = value'"@,
        ErrorKindView::MissingKey => "missing parameter name"@,
        ErrorKindView::MissingValue => "missing value"@,
        ErrorKindView::OutsideSection(k) => "parameter '"@ + k
            + "' must be declared inside a section"@,
        ErrorKindView::UnknownParameter(k) => "unknown parameter: '"@ + k + "'"@,
        ErrorKindView::InitFailureWithoutLoad => "'allow_init_failure' must appear after 'load'"@,
        ErrorKindView::InvalidBool(k, v) => "failed to parse '"@ + k + "' value - '"@ + v
            + "' is neither true nor false"@,
    }
}

/// The message for a rejected line: its number, then the cause.
pub open spec fn error_text(e: ParseErrorView) -> Seq<char> {
    "line "@ + decimal(e.line) + ": "@ + cause_text(e.cause)
}

impl ParseErrorKind {
    /// The cause, in words.
    pub fn to_string(&self) -> (r: String)
        ensures
            r@ == cause_text(self@),
    {
        match self {
            ParseErrorKind::MissingClosingBracket => String::from_str(
                "section header is missing its closing bracket",
            ),
            ParseErrorKind::EmptySectionName => String::from_str("section name is empty"),
            ParseErrorKind::MissingEquals => String::from_str("expected 'key = value'"),
            ParseErrorKind::MissingKey => String::from_str("missing parameter name"),
            ParseErrorKind::MissingValue => String::from_str("missing value"),
            ParseErrorKind::OutsideSection(k) => String::from_str("parameter '").concat(
                k.as_str(),
            ).concat("' must be declared inside a section"),
            ParseErrorKind::UnknownParameter(k) => String::from_str("unknown parameter: '").concat(
                k.as_str(),
            ).concat("'"),
            ParseErrorKind::InitFailureWithoutLoad => String::from_str(
                "'allow_init_failure' must appear after 'load'",
            ),
            ParseErrorKind::InvalidBool(k, v) => String::from_str("failed to parse '").concat(
                k.as_str(),
            ).concat("' value - '").concat(v.as_str()).concat("' is neither true nor false"),
        }
    }
}

impl ParseError {
    /// The message: `line <n>: <cause>`.
    pub fn to_string(&self) -> (r: String)
        ensures
            r@ == error_text(self@),
    {
        let cause = self.cause.to_string();
        String::from_str("line ").concat(decimal_string(self.line).as_str()).concat(": ").concat(
            cause.as_str(),
        )
    }
}

} // verus!
