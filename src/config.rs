//! The configuration model: global settings and, in file order, the
//! libraries to load for each process.
use vstd::prelude::*;

verus! {

/// One library entry of a process scope, as a mathematical value.
pub struct LibraryView {
    pub path: Seq<char>,
    pub allow_init_failure: bool,
}

/// One process scope, as a mathematical value.
pub struct ScopeView {
    pub exe_name: Seq<char>,
    pub libraries: Seq<LibraryView>,
}

/// A whole configuration, as a mathematical value.
pub struct ConfigView {
    pub debug: bool,
    pub scopes: Seq<ScopeView>,
}

/// A library to load, and whether a declined initialisation is tolerated.
#[derive(Debug, PartialEq, Eq)]
pub struct LoadConfig {
    pub path: String,
    pub allow_init_failure: bool,
}

/// The libraries to load, in order, into processes whose executable is
/// named `exe_name`.
#[derive(Debug, PartialEq, Eq)]
pub struct ProcConfig {
    pub exe_name: String,
    pub load_libraries: Vec<LoadConfig>,
}

/// Global settings and the process scopes in declaration order.
#[derive(Debug, PartialEq, Eq)]
pub struct Config {
    pub debug: bool,
    pub proc_configs: Vec<ProcConfig>,
}

impl View for LoadConfig {
    type V = LibraryView;

    open spec fn view(&self) -> LibraryView {
        LibraryView { path: self.path@, allow_init_failure: self.allow_init_failure }
    }
}

/// The mathematical values of a list of library entries.
pub open spec fn libraries_view(v: Seq<LoadConfig>) -> Seq<LibraryView> {
    v.map_values(|l: LoadConfig| l@)
}

impl View for ProcConfig {
    type V = ScopeView;

    open spec fn view(&self) -> ScopeView {
        ScopeView { exe_name: self.exe_name@, libraries: libraries_view(self.load_libraries@) }
    }
}

/// The mathematical values of a list of process scopes.
pub open spec fn scopes_view(v: Seq<ProcConfig>) -> Seq<ScopeView> {
    v.map_values(|p: ProcConfig| p@)
}

impl View for Config {
    type V = ConfigView;

    open spec fn view(&self) -> ConfigView {
        ConfigView { debug: self.debug, scopes: scopes_view(self.proc_configs@) }
    }
}

/// `i` is the first scope whose executable name is `exe_name`.
pub open spec fn is_first_scope_for(scopes: Seq<ScopeView>, exe_name: Seq<char>, i: int) -> bool {
    &&& 0 <= i < scopes.len()
    &&& scopes[i].exe_name == exe_name
    &&& forall|j: int| 0 <= j < i ==> scopes[j].exe_name != exe_name
}

/// The scope that applies to the executable `exe_name`: the first one
/// declared for that exact name, if any.
pub open spec fn scope_for(c: ConfigView, exe_name: Seq<char>) -> Option<ScopeView> {
    if exists|i: int| is_first_scope_for(c.scopes, exe_name, i) {
        Some(c.scopes[choose|i: int| is_first_scope_for(c.scopes, exe_name, i)])
    } else {
        None
    }
}

impl Config {
    /// A configuration with debugging off and no process scope.
    pub fn new() -> (r: Config)
        ensures
            r@ == (ConfigView { debug: false, scopes: Seq::empty() }),
    {
        let r = Config { debug: false, proc_configs: Vec::new() };
        assert(r@.scopes =~= Seq::<ScopeView>::empty());
        r
    }

    /// The scope for the executable `exe_name` (case-sensitive, extension
    /// included): the first declared for it. Later scopes of the same name
    /// are never used.
    pub fn proc_config_for_exe(self, exe_name: &str) -> (r: Option<ProcConfig>)
        ensures
            match r {
                Some(p) => scope_for(self@, exe_name@) == Some(p@),
                None => scope_for(self@, exe_name@) is None,
            },
    {
        let ghost c = self@;
        let ghost scopes = c.scopes;
        let mut configs = self.proc_configs;
        let mut i: usize = 0;
        while i < configs.len()
            invariant
                i <= configs.len(),
                scopes == scopes_view(configs@),
                c == self@,
                scopes == c.scopes,
                forall|j: int| 0 <= j < i ==> scopes[j].exe_name != exe_name@,
            decreases configs.len() - i,
        {
            if crate::text::same_text(configs[i].exe_name.as_str(), exe_name) {
                proof {
                    assert(scopes[i as int] == configs@[i as int]@);
                    assert(is_first_scope_for(scopes, exe_name@, i as int));
                    let k = choose|k: int| is_first_scope_for(scopes, exe_name@, k);
                    if k < i {
                        assert(scopes[k].exe_name != exe_name@);
                    } else if i < k {
                        assert(scopes[i as int].exe_name != exe_name@);
                    }
                    assert(scope_for(c, exe_name@) == Some(scopes[i as int]));
                }
                let found = configs.remove(i);
                return Some(found);
            }
            i = i + 1;
        }
        assert(!exists|k: int| is_first_scope_for(scopes, exe_name@, k));
        None
    }
}

/// `true` or `false`, spelled out.
pub open spec fn bool_text(b: bool) -> Seq<char> {
    if b {
        "true"@
    } else {
        "false"@
    }
}

/// The text of one library entry.
pub open spec fn library_text(l: LibraryView) -> Seq<char> {
    "path = '"@ + l.path + "'\r\n"@ + "allow_init_failure = "@ + bool_text(l.allow_init_failure)
}

/// The texts of `libs`, each followed by a line break.
pub open spec fn libraries_text(libs: Seq<LibraryView>) -> Seq<char>
    decreases libs.len(),
{
    if libs.len() == 0 {
        Seq::empty()
    } else {
        libraries_text(libs.drop_last()) + library_text(libs.last()) + "\r\n"@
    }
}

/// The text of one process scope: its header, then its libraries.
pub open spec fn scope_text(s: ScopeView) -> Seq<char> {
    "["@ + s.exe_name + "]\r\n"@ + libraries_text(s.libraries)
}

/// The texts of `scopes`, each after a line break.
pub open spec fn scopes_text(scopes: Seq<ScopeView>) -> Seq<char>
    decreases scopes.len(),
{
    if scopes.len() == 0 {
        Seq::empty()
    } else {
        scopes_text(scopes.drop_last()) + "\r\n"@ + scope_text(scopes.last())
    }
}

/// The text of a configuration: the general settings, then each scope.
pub open spec fn config_text(c: ConfigView) -> Seq<char> {
    "[general]\r\n"@ + "debug = "@ + bool_text(c.debug) + "\r\n"@ + scopes_text(c.scopes)
}

/// `true` or `false`, spelled out.
pub fn bool_to_str(b: bool) -> (r: &'static str)
    ensures
        r@ == bool_text(b),
{
    if b {
        "true"
    } else {
        "false"
    }
}

impl LoadConfig {
    /// The entry as text: its path, then its flag.
    pub fn to_string(&self) -> (r: String)
        ensures
            r@ == library_text(self@),
    {
        let r = String::from_str("path = '").concat(self.path.as_str()).concat("'\r\n").concat(
            "allow_init_failure = ",
        ).concat(bool_to_str(self.allow_init_failure));
        r
    }
}

impl ProcConfig {
    /// The scope as text: its header, then each library on its own lines.
    pub fn to_string(&self) -> (r: String)
        ensures
            r@ == scope_text(self@),
    {
        let mut out = String::from_str("[").concat(self.exe_name.as_str()).concat("]\r\n");
        let ghost head = out@;
        let ghost libs = self@.libraries;
        let mut i: usize = 0;
        assert(libs.take(0) =~= Seq::<LibraryView>::empty());
        while i < self.load_libraries.len()
            invariant
                i <= self.load_libraries.len(),
                libs == libraries_view(self.load_libraries@),
                head == "["@ + self.exe_name@ + "]\r\n"@,
                out@ == head + libraries_text(libs.take(i as int)),
            decreases self.load_libraries.len() - i,
        {
            let item = self.load_libraries[i].to_string();
            out.append(item.as_str());
            out.append("\r\n");
            assert(libs.take(i + 1).drop_last() =~= libs.take(i as int));
            assert(libs.take(i + 1).last() == self.load_libraries@[i as int]@);
            assert(out@ =~= head + libraries_text(libs.take(i + 1)));
            i = i + 1;
        }
        assert(libs.take(i as int) =~= libs);
        out
    }
}

impl Config {
    /// The configuration as text, in the file's own format.
    pub fn to_string(&self) -> (r: String)
        ensures
            r@ == config_text(self@),
    {
        let mut out = String::from_str("[general]\r\n").concat("debug = ").concat(
            bool_to_str(self.debug),
        ).concat("\r\n");
        let ghost head = out@;
        let ghost scopes = self@.scopes;
        let mut i: usize = 0;
        assert(scopes.take(0) =~= Seq::<ScopeView>::empty());
        while i < self.proc_configs.len()
            invariant
                i <= self.proc_configs.len(),
                scopes == scopes_view(self.proc_configs@),
                head == "[general]\r\n"@ + "debug = "@ + bool_text(self.debug) + "\r\n"@,
                out@ == head + scopes_text(scopes.take(i as int)),
            decreases self.proc_configs.len() - i,
        {
            let item = self.proc_configs[i].to_string();
            out.append("\r\n");
            out.append(item.as_str());
            assert(scopes.take(i + 1).drop_last() =~= scopes.take(i as int));
            assert(scopes.take(i + 1).last() == self.proc_configs@[i as int]@);
            assert(out@ =~= head + scopes_text(scopes.take(i + 1)));
            i = i + 1;
        }
        assert(scopes.take(i as int) =~= scopes);
        out
    }
}

} // verus!
