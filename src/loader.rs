//! The load policy: which library of a process scope to load next, which
//! failures to tolerate, and when to stop. The loading itself happens
//! outside; each outcome is handed back as a `LoadEvent`.
use vstd::prelude::*;

use crate::config::{libraries_view, LibraryView, LoadConfig, ProcConfig};

verus! {

/// The platform code for a library whose own initialisation declined to
/// complete (`ERROR_DLL_INIT_FAILED`).
pub const INIT_DECLINED: i32 = 1114;

/// The outcome of one attempt to load a library.
#[derive(Clone, Copy, PartialEq, Eq, Structural, Debug)]
pub enum LoadEvent {
    /// The library is loaded.
    Loaded,
    /// Loading failed with this platform error code.
    Failed(i32),
}

/// Where a run over a library list stands, as a mathematical value.
pub enum RunState {
    /// The library with this index is to be loaded next.
    Running(nat),
    /// Every library was loaded or its failure tolerated.
    Finished,
    /// The library with this index failed with this code, and nothing
    /// after it is attempted.
    Aborted(nat, i32),
}

/// A failure of `lib` with `code` that the run goes past.
pub open spec fn tolerated(lib: LibraryView, code: i32) -> bool {
    lib.allow_init_failure && code == INIT_DECLINED
}

/// The state that is due when the library with index `k` comes next.
pub open spec fn advance(libs: Seq<LibraryView>, k: nat) -> RunState {
    if k < libs.len() {
        RunState::Running(k)
    } else {
        RunState::Finished
    }
}

/// Where a run over `libs` stands after the outcomes `events` of its
/// attempts, in order. Outcomes after the run has ended change nothing.
pub open spec fn run_loads(libs: Seq<LibraryView>, events: Seq<LoadEvent>) -> RunState
    decreases events.len(),
{
    if events.len() == 0 {
        advance(libs, 0)
    } else {
        match run_loads(libs, events.drop_last()) {
            RunState::Running(i) => match events.last() {
                LoadEvent::Loaded => advance(libs, i + 1),
                LoadEvent::Failed(c) => if tolerated(libs[i as int], c) {
                    advance(libs, i + 1)
                } else {
                    RunState::Aborted(i, c)
                },
            },
            other => other,
        }
    }
}

/// A library that could not be loaded, and the platform's code for why.
#[derive(Debug, PartialEq, Eq)]
pub struct LoadError {
    pub path: String,
    pub platform_code: i32,
}

/// What the caller is to do next.
#[derive(Debug, PartialEq, Eq)]
pub enum LoadAction {
    /// Load the library at this path and report the outcome.
    Load(String),
    /// Nothing is left to load.
    Done,
    /// Stop, and report this failure.
    Abort(LoadError),
}

/// `LoadAction` as a mathematical value.
pub enum ActionView {
    Load(Seq<char>),
    Done,
    Abort(Seq<char>, i32),
}

impl View for LoadAction {
    type V = ActionView;

    open spec fn view(&self) -> ActionView {
        match self {
            LoadAction::Load(p) => ActionView::Load(p@),
            LoadAction::Done => ActionView::Done,
            LoadAction::Abort(e) => ActionView::Abort(e.path@, e.platform_code),
        }
    }
}

/// The action that the state `s` of a run over `libs` calls for.
pub open spec fn action_for(libs: Seq<LibraryView>, s: RunState) -> ActionView {
    match s {
        RunState::Running(i) => ActionView::Load(libs[i as int].path),
        RunState::Finished => ActionView::Done,
        RunState::Aborted(i, c) => ActionView::Abort(libs[i as int].path, c),
    }
}

/// Where a session stands, in executable form.
#[derive(Clone, Copy, PartialEq, Eq, Structural, Debug)]
enum Progress {
    Running(usize),
    Finished,
    Aborted(usize, i32),
}

/// One run over the library list of a process scope.
pub struct LoadSession {
    libraries: Vec<LoadConfig>,
    progress: Progress,
    events: Ghost<Seq<LoadEvent>>,
}

impl LoadSession {
    /// The libraries of the run, in order.
    pub closed spec fn libraries(&self) -> Seq<LibraryView> {
        libraries_view(self.libraries@)
    }

    /// The outcomes reported so far, in order.
    pub closed spec fn events(&self) -> Seq<LoadEvent> {
        self.events@
    }

    /// Where the run stands.
    pub open spec fn state(&self) -> RunState {
        run_loads(self.libraries(), self.events())
    }

    /// The executable progress agrees with the outcomes reported so far.
    pub closed spec fn wf(&self) -> bool {
        match self.progress {
            Progress::Running(i) => i < self.libraries.len() && self.state() == RunState::Running(
                i as nat,
            ),
            Progress::Finished => self.state() == RunState::Finished,
            Progress::Aborted(i, c) => i < self.libraries.len() && self.state()
                == RunState::Aborted(i as nat, c),
        }
    }

    /// A run over the libraries of `scope`, in declared order.
    pub fn new(scope: ProcConfig) -> (r: LoadSession)
        ensures
            r.wf(),
            r.libraries() == scope@.libraries,
            r.events() == Seq::<LoadEvent>::empty(),
    {
        let libraries = scope.load_libraries;
        let progress = if libraries.len() > 0 {
            Progress::Running(0)
        } else {
            Progress::Finished
        };
        LoadSession { libraries, progress, events: Ghost(Seq::empty()) }
    }

    /// What to do now: load the next library, stop because all is done, or
    /// stop and report a failure.
    pub fn action(&self) -> (r: LoadAction)
        requires
            self.wf(),
        ensures
            r@ == action_for(self.libraries(), self.state()),
    {
        proof {
            match self.progress {
                Progress::Running(i) => {
                    assert(self.libraries()[i as int] == self.libraries@[i as int]@);
                },
                Progress::Aborted(i, _) => {
                    assert(self.libraries()[i as int] == self.libraries@[i as int]@);
                },
                _ => {},
            }
        }
        match self.progress {
            Progress::Running(i) => LoadAction::Load(self.libraries[i].path.clone()),
            Progress::Finished => LoadAction::Done,
            Progress::Aborted(i, c) => LoadAction::Abort(
                LoadError { path: self.libraries[i].path.clone(), platform_code: c },
            ),
        }
    }

    /// Takes the outcome of the load that `action` asked for, and returns
    /// what to do next. Once the run has ended an outcome changes nothing.
    pub fn step(&mut self, event: LoadEvent) -> (r: LoadAction)
        requires
            old(self).wf(),
        ensures
            final(self).wf(),
            final(self).libraries() == old(self).libraries(),
            old(self).state() is Running ==> final(self).events() == old(self).events().push(event),
            !(old(self).state() is Running) ==> final(self).events() == old(self).events(),
            r@ == action_for(final(self).libraries(), final(self).state()),
    {
        match self.progress {
            Progress::Running(i) => {
                let ghost evs = self.events@.push(event);
                assert(evs.drop_last() =~= self.events@);
                assert(self.libraries()[i as int] == self.libraries@[i as int]@);
                let next = match event {
                    LoadEvent::Loaded => None,
                    LoadEvent::Failed(c) => {
                        if self.libraries[i].allow_init_failure && c == INIT_DECLINED {
                            None
                        } else {
                            Some(c)
                        }
                    },
                };
                self.progress = match next {
                    None => if i + 1 < self.libraries.len() {
                        Progress::Running(i + 1)
                    } else {
                        Progress::Finished
                    },
                    Some(c) => Progress::Aborted(i, c),
                };
                self.events = Ghost(evs);
            },
            _ => {},
        }
        self.action()
    }
}

/// While a run goes on, the library due next is the one whose index is the
/// number of outcomes so far: libraries are tried in order, none twice.
pub proof fn each_library_is_tried_once(libs: Seq<LibraryView>, events: Seq<LoadEvent>)
    ensures
        run_loads(libs, events) is Running ==> run_loads(libs, events)->Running_0
            == events.len(),
    decreases events.len(),
{
    if events.len() > 0 {
        each_library_is_tried_once(libs, events.drop_last());
    }
}

/// Once a run has finished or stopped, later outcomes change nothing: no
/// library is attempted after it.
pub proof fn ended_run_stays_ended(libs: Seq<LibraryView>, events: Seq<LoadEvent>, m: int)
    requires
        0 <= m <= events.len(),
        !(run_loads(libs, events.take(m)) is Running),
    ensures
        run_loads(libs, events) == run_loads(libs, events.take(m)),
    decreases events.len(),
{
    if m < events.len() {
        assert(events.drop_last().take(m) =~= events.take(m));
        ended_run_stays_ended(libs, events.drop_last(), m);
    } else {
        assert(events.take(m) =~= events);
    }
}

/// With a first library loaded, a second that tolerates a declined
/// initialisation and declines it, and a third that does not tolerate
/// failure and fails: the second is skipped and not tried again, the third
/// is attempted, and the run stops there with the third's failure, whatever
/// libraries or outcomes follow.
pub proof fn declined_init_is_skipped_until_a_fatal_failure(
    libs: Seq<LibraryView>,
    events: Seq<LoadEvent>,
    code: i32,
)
    requires
        libs.len() >= 3,
        !libs[0].allow_init_failure,
        libs[1].allow_init_failure,
        !libs[2].allow_init_failure,
        events.len() >= 3,
        events[0] == LoadEvent::Loaded,
        events[1] == LoadEvent::Failed(INIT_DECLINED),
        events[2] == LoadEvent::Failed(code),
    ensures
        run_loads(libs, events.take(1)) == RunState::Running(1),
        run_loads(libs, events.take(2)) == RunState::Running(2),
        forall|n: int| 3 <= n <= events.len() ==> #[trigger] run_loads(libs, events.take(n))
            == RunState::Aborted(2, code),
{
    assert(events.take(1).drop_last() =~= events.take(0));
    assert(events.take(2).drop_last() =~= events.take(1));
    assert(events.take(3).drop_last() =~= events.take(2));
    assert(events.take(0) =~= Seq::<LoadEvent>::empty());
    assert(run_loads(libs, events.take(0)) == RunState::Running(0));
    assert(events.take(1).last() == events[0]);
    assert(run_loads(libs, events.take(1)) == RunState::Running(1));
    assert(events.take(2).last() == events[1]);
    assert(run_loads(libs, events.take(2)) == RunState::Running(2));
    assert(events.take(3).last() == events[2]);
    assert(run_loads(libs, events.take(3)) == RunState::Aborted(2, code));
    assert forall|n: int| 3 <= n <= events.len() implies #[trigger] run_loads(libs, events.take(n))
        == RunState::Aborted(2, code) by {
        assert(events.take(n).take(3) =~= events.take(3));
        ended_run_stays_ended(libs, events.take(n), 3);
    }
}

/// A first library whose failure is not tolerated, because it does not
/// allow one or because the code is not a declined initialisation, stops
/// the run at once: nothing after it is attempted.
pub proof fn untolerated_failure_stops_the_run(
    libs: Seq<LibraryView>,
    events: Seq<LoadEvent>,
    code: i32,
)
    requires
        libs.len() >= 1,
        !tolerated(libs[0], code),
        events.len() >= 1,
        events[0] == LoadEvent::Failed(code),
    ensures
        forall|n: int| 1 <= n <= events.len() ==> #[trigger] run_loads(libs, events.take(n))
            == RunState::Aborted(0, code),
{
    assert(events.take(1).drop_last() =~= events.take(0));
    assert(events.take(0) =~= Seq::<LoadEvent>::empty());
    assert(run_loads(libs, events.take(0)) == RunState::Running(0));
    assert(events.take(1).last() == events[0]);
    assert(run_loads(libs, events.take(1)) == RunState::Aborted(0, code));
    assert forall|n: int| 1 <= n <= events.len() implies #[trigger] run_loads(libs, events.take(n))
        == RunState::Aborted(0, code) by {
        assert(events.take(n).take(1) =~= events.take(1));
        ended_run_stays_ended(libs, events.take(n), 1);
    }
}

} // verus!
