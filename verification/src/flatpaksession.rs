//! The session supervisor. A session is one launch of the sandbox front-end,
//! followed from the launch to the end of the sandboxed workload and the
//! cleanup after it. The supervisor decides; the caller acts: it performs the
//! action the session asks for and reports what happened as an event, until
//! the session asks it to finish.

use vstd::prelude::*;
use crate::error::{Error, ErrorView, Result};
use crate::locator::{
    InstanceEntry, InstanceEntryView, MSG_NO_INSTANCE, child_pid_of, find_instance, first_match,
    instance_views, parse_child_pid, run_dir_text, sandbox_run_dir,
};
use crate::registry::{is_last_session, registry_dir, registry_dir_text, sole_session};
use crate::text::{decimal, u32_to_string};
use crate::util::{
    POLL_INTERVAL_SECONDS, ProcEntry, ProcEntryView, find_named_process_pids, named_pids,
    probe_says_alive, proc_views, process_alive, sigterm, termination_signal,
};

verus! {

/// The command that launches the sandbox front-end.
pub const CMD_FLATPAK: &'static str = "flatpak";

/// Executable name of the session helper daemon.
pub const PROC_SESSION_HELPER: &'static str = "flatpak-session-helper";

/// Executable name of the portal daemon.
pub const PROC_PORTAL: &'static str = "flatpak-portal";

/// Message of the failure when the launcher could not be started.
pub const MSG_LAUNCH_FAILED: &'static str =
    "Failed to create session. Your flatpak application didn't launch successfully!";

/// The shared daemons that the last session terminates, in the order in
/// which it deals with them.
#[derive(Clone, Copy, Debug, PartialEq, Eq, Structural)]
pub enum Daemon {
    SessionHelper,
    Portal,
}

impl Daemon {
    /// The daemon's executable name.
    pub open spec fn name_text(self) -> Seq<char> {
        match self {
            Daemon::SessionHelper => PROC_SESSION_HELPER@,
            Daemon::Portal => PROC_PORTAL@,
        }
    }

    /// The daemon's executable name.
    pub fn name(self) -> (name: &'static str)
        ensures
            name@ == self.name_text(),
    {
        match self {
            Daemon::SessionHelper => PROC_SESSION_HELPER,
            Daemon::Portal => PROC_PORTAL,
        }
    }
}

/// Where a session stands: for each phase, the one action whose outcome the
/// session is waiting for.
#[derive(Clone, Copy, Debug, PartialEq, Eq, Structural)]
pub enum Phase {
    /// The launcher is being started.
    Launching,
    /// The session's entry is being put into the registry.
    Registering,
    /// The launcher runs; its exit is awaited.
    AwaitingLauncher,
    /// The sandbox runtime directory is being listed.
    Locating,
    /// The descriptor of the matching instance is being read.
    ReadingDescriptor { index: usize },
    /// The workload is being probed.
    Probing { pid: i32 },
    /// The workload was alive; the poll interval is passing.
    Sleeping { pid: i32 },
    /// The registry's entries are being counted.
    Counting,
    /// The processes are being listed, in search of a daemon.
    Scanning { daemon: Daemon },
    /// The daemon's processes are being terminated, one after another.
    Signalling { daemon: Daemon, next: usize },
    /// The session's entry is being taken out of the registry.
    Deregistering,
    /// Nothing is left to do.
    Finished,
}

/// What the session asks its caller to do next.
#[derive(Clone, Copy, Debug, PartialEq, Eq, Structural)]
pub enum Action {
    /// Start the launcher with the forwarded arguments.
    Launch,
    /// Create the registry directory if it is missing, and in it an empty
    /// file named by the launcher's process id.
    Register,
    /// Wait until the launcher has exited.
    WaitLauncher,
    /// List the sandbox runtime directory.
    ListInstances,
    /// Read the descriptor in the listed entry at `index`.
    ReadDescriptor { index: usize },
    /// Probe the process `pid` with signal zero.
    Probe { pid: i32 },
    /// Sleep for the given number of seconds.
    Sleep { seconds: u64 },
    /// Count the entries of the registry directory.
    CountRegistry,
    /// List the process file system, in search of `daemon`.
    FindProcesses { daemon: Daemon },
    /// Send `signal` to the process `pid`.
    Signal { pid: i32, signal: i32 },
    /// Remove the session's file from the registry directory.
    Deregister,
    /// Stop, and report the session's outcome.
    Finish,
}

/// What the caller reports back after an action.
#[derive(Debug)]
pub enum Event {
    /// The launcher has started, as the process `pid`.
    Launched { pid: u32 },
    /// The launcher has exited, with this exit code, or with none where a
    /// signal ended it.
    Exited { code: Option<i32> },
    /// The action succeeded, and there is nothing to report of it.
    Done,
    /// The action failed in the operating system, with this message.
    Failed { message: String },
    /// The entries of the sandbox runtime directory.
    Instances { instances: Vec<InstanceEntry> },
    /// The text of the descriptor.
    Descriptor { text: String },
    /// The status that the probe returned.
    Probed { status: i32 },
    /// The number of entries in the registry directory.
    Counted { entries: usize },
    /// The entries of the process file system.
    Processes { processes: Vec<ProcEntry> },
}

/// What an [`Event`] says.
pub enum EventView {
    Launched { pid: u32 },
    Exited { code: Option<i32> },
    Done,
    Failed { message: Seq<char> },
    Instances { instances: Seq<InstanceEntryView> },
    Descriptor { text: Seq<char> },
    Probed { status: i32 },
    Counted { entries: usize },
    Processes { processes: Seq<ProcEntryView> },
}

impl View for Event {
    type V = EventView;

    open spec fn view(&self) -> EventView {
        match self {
            Event::Launched { pid } => EventView::Launched { pid: *pid },
            Event::Exited { code } => EventView::Exited { code: *code },
            Event::Done => EventView::Done,
            Event::Failed { message } => EventView::Failed { message: message@ },
            Event::Instances { instances } => EventView::Instances {
                instances: instance_views(instances@),
            },
            Event::Descriptor { text } => EventView::Descriptor { text: text@ },
            Event::Probed { status } => EventView::Probed { status: *status },
            Event::Counted { entries } => EventView::Counted { entries: *entries },
            Event::Processes { processes } => EventView::Processes {
                processes: proc_views(processes@),
            },
        }
    }
}

impl EventView {
    /// Whether the event reports the end of an action of which only success
    /// or failure is known.
    pub open spec fn is_plain_end(self) -> bool {
        self is Done || self is Failed
    }
}

/// One supervised session.
pub struct FlatpakSession {
    uid: String,
    tmp_dir: String,
    child_pid: String,
    phase: Phase,
    targets: Vec<i32>,
    failure: Option<Error>,
}

/// What a [`FlatpakSession`] holds.
pub struct SessionView {
    /// The user's numeric identity, in decimal.
    pub uid: Seq<char>,
    /// The path of the registry directory.
    pub tmp_dir: Seq<char>,
    /// The launcher's process id, in decimal; empty before the launch.
    pub child_pid: Seq<char>,
    /// Where the session stands.
    pub phase: Phase,
    /// The processes of the daemon that is being terminated.
    pub targets: Seq<i32>,
    /// The first failure, if there was one.
    pub failure: Option<ErrorView>,
}

impl SessionView {
    /// What holds of every session: the processes found for a daemon are no
    /// more than can be counted, and while the signals go out, the process
    /// whose turn it is is one of them.
    pub open spec fn well_formed(self) -> bool {
        &&& self.targets.len() <= usize::MAX
        &&& self.phase matches Phase::Signalling { daemon, next } ==> next < self.targets.len()
    }
}

/// The session of the user `uid` before its launch, with its registry below
/// the temporary directory `temp_dir`.
pub open spec fn initial(uid: u32, temp_dir: Seq<char>) -> SessionView {
    SessionView {
        uid: decimal(uid as nat),
        tmp_dir: registry_dir_text(temp_dir, decimal(uid as nat)),
        child_pid: Seq::empty(),
        phase: Phase::Launching,
        targets: Seq::empty(),
        failure: None,
    }
}

/// The action that a session is waiting for.
pub open spec fn pending(s: SessionView) -> Action {
    match s.phase {
        Phase::Launching => Action::Launch,
        Phase::Registering => Action::Register,
        Phase::AwaitingLauncher => Action::WaitLauncher,
        Phase::Locating => Action::ListInstances,
        Phase::ReadingDescriptor { index } => Action::ReadDescriptor { index },
        Phase::Probing { pid } => Action::Probe { pid },
        Phase::Sleeping { pid } => Action::Sleep { seconds: POLL_INTERVAL_SECONDS },
        Phase::Counting => Action::CountRegistry,
        Phase::Scanning { daemon } => Action::FindProcesses { daemon },
        Phase::Signalling { daemon, next } => Action::Signal {
            pid: s.targets[next as int],
            signal: sigterm(),
        },
        Phase::Deregistering => Action::Deregister,
        Phase::Finished => Action::Finish,
    }
}

/// The session after a failure that ends its work: the failure is kept, and
/// what is left is to take the entry out of the registry.
pub open spec fn failed(s: SessionView, error: ErrorView) -> SessionView {
    SessionView { phase: Phase::Deregistering, failure: Some(error), ..s }
}

/// The session after it has dealt with `daemon`: the next daemon's turn, or,
/// after the last one, the registry's.
pub open spec fn after_daemon(s: SessionView, daemon: Daemon) -> SessionView {
    match daemon {
        Daemon::SessionHelper => SessionView {
            phase: Phase::Scanning { daemon: Daemon::Portal },
            targets: Seq::empty(),
            ..s
        },
        Daemon::Portal => SessionView { phase: Phase::Deregistering, targets: Seq::empty(), ..s },
    }
}

/// The session about to terminate the process at `next` among `targets`, or
/// done with `daemon` where no such process is left.
pub open spec fn signalling(s: SessionView, daemon: Daemon, targets: Seq<i32>, next: int)
    -> SessionView {
    if 0 <= next < targets.len() {
        SessionView { phase: Phase::Signalling { daemon, next: next as usize }, targets, ..s }
    } else {
        after_daemon(s, daemon)
    }
}

/// The session after an event. An event that does not answer the action the
/// session is waiting for leaves the session as it is. However the launcher
/// has exited, the session goes on to look for the workload, which may
/// outlive it.
pub open spec fn next(s: SessionView, e: EventView) -> SessionView {
    match s.phase {
        Phase::Launching => match e {
            EventView::Launched { pid } => SessionView {
                child_pid: decimal(pid as nat),
                phase: Phase::Registering,
                ..s
            },
            EventView::Failed { message } => SessionView {
                phase: Phase::Finished,
                failure: Some(ErrorView::Generic { message: MSG_LAUNCH_FAILED@ }),
                ..s
            },
            _ => s,
        },
        Phase::Registering => match e {
            EventView::Done => SessionView { phase: Phase::AwaitingLauncher, ..s },
            EventView::Failed { message } => failed(s, ErrorView::IOError { message }),
            _ => s,
        },
        Phase::AwaitingLauncher => match e {
            EventView::Exited { code } => SessionView { phase: Phase::Locating, ..s },
            EventView::Failed { message } => failed(s, ErrorView::IOError { message }),
            _ => s,
        },
        Phase::Locating => match e {
            EventView::Instances { instances } => match first_match(instances, s.child_pid) {
                Some(i) => SessionView {
                    phase: Phase::ReadingDescriptor { index: i as usize },
                    ..s
                },
                None => failed(s, ErrorView::Generic { message: MSG_NO_INSTANCE@ }),
            },
            EventView::Failed { message } => failed(s, ErrorView::IOError { message }),
            _ => s,
        },
        Phase::ReadingDescriptor { index } => match e {
            EventView::Descriptor { text } => match child_pid_of(text) {
                Ok(pid) => SessionView { phase: Phase::Probing { pid }, ..s },
                Err(error) => failed(s, error),
            },
            EventView::Failed { message } => failed(s, ErrorView::IOError { message }),
            _ => s,
        },
        Phase::Probing { pid } => match e {
            EventView::Probed { status } => if probe_says_alive(status) {
                SessionView { phase: Phase::Sleeping { pid }, ..s }
            } else {
                SessionView { phase: Phase::Counting, ..s }
            },
            _ => s,
        },
        Phase::Sleeping { pid } => if e.is_plain_end() {
            SessionView { phase: Phase::Probing { pid }, ..s }
        } else {
            s
        },
        Phase::Counting => match e {
            EventView::Counted { entries } => if sole_session(entries as int) {
                SessionView { phase: Phase::Scanning { daemon: Daemon::SessionHelper }, ..s }
            } else {
                SessionView { phase: Phase::Deregistering, ..s }
            },
            EventView::Failed { message } => failed(s, ErrorView::IOError { message }),
            _ => s,
        },
        Phase::Scanning { daemon } => match e {
            EventView::Processes { processes } => signalling(
                s,
                daemon,
                named_pids(daemon.name_text(), processes),
                0,
            ),
            EventView::Failed { message } => after_daemon(s, daemon),
            _ => s,
        },
        Phase::Signalling { daemon, next } => if e.is_plain_end() {
            signalling(s, daemon, s.targets, next + 1)
        } else {
            s
        },
        Phase::Deregistering => if e.is_plain_end() {
            SessionView { phase: Phase::Finished, ..s }
        } else {
            s
        },
        Phase::Finished => s,
    }
}

/// How a session that has finished ended: well, or with its first failure.
pub open spec fn outcome_of(s: SessionView) -> Option<std::result::Result<(), ErrorView>> {
    if s.phase is Finished {
        match s.failure {
            Some(error) => Some(Err(error)),
            None => Some(Ok(())),
        }
    } else {
        None
    }
}

/// The events of a record, each by its view.
pub open spec fn event_views(events: Seq<Event>) -> Seq<EventView> {
    Seq::new(events.len(), |i: int| events[i]@)
}

/// The session after a sequence of events.
pub open spec fn run(s: SessionView, events: Seq<EventView>) -> SessionView
    decreases events.len(),
{
    if events.len() == 0 {
        s
    } else {
        next(run(s, events.drop_last()), events.last())
    }
}

/// The actions that a session asks for in the course of a run: the one it
/// starts with, and one after each event.
pub open spec fn requested(s: SessionView, events: Seq<EventView>) -> Seq<Action> {
    Seq::new(events.len() + 1, |i: int| pending(run(s, events.take(i))))
}

impl View for FlatpakSession {
    type V = SessionView;

    closed spec fn view(&self) -> SessionView {
        SessionView {
            uid: self.uid@,
            tmp_dir: self.tmp_dir@,
            child_pid: self.child_pid@,
            phase: self.phase,
            targets: self.targets@,
            failure: match self.failure {
                Some(error) => Some(error@),
                None => None,
            },
        }
    }
}

impl FlatpakSession {
    /// While processes are being terminated, the one whose turn it is is
    /// among those found.
    #[verifier::type_invariant]
    spec fn in_step(self) -> bool {
        match self.phase {
            Phase::Signalling { daemon, next } => next < self.targets.len(),
            _ => true,
        }
    }

    /// A session of the user `uid`, about to launch, with its registry below
    /// the temporary directory `temp_dir`.
    pub fn new(uid: u32, temp_dir: &str) -> (session: FlatpakSession)
        ensures
            session@ == initial(uid, temp_dir@),
            session@.well_formed(),
    {
        let uid = u32_to_string(uid);
        let tmp_dir = registry_dir(temp_dir, uid.as_str());
        FlatpakSession {
            uid,
            tmp_dir,
            child_pid: String::new(),
            phase: Phase::Launching,
            targets: Vec::new(),
            failure: None,
        }
    }

    /// The user's numeric identity, in decimal.
    pub fn uid(&self) -> (uid: &String)
        ensures
            uid@ == self@.uid,
    {
        &self.uid
    }

    /// The path of the registry directory.
    pub fn tmp_dir(&self) -> (path: &String)
        ensures
            path@ == self@.tmp_dir,
    {
        &self.tmp_dir
    }

    /// The launcher's process id, in decimal: the name of the session's
    /// registry entry. Empty before the launch.
    pub fn child_pid(&self) -> (pid: &String)
        ensures
            pid@ == self@.child_pid,
    {
        &self.child_pid
    }

    /// The path of the user's sandbox runtime directory.
    pub fn run_dir(&self) -> (path: String)
        ensures
            path@ == run_dir_text(self@.uid),
    {
        sandbox_run_dir(self.uid.as_str())
    }

    /// Where the session stands.
    pub fn phase(&self) -> (phase: Phase)
        ensures
            phase == self@.phase,
    {
        self.phase
    }

    /// The action that the session is waiting for.
    pub fn pending(&self) -> (action: Action)
        ensures
            action == pending(self@),
            self@.well_formed(),
    {
        proof {
            use_type_invariant(self);
            assert(self.targets@.len() == self.targets.len());
        }
        match self.phase {
            Phase::Launching => Action::Launch,
            Phase::Registering => Action::Register,
            Phase::AwaitingLauncher => Action::WaitLauncher,
            Phase::Locating => Action::ListInstances,
            Phase::ReadingDescriptor { index } => Action::ReadDescriptor { index },
            Phase::Probing { pid } => Action::Probe { pid },
            Phase::Sleeping { pid } => Action::Sleep { seconds: POLL_INTERVAL_SECONDS },
            Phase::Counting => Action::CountRegistry,
            Phase::Scanning { daemon } => Action::FindProcesses { daemon },
            Phase::Signalling { daemon, next } => Action::Signal {
                pid: self.targets[next],
                signal: termination_signal(),
            },
            Phase::Deregistering => Action::Deregister,
            Phase::Finished => Action::Finish,
        }
    }

    /// How the session ended, once it has finished.
    pub fn outcome(&self) -> (outcome: Option<Result<()>>)
        ensures
            match outcome {
                Some(Ok(())) => outcome_of(self@) == Some(Ok::<(), ErrorView>(())),
                Some(Err(error)) => outcome_of(self@) == Some(Err::<(), ErrorView>(error@)),
                None => outcome_of(self@) is None,
            },
    {
        match self.phase {
            Phase::Finished => match &self.failure {
                Some(error) => Some(Err(error.duplicate())),
                None => Some(Ok(())),
            },
            _ => None,
        }
    }

    fn moved_to(self, phase: Phase) -> (session: FlatpakSession)
        requires
            !(phase is Signalling),
        ensures
            session@ == (SessionView { phase, ..self@ }),
    {
        FlatpakSession { phase, ..self }
    }

    fn failed(self, error: Error) -> (session: FlatpakSession)
        ensures
            session@ == failed(self@, error@),
    {
        FlatpakSession { phase: Phase::Deregistering, failure: Some(error), ..self }
    }

    fn after_daemon(self, daemon: Daemon) -> (session: FlatpakSession)
        ensures
            session@ == after_daemon(self@, daemon),
    {
        match daemon {
            Daemon::SessionHelper => FlatpakSession {
                phase: Phase::Scanning { daemon: Daemon::Portal },
                targets: Vec::new(),
                ..self
            },
            Daemon::Portal => FlatpakSession {
                phase: Phase::Deregistering,
                targets: Vec::new(),
                ..self
            },
        }
    }

    fn signalling(self, daemon: Daemon, targets: Vec<i32>, next: usize) -> (session:
        FlatpakSession)
        ensures
            session@ == signalling(self@, daemon, targets@, next as int),
    {
        if next < targets.len() {
            FlatpakSession { phase: Phase::Signalling { daemon, next }, targets, ..self }
        } else {
            self.after_daemon(daemon)
        }
    }

    fn advanced(self, event: &Event) -> (session: FlatpakSession)
        ensures
            session@ == next(self@, event@),
    {
        proof {
            use_type_invariant(&self);
        }
        match self.phase {
            Phase::Launching => match event {
                Event::Launched { pid } => FlatpakSession {
                    child_pid: u32_to_string(*pid),
                    phase: Phase::Registering,
                    ..self
                },
                Event::Failed { message } => FlatpakSession {
                    phase: Phase::Finished,
                    failure: Some(Error::generic(MSG_LAUNCH_FAILED)),
                    ..self
                },
                _ => self,
            },
            Phase::Registering => match event {
                Event::Done => self.moved_to(Phase::AwaitingLauncher),
                Event::Failed { message } => self.failed(Error::io(message.clone())),
                _ => self,
            },
            Phase::AwaitingLauncher => match event {
                Event::Exited { code } => self.moved_to(Phase::Locating),
                Event::Failed { message } => self.failed(Error::io(message.clone())),
                _ => self,
            },
            Phase::Locating => match event {
                Event::Instances { instances } => match find_instance(
                    instances,
                    &self.child_pid,
                ) {
                    Some(index) => self.moved_to(Phase::ReadingDescriptor { index }),
                    None => self.failed(Error::generic(MSG_NO_INSTANCE)),
                },
                Event::Failed { message } => self.failed(Error::io(message.clone())),
                _ => self,
            },
            Phase::ReadingDescriptor { index } => match event {
                Event::Descriptor { text } => match parse_child_pid(text.as_str()) {
                    Ok(pid) => self.moved_to(Phase::Probing { pid }),
                    Err(error) => self.failed(error),
                },
                Event::Failed { message } => self.failed(Error::io(message.clone())),
                _ => self,
            },
            Phase::Probing { pid } => match event {
                Event::Probed { status } => if process_alive(*status) {
                    self.moved_to(Phase::Sleeping { pid })
                } else {
                    self.moved_to(Phase::Counting)
                },
                _ => self,
            },
            Phase::Sleeping { pid } => match event {
                Event::Done => self.moved_to(Phase::Probing { pid }),
                Event::Failed { message } => self.moved_to(Phase::Probing { pid }),
                _ => self,
            },
            Phase::Counting => match event {
                Event::Counted { entries } => if is_last_session(*entries) {
                    self.moved_to(Phase::Scanning { daemon: Daemon::SessionHelper })
                } else {
                    self.moved_to(Phase::Deregistering)
                },
                Event::Failed { message } => self.failed(Error::io(message.clone())),
                _ => self,
            },
            Phase::Scanning { daemon } => match event {
                Event::Processes { processes } => {
                    let targets = find_named_process_pids(daemon.name(), processes);
                    self.signalling(daemon, targets, 0)
                },
                Event::Failed { message } => self.after_daemon(daemon),
                _ => self,
            },
            Phase::Signalling { daemon, next } => match event {
                Event::Done => self.signalling_on(daemon, next + 1),
                Event::Failed { message } => self.signalling_on(daemon, next + 1),
                _ => self,
            },
            Phase::Deregistering => match event {
                Event::Done => self.moved_to(Phase::Finished),
                Event::Failed { message } => self.moved_to(Phase::Finished),
                _ => self,
            },
            Phase::Finished => self,
        }
    }

    fn signalling_on(self, daemon: Daemon, next: usize) -> (session: FlatpakSession)
        ensures
            session@ == signalling(self@, daemon, self@.targets, next as int),
    {
        if next < self.targets.len() {
            FlatpakSession { phase: Phase::Signalling { daemon, next }, ..self }
        } else {
            self.after_daemon(daemon)
        }
    }

    /// Takes the caller's report of the action that the session was waiting
    /// for, and answers with the session as it then stands and the action it
    /// asks for next.
    pub fn step(self, event: &Event) -> (stepped: (FlatpakSession, Action))
        ensures
            stepped.0@ == next(self@, event@),
            stepped.1 == pending(stepped.0@),
            stepped.0@.well_formed(),
    {
        let session = self.advanced(event);
        let action = session.pending();
        (session, action)
    }

    /// Runs a session of the user `uid` through a record of events, as if
    /// each had been reported in answer to the action asked for before it.
    /// Answers with the session as it stands after the last event, and with
    /// the actions it asked for on the way.
    pub fn run(uid: u32, temp_dir: &str, events: &Vec<Event>) -> (ended: (
        FlatpakSession,
        Vec<Action>,
    ))
        ensures
            ended.0@ == run(initial(uid, temp_dir@), event_views(events@)),
            ended.1@ == requested(initial(uid, temp_dir@), event_views(events@)),
            ended.0@.well_formed(),
    {
        let ghost views = event_views(events@);
        let ghost start = initial(uid, temp_dir@);
        let mut session = FlatpakSession::new(uid, temp_dir);
        let mut actions: Vec<Action> = Vec::new();
        actions.push(session.pending());
        assert(views.take(0).len() == 0);
        assert(actions@ =~= requested(start, views.take(0))) by {
            assert(views.take(0).take(0) == views.take(0));
        }
        let mut i: usize = 0;
        while i < events.len()
            invariant
                i <= events.len(),
                views == event_views(events@),
                session@ == run(start, views.take(i as int)),
                session@.well_formed(),
                actions@ == requested(start, views.take(i as int)),
            decreases events.len() - i,
        {
            let ghost before = views.take(i as int);
            let ghost upto = views.take(i + 1);
            let (advanced, action) = session.step(&events[i]);
            proof {
                assert(upto.drop_last() == before);
                assert(upto.last() == events[i as int]@);
                assert(advanced@ == run(start, upto));
                assert forall|k: int| 0 <= k <= i implies upto.take(k) == before.take(k) by {}
                assert(upto.take(i + 1) == upto);
                assert(actions@.push(action) =~= requested(start, upto));
            }
            session = advanced;
            actions.push(action);
            i += 1;
        }
        assert(views.take(i as int) == views);
        (session, actions)
    }
}

} // verus!
