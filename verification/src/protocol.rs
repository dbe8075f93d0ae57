//! What holds of every run of a session, whatever its caller reports: a run
//! is the session's start followed by any sequence of events.

use vstd::prelude::*;
use crate::error::ErrorView;
use crate::flatpaksession::{
    Action, Daemon, EventView, MSG_LAUNCH_FAILED, Phase, SessionView, after_daemon, initial, next,
    outcome_of, pending, requested, run, signalling,
};
use crate::registry::{
    deregistered, lemma_only_last_session_is_sole, registered, registry_at, sole_session,
};
use crate::text::{decimal, lemma_decimal_is_unique};
use crate::util::{ProcEntryView, named_pids, probe_says_alive, sigterm};

verus! {

/// The registry after the caller has carried out one action of the session
/// whose entry is `entry`.
pub open spec fn performed(registry: Set<Seq<char>>, entry: Seq<char>, action: Action) -> Set<
    Seq<char>,
> {
    match action {
        Action::Register => registered(registry, entry),
        Action::Deregister => deregistered(registry, entry),
        _ => registry,
    }
}

/// The registry after the caller has carried out a sequence of actions of
/// the session whose entry is `entry`.
pub open spec fn registry_after(registry: Set<Seq<char>>, entry: Seq<char>, actions: Seq<Action>)
    -> Set<Seq<char>>
    decreases actions.len(),
{
    if actions.len() == 0 {
        registry
    } else {
        performed(registry_after(registry, entry, actions.drop_last()), entry, actions.last())
    }
}

/// Whether the daemon cleanup is under way in this phase.
pub open spec fn cleaning(phase: Phase) -> bool {
    phase is Scanning || phase is Signalling
}

/// Whether the wait for the workload is over in this phase.
pub open spec fn past_waiting(phase: Phase) -> bool {
    phase is Counting || cleaning(phase) || phase is Deregistering || phase is Finished
}

/// A run goes on from where its beginning has led.
pub proof fn lemma_run_split(s: SessionView, events: Seq<EventView>, k: int)
    requires
        0 <= k <= events.len(),
    ensures
        run(s, events) == run(run(s, events.take(k)), events.skip(k)),
    decreases events.len(),
{
    if k == events.len() {
        assert(events.take(k) == events);
        assert(events.skip(k).len() == 0);
    } else {
        let front = events.drop_last();
        lemma_run_split(s, front, k);
        assert(front.take(k) == events.take(k));
        assert(events.skip(k).drop_last() == front.skip(k));
        assert(events.skip(k).last() == events.last());
    }
}

/// Each event of a run takes the session one step on.
pub proof fn lemma_run_step(s: SessionView, events: Seq<EventView>, k: int)
    requires
        0 <= k < events.len(),
    ensures
        run(s, events.take(k + 1)) == next(run(s, events.take(k)), events[k]),
{
    let upto = events.take(k + 1);
    assert(upto.drop_last() == events.take(k));
    assert(upto.last() == events[k]);
}

/// A run of one event is one step.
pub proof fn lemma_run_one(s: SessionView, events: Seq<EventView>)
    requires
        events.len() == 1,
    ensures
        run(s, events) == next(s, events[0]),
{
    assert(run(s, events.drop_last()) == s);
}

/// A session that has finished stays as it is.
pub proof fn lemma_finished_stays(s: SessionView, events: Seq<EventView>)
    requires
        s.phase is Finished,
    ensures
        run(s, events) == s,
    decreases events.len(),
{
    if events.len() > 0 {
        lemma_finished_stays(s, events.drop_last());
    }
}

/// Where the launcher cannot be started, the run ends at once with the
/// launch failure: the session asks for nothing but to finish, so no
/// registry entry is made, and the registry stays as it was.
pub proof fn lemma_failed_launch(
    uid: u32,
    temp_dir: Seq<char>,
    events: Seq<EventView>,
    registry: Set<Seq<char>>,
    entry: Seq<char>,
)
    requires
        events.len() > 0,
        events[0] is Failed,
    ensures
        outcome_of(run(initial(uid, temp_dir), events)) == Some(
            Err::<(), ErrorView>(ErrorView::Generic { message: MSG_LAUNCH_FAILED@ }),
        ),
        requested(initial(uid, temp_dir), events)[0] == Action::Launch,
        forall|i: int|
            1 <= i <= events.len() ==> #[trigger] requested(initial(uid, temp_dir), events)[i]
                == Action::Finish,
        registry_after(registry, entry, requested(initial(uid, temp_dir), events)) == registry,
{
    let start = initial(uid, temp_dir);
    let ended = next(start, events[0]);
    assert forall|i: int| 1 <= i <= events.len() implies run(start, #[trigger] events.take(i))
        == ended by {
        let upto = events.take(i);
        lemma_run_split(start, upto, 1);
        lemma_run_one(start, upto.take(1));
        lemma_finished_stays(ended, upto.skip(1));
    }
    assert(events.take(events.len() as int) == events);
    assert(events.take(0).len() == 0);
    let actions = requested(start, events);
    assert forall|i: int| 1 <= i <= events.len() implies #[trigger] actions[i]
        == Action::Finish by {
        assert(run(start, events.take(i)) == ended);
    }
    lemma_nothing_performed(registry, entry, actions, actions.len() as int);
    assert(actions.take(actions.len() as int) == actions);
}

/// Actions other than those on the registry leave it as it was.
proof fn lemma_nothing_performed(
    registry: Set<Seq<char>>,
    entry: Seq<char>,
    actions: Seq<Action>,
    n: int,
)
    requires
        0 <= n <= actions.len(),
        forall|i: int|
            0 <= i < actions.len() ==> actions[i] != Action::Register && actions[i]
                != Action::Deregister,
    ensures
        registry_after(registry, entry, actions.take(n)) == registry,
    decreases n,
{
    if n > 0 {
        lemma_nothing_performed(registry, entry, actions, n - 1);
        assert(actions.take(n).drop_last() == actions.take(n - 1));
        assert(actions.take(n).last() == actions[n - 1]);
    }
}

/// The actions of a run's beginning are the beginning of the run's actions.
pub proof fn lemma_requested_prefix(s: SessionView, events: Seq<EventView>, k: int)
    requires
        0 <= k <= events.len(),
    ensures
        requested(s, events.take(k)) == requested(s, events).take(k + 1),
{
    assert forall|i: int| 0 <= i <= k implies events.take(k).take(i) == events.take(i) by {}
    assert(requested(s, events.take(k)) =~= requested(s, events).take(k + 1));
}

/// Once the launcher has started as the process `pid`, the session's entry
/// is that number in decimal, and the session takes it out of the registry
/// before it finishes: whenever the session has asked for the removal, and so
/// whenever it has finished, the registry holds no such entry, whatever it
/// held before and however the run went.
pub proof fn lemma_entry_removed(
    uid: u32,
    temp_dir: Seq<char>,
    pid: u32,
    events: Seq<EventView>,
    registry: Set<Seq<char>>,
)
    requires
        events.len() > 0,
        events[0] == (EventView::Launched { pid }),
    ensures
        ({
            let session = run(initial(uid, temp_dir), events);
            let actions = requested(initial(uid, temp_dir), events);
            let entry = decimal(pid as nat);
            &&& session.child_pid == entry
            &&& !(session.phase is Launching)
            &&& session.phase is Deregistering || session.phase is Finished ==> !registry_after(
                registry,
                entry,
                actions,
            ).contains(entry)
        }),
    decreases events.len(),
{
    let start = initial(uid, temp_dir);
    let entry = decimal(pid as nat);
    let actions = requested(start, events);
    let front = events.drop_last();
    assert(events.take(events.len() as int) == events);
    assert(actions.last() == pending(run(start, events)));
    lemma_requested_prefix(start, events, events.len() - 1);
    assert(actions.drop_last() == requested(start, front));
    if events.len() == 1 {
        assert(front.len() == 0);
    } else {
        assert(front[0] == events[0]);
        lemma_entry_removed(uid, temp_dir, pid, front, registry);
    }
}

/// After a launch as the process `pid` and a registration that succeeded,
/// the registry holds the entry named by that number in decimal, and the
/// session waits for the launcher. The entries of two sessions differ where
/// their launchers' process ids do.
pub proof fn lemma_registration(
    uid: u32,
    temp_dir: Seq<char>,
    pid: u32,
    other: u32,
    registry: Set<Seq<char>>,
)
    ensures
        ({
            let events = seq![EventView::Launched { pid }, EventView::Done];
            let session = run(initial(uid, temp_dir), events);
            &&& requested(initial(uid, temp_dir), events) == seq![
                Action::Launch,
                Action::Register,
                Action::WaitLauncher,
            ]
            &&& session.child_pid == decimal(pid as nat)
            &&& session.failure is None
            &&& registry_after(
                registry,
                session.child_pid,
                requested(initial(uid, temp_dir), events),
            ).contains(decimal(pid as nat))
        }),
        other != pid ==> decimal(other as nat) != decimal(pid as nat),
{
    let start = initial(uid, temp_dir);
    let events = seq![EventView::Launched { pid }, EventView::Done];
    let launched = next(start, events[0]);
    assert(events.take(0).len() == 0);
    lemma_run_one(start, events.take(1));
    assert(run(start, events.take(1)) == launched);
    assert(events.take(2) == events);
    assert(events.drop_last() == events.take(1));
    let actions = requested(start, events);
    assert(actions =~= seq![Action::Launch, Action::Register, Action::WaitLauncher]);
    let entry = decimal(pid as nat);
    assert(actions.drop_last().drop_last().drop_last().len() == 0);
    assert(actions.drop_last().drop_last().last() == Action::Launch);
    assert(actions.drop_last().last() == Action::Register);
    assert(actions.last() == Action::WaitLauncher);
    assert(registry_after(registry, entry, actions.drop_last().drop_last().drop_last())
        == registry);
    assert(registry_after(registry, entry, actions.drop_last().drop_last()) == registry);
    assert(registry_after(registry, entry, actions.drop_last()) == registered(registry, entry));
    if decimal(other as nat) == decimal(pid as nat) {
        lemma_decimal_is_unique(other as nat, pid as nat);
    }
}

/// However the launcher has exited, with whatever code or by a signal, the
/// session goes on in the same way: to list the sandbox instances.
pub proof fn lemma_launcher_exit_is_not_fatal(s: SessionView, code: Option<i32>)
    requires
        s.phase is AwaitingLauncher,
    ensures
        next(s, EventView::Exited { code }) == (SessionView { phase: Phase::Locating, ..s }),
        next(s, EventView::Exited { code }).failure == s.failure,
        pending(next(s, EventView::Exited { code })) == Action::ListInstances,
{
}

/// A session that counts the registry begins the daemon cleanup exactly when
/// it counts one entry.
pub proof fn lemma_cleanup_when_sole(s: SessionView, e: EventView)
    requires
        s.phase is Counting,
    ensures
        cleaning(next(s, e).phase) <==> (e matches EventView::Counted { entries } && sole_session(
            entries as int,
        )),
        cleaning(next(s, e).phase) ==> pending(next(s, e)) == (Action::FindProcesses {
            daemon: Daemon::SessionHelper,
        }),
{
}

/// Of sessions that share a registry and end one after another, the one
/// that counts the registry when all others have taken their entries away
/// begins the daemon cleanup, and none of the others does.
pub proof fn lemma_last_session_cleans_up(s: SessionView, order: Seq<Seq<char>>, finished: int)
    requires
        s.phase is Counting,
        order.no_duplicates(),
        order.len() <= usize::MAX,
        0 <= finished < order.len(),
    ensures
        cleaning(
            next(
                s,
                EventView::Counted { entries: registry_at(order, finished).len() as usize },
            ).phase,
        ) <==> finished == order.len() - 1,
{
    lemma_only_last_session_is_sole(order, finished);
}

/// A session is in the daemon cleanup only after it has counted exactly one
/// entry in the registry.
pub proof fn lemma_cleanup_needs_sole_session(
    uid: u32,
    temp_dir: Seq<char>,
    events: Seq<EventView>,
)
    requires
        cleaning(run(initial(uid, temp_dir), events).phase),
    ensures
        exists|j: int|
            0 <= j < events.len() && #[trigger] events[j] == (EventView::Counted { entries: 1 }),
    decreases events.len(),
{
    if events.len() > 0 {
        let front = events.drop_last();
        let before = run(initial(uid, temp_dir), front);
        if cleaning(before.phase) {
            lemma_cleanup_needs_sole_session(uid, temp_dir, front);
            let j = choose|j: int|
                0 <= j < front.len() && #[trigger] front[j] == (EventView::Counted { entries: 1 });
            assert(events[j] == front[j]);
        } else {
            assert(before.phase is Counting);
            assert(events[events.len() - 1] == (EventView::Counted { entries: 1 }));
        }
    }
}

/// Once the workload is found gone, the wait is over: a probe that reports
/// the process gone is answered by the count of the registry, and the
/// session never asks to sleep from then on, so that a process already gone
/// at the first probe is never slept for.
pub proof fn lemma_no_sleep_once_gone(s: SessionView, status: i32, events: Seq<EventView>)
    requires
        s.phase is Probing,
        !probe_says_alive(status),
    ensures
        pending(next(s, EventView::Probed { status })) == Action::CountRegistry,
        forall|i: int|
            0 <= i <= events.len() ==> !(#[trigger] requested(
                next(s, EventView::Probed { status }),
                events,
            )[i] is Sleep),
{
    let gone = next(s, EventView::Probed { status });
    assert forall|i: int| 0 <= i <= events.len() implies !(#[trigger] requested(gone, events)[i]
        is Sleep) by {
        lemma_past_waiting_stays(gone, events.take(i));
    }
}

/// A probe that reports the process alive is answered by one sleep of the
/// poll interval, after which the session probes again.
pub proof fn lemma_sleep_while_alive(s: SessionView, status: i32, slept: EventView)
    requires
        s.phase is Probing,
        probe_says_alive(status),
        slept.is_plain_end(),
    ensures
        pending(next(s, EventView::Probed { status })) == (Action::Sleep { seconds: 1 }),
        next(next(s, EventView::Probed { status }), slept) == s,
{
}

/// A session whose wait is over does not go back to waiting.
pub proof fn lemma_past_waiting_stays(s: SessionView, events: Seq<EventView>)
    requires
        past_waiting(s.phase),
    ensures
        past_waiting(run(s, events).phase),
    decreases events.len(),
{
    if events.len() > 0 {
        lemma_past_waiting_stays(s, events.drop_last());
    }
}

/// A session that has met a failure has nothing left but to take its entry
/// out of the registry and finish; so the daemon cleanup is begun only by a
/// session without a failure.
pub proof fn lemma_failure_ends_work(uid: u32, temp_dir: Seq<char>, events: Seq<EventView>)
    ensures
        ({
            let session = run(initial(uid, temp_dir), events);
            session.failure is Some ==> session.phase is Deregistering || session.phase is Finished
        }),
    decreases events.len(),
{
    if events.len() > 0 {
        lemma_failure_ends_work(uid, temp_dir, events.drop_last());
    }
}

/// From the daemon cleanup on, nothing that is reported changes how the
/// session ends: not a process listing that fails or is empty, not a signal
/// that cannot be delivered, not a removal that fails.
pub proof fn lemma_cleanup_keeps_outcome(s: SessionView, events: Seq<EventView>)
    requires
        cleaning(s.phase) || s.phase is Deregistering || s.phase is Finished,
    ensures
        run(s, events).failure == s.failure,
        cleaning(run(s, events).phase) || run(s, events).phase is Deregistering || run(
            s,
            events,
        ).phase is Finished,
    decreases events.len(),
{
    if events.len() > 0 {
        lemma_cleanup_keeps_outcome(s, events.drop_last());
    }
}

/// A run that has come to the daemon cleanup, or past it, ends as it stood
/// there: with the failure it had met by then, or with none.
pub proof fn lemma_ending_is_settled(
    uid: u32,
    temp_dir: Seq<char>,
    events: Seq<EventView>,
    k: int,
)
    requires
        0 <= k <= events.len(),
        ({
            let reached = run(initial(uid, temp_dir), events.take(k));
            cleaning(reached.phase) || reached.phase is Deregistering || reached.phase is Finished
        }),
    ensures
        run(initial(uid, temp_dir), events).failure == run(
            initial(uid, temp_dir),
            events.take(k),
        ).failure,
{
    lemma_run_split(initial(uid, temp_dir), events, k);
    lemma_cleanup_keeps_outcome(run(initial(uid, temp_dir), events.take(k)), events.skip(k));
}

/// The first failure of a run is the one it ends with: once a session has
/// met a failure, nothing that is reported changes it.
pub proof fn lemma_first_failure_is_kept(
    uid: u32,
    temp_dir: Seq<char>,
    events: Seq<EventView>,
    k: int,
)
    requires
        0 <= k <= events.len(),
        run(initial(uid, temp_dir), events.take(k)).failure is Some,
    ensures
        run(initial(uid, temp_dir), events).failure == run(
            initial(uid, temp_dir),
            events.take(k),
        ).failure,
{
    lemma_failure_ends_work(uid, temp_dir, events.take(k));
    lemma_ending_is_settled(uid, temp_dir, events, k);
}

/// A run that has reached the daemon cleanup does not end in a failure:
/// where it finishes, it finishes well.
pub proof fn lemma_cleanup_never_fails(
    uid: u32,
    temp_dir: Seq<char>,
    events: Seq<EventView>,
    k: int,
)
    requires
        0 <= k <= events.len(),
        cleaning(run(initial(uid, temp_dir), events.take(k)).phase),
    ensures
        ({
            let session = run(initial(uid, temp_dir), events);
            &&& session.failure is None
            &&& session.phase is Finished ==> outcome_of(session) == Some(Ok::<(), ErrorView>(()))
        }),
{
    lemma_failure_ends_work(uid, temp_dir, events.take(k));
    lemma_ending_is_settled(uid, temp_dir, events, k);
}

/// While the signals go out, a report of failure is answered like one of
/// success: by the signal for the next process found, or, after the last, by
/// what comes after the daemon.
pub proof fn lemma_failed_signal_is_followed(s: SessionView, answer: EventView)
    requires
        s.well_formed(),
        s.phase is Signalling,
        answer.is_plain_end(),
    ensures
        next(s, answer).well_formed(),
        ({
            let daemon = s.phase->Signalling_daemon;
            let index = s.phase->Signalling_next;
            if index + 1 < s.targets.len() {
                &&& next(s, answer).phase == (Phase::Signalling {
                    daemon,
                    next: (index + 1) as usize,
                })
                &&& next(s, answer).targets == s.targets
                &&& pending(next(s, answer)) == (Action::Signal {
                    pid: s.targets[index + 1],
                    signal: sigterm(),
                })
            } else {
                next(s, answer) == after_daemon(s, daemon)
            }
        }),
{
}

/// A session that is well formed stays so, whatever is reported, as long as
/// a listing names no more processes than can be counted.
pub proof fn lemma_next_keeps_well_formed(s: SessionView, e: EventView)
    requires
        s.well_formed(),
        e matches EventView::Processes { processes } ==> forall|daemon: Daemon|
            (#[trigger] named_pids(daemon.name_text(), processes)).len() <= usize::MAX,
    ensures
        next(s, e).well_formed(),
{
    match (s.phase, e) {
        (Phase::Scanning { daemon }, EventView::Processes { processes }) => {
            assert(named_pids(daemon.name_text(), processes).len() <= usize::MAX);
        },
        _ => {},
    }
}

/// While the processes of a daemon are being terminated, each report, of
/// success or of failure, moves the session on to the next of them.
proof fn lemma_signalling_moves_on(
    s: SessionView,
    daemon: Daemon,
    targets: Seq<i32>,
    answers: Seq<EventView>,
    k: int,
)
    requires
        targets.len() <= usize::MAX,
        0 <= k <= answers.len() <= targets.len(),
        forall|i: int| 0 <= i < answers.len() ==> (#[trigger] answers[i]).is_plain_end(),
    ensures
        run(signalling(s, daemon, targets, 0), answers.take(k)) == signalling(
            s,
            daemon,
            targets,
            k,
        ),
    decreases k,
{
    let found = signalling(s, daemon, targets, 0);
    if k == 0 {
        assert(answers.take(0).len() == 0);
    } else {
        lemma_signalling_moves_on(s, daemon, targets, answers, k - 1);
        lemma_run_step(found, answers, k - 1);
        assert(answers[k - 1].is_plain_end());
    }
}

/// The cleanup terminates every process found for a daemon, each once and in
/// the order in which they were found, whether or not a signal can be
/// delivered; then it turns to what comes after that daemon.
pub proof fn lemma_each_target_signalled(
    s: SessionView,
    daemon: Daemon,
    processes: Seq<ProcEntryView>,
    answers: Seq<EventView>,
)
    requires
        s.phase == (Phase::Scanning { daemon }),
        named_pids(daemon.name_text(), processes).len() <= usize::MAX,
        answers.len() == named_pids(daemon.name_text(), processes).len(),
        forall|i: int| 0 <= i < answers.len() ==> (#[trigger] answers[i]).is_plain_end(),
    ensures
        ({
            let targets = named_pids(daemon.name_text(), processes);
            let found = next(s, EventView::Processes { processes });
            &&& forall|i: int|
                0 <= i < targets.len() ==> #[trigger] requested(found, answers)[i] == (
                Action::Signal { pid: targets[i], signal: sigterm() })
            &&& run(found, answers) == after_daemon(s, daemon)
            &&& !cleaning(after_daemon(s, daemon).phase) ==> pending(run(found, answers))
                == Action::Deregister
        }),
{
    let targets = named_pids(daemon.name_text(), processes);
    let found = next(s, EventView::Processes { processes });
    assert(found == signalling(s, daemon, targets, 0));
    assert forall|i: int| 0 <= i < targets.len() implies #[trigger] requested(found, answers)[i]
        == (Action::Signal { pid: targets[i], signal: sigterm() }) by {
        lemma_signalling_moves_on(s, daemon, targets, answers, i);
    }
    lemma_signalling_moves_on(s, daemon, targets, answers, answers.len() as int);
    assert(answers.take(answers.len() as int) == answers);
}

/// How far a session has come: the phases in the order in which a session
/// passes through them.
pub open spec fn rank(phase: Phase) -> nat {
    match phase {
        Phase::Launching => 0,
        Phase::Registering => 1,
        Phase::AwaitingLauncher => 2,
        Phase::Locating => 3,
        Phase::ReadingDescriptor { index } => 4,
        Phase::Probing { pid } => 5,
        Phase::Sleeping { pid } => 5,
        Phase::Counting => 6,
        Phase::Scanning { daemon: Daemon::SessionHelper } => 7,
        Phase::Signalling { daemon: Daemon::SessionHelper, next } => 8,
        Phase::Scanning { daemon: Daemon::Portal } => 9,
        Phase::Signalling { daemon: Daemon::Portal, next } => 10,
        Phase::Deregistering => 11,
        Phase::Finished => 12,
    }
}

/// The phases in which a session asks for the same kind of action again and
/// again: probe and sleep while the workload lives, and one signal for each
/// process of a daemon.
pub open spec fn repeating(phase: Phase) -> bool {
    phase is Probing || phase is Sleeping || phase is Signalling
}

/// Whether every event of a run is an answer: one that moves the session.
pub open spec fn all_answered(s: SessionView, events: Seq<EventView>) -> bool {
    forall|k: int|
        0 <= k < events.len() ==> next(run(s, events.take(k)), #[trigger] events[k]) != run(
            s,
            events.take(k),
        )
}

/// A session never goes back: no event takes it to an earlier phase, and an
/// answer takes it to a later one, unless it is in a phase that repeats.
pub proof fn lemma_never_back(s: SessionView, e: EventView)
    ensures
        rank(next(s, e).phase) >= rank(s.phase),
        next(s, e) != s && !repeating(s.phase) ==> rank(next(s, e).phase) > rank(s.phase),
{
}

/// A run never leads to an earlier phase.
pub proof fn lemma_run_never_back(s: SessionView, events: Seq<EventView>)
    ensures
        rank(run(s, events).phase) >= rank(s.phase),
    decreases events.len(),
{
    if events.len() > 0 {
        lemma_run_never_back(s, events.drop_last());
        lemma_never_back(run(s, events.drop_last()), events.last());
    }
}

/// Outside the phases that repeat, the action that a session asks for tells
/// how far it has come.
proof fn lemma_action_tells_rank(a: SessionView, b: SessionView)
    requires
        !repeating(a.phase),
        pending(a) == pending(b),
    ensures
        rank(a.phase) == rank(b.phase),
{
}

/// Nothing is tried twice: in a run whose events are all answers, an action
/// that the session has asked for is not asked for again, unless it belongs
/// to a phase that repeats. So the launch, the registration, the wait for the
/// launcher, the lookup of the instance and of its descriptor, the count of
/// the registry, the search for each daemon and the removal of the entry
/// each happen at most once.
pub proof fn lemma_nothing_tried_twice(s: SessionView, events: Seq<EventView>, i: int, j: int)
    requires
        all_answered(s, events),
        0 <= i < j <= events.len(),
        !repeating(run(s, events.take(i)).phase),
    ensures
        requested(s, events)[i] != requested(s, events)[j],
{
    let at_i = run(s, events.take(i));
    let after_i = run(s, events.take(i + 1));
    let at_j = run(s, events.take(j));
    assert(rank(after_i.phase) > rank(at_i.phase)) by {
        lemma_run_step(s, events, i);
        lemma_never_back(at_i, events[i]);
    }
    assert(rank(at_j.phase) >= rank(after_i.phase)) by {
        let upto = events.take(j);
        lemma_run_split(s, upto, i + 1);
        assert(upto.take(i + 1) == events.take(i + 1));
        lemma_run_never_back(after_i, upto.skip(i + 1));
    }
    assert(requested(s, events)[i] == pending(at_i));
    assert(requested(s, events)[j] == pending(at_j));
    if pending(at_i) == pending(at_j) {
        lemma_action_tells_rank(at_i, at_j);
    }
}

} // verus!
