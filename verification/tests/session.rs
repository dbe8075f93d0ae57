use flatkap::error::Error;
use flatkap::flatpaksession::{
    Action, Daemon, Event, FlatpakSession, Phase, CMD_FLATPAK, MSG_LAUNCH_FAILED, PROC_PORTAL,
    PROC_SESSION_HELPER,
};
use flatkap::locator::InstanceEntry;
use flatkap::util::ProcEntry;

fn failed(message: &str) -> Event {
    Event::Failed { message: message.to_string() }
}

fn instance(pid_text: &str) -> InstanceEntry {
    InstanceEntry { is_dir: true, pid_text: Some(pid_text.to_string()) }
}

fn process(dir_name: &str, exe_name: &str) -> ProcEntry {
    ProcEntry { dir_name: Some(dir_name.to_string()), exe_name: Some(exe_name.to_string()) }
}

fn descriptor(text: &str) -> Event {
    Event::Descriptor { text: text.to_string() }
}

/// The events of a session whose launcher runs as 4321 and whose workload,
/// 9999, is found alive once and then gone.
fn events_up_to_the_count() -> Vec<Event> {
    vec![
        Event::Launched { pid: 4321 },
        Event::Done,
        Event::Exited { code: Some(0) },
        Event::Instances { instances: vec![instance("17"), instance("4321")] },
        descriptor("{\"child-pid\": 9999}"),
        Event::Probed { status: 0 },
        Event::Done,
        Event::Probed { status: -1 },
    ]
}

fn actions_up_to_the_count() -> Vec<Action> {
    vec![
        Action::Launch,
        Action::Register,
        Action::WaitLauncher,
        Action::ListInstances,
        Action::ReadDescriptor { index: 1 },
        Action::Probe { pid: 9999 },
        Action::Sleep { seconds: 1 },
        Action::Probe { pid: 9999 },
        Action::CountRegistry,
    ]
}

fn generic_message(session: &FlatpakSession) -> String {
    match session.outcome() {
        Some(Err(Error::Generic { message })) => message,
        other => panic!("expected a generic error, got {:?}", other),
    }
}

fn io_message(session: &FlatpakSession) -> String {
    match session.outcome() {
        Some(Err(Error::IOError { message })) => message,
        other => panic!("expected an I/O error, got {:?}", other),
    }
}

#[test]
fn names_of_the_launcher_and_the_daemons() {
    assert_eq!(CMD_FLATPAK, "flatpak");
    assert_eq!(PROC_SESSION_HELPER, "flatpak-session-helper");
    assert_eq!(PROC_PORTAL, "flatpak-portal");
    assert_eq!(Daemon::SessionHelper.name(), "flatpak-session-helper");
    assert_eq!(Daemon::Portal.name(), "flatpak-portal");
    assert_eq!(
        MSG_LAUNCH_FAILED,
        "Failed to create session. Your flatpak application didn't launch successfully!"
    );
}

#[test]
fn new_session_is_about_to_launch() {
    let session = FlatpakSession::new(1000, "/tmp");
    assert_eq!(session.uid(), "1000");
    assert_eq!(session.tmp_dir(), "/tmp/.flatkap-1000");
    assert_eq!(session.child_pid(), "");
    assert_eq!(session.run_dir(), "/run/user/1000/.flatpak");
    assert_eq!(session.phase(), Phase::Launching);
    assert_eq!(session.pending(), Action::Launch);
    assert!(session.outcome().is_none());
}

#[test]
fn launch_failure_ends_the_run_without_registering() {
    let events = vec![failed("No such file or directory (os error 2)")];
    let (session, actions) = FlatpakSession::run(1000, "/tmp", &events);
    assert_eq!(actions, vec![Action::Launch, Action::Finish]);
    assert!(!actions.contains(&Action::Register));
    assert_eq!(
        generic_message(&session),
        "Failed to create session. Your flatpak application didn't launch successfully!"
    );
    assert_eq!(session.child_pid(), "");
}

#[test]
fn launch_failure_is_final_whatever_follows() {
    let events = vec![
        failed("x"),
        Event::Launched { pid: 4321 },
        Event::Done,
        Event::Counted { entries: 1 },
        Event::Probed { status: 0 },
    ];
    let (session, actions) = FlatpakSession::run(1000, "/tmp", &events);
    assert_eq!(actions[0], Action::Launch);
    assert!(actions[1..].iter().all(|action| *action == Action::Finish));
    assert_eq!(generic_message(&session), MSG_LAUNCH_FAILED);
}

#[test]
fn launched_session_registers_under_the_launcher_pid() {
    let session = FlatpakSession::new(1000, "/tmp");
    let (session, action) = session.step(&Event::Launched { pid: 4321 });
    assert_eq!(action, Action::Register);
    assert_eq!(session.child_pid(), "4321");
    assert_eq!(session.phase(), Phase::Registering);
    let (session, action) = session.step(&Event::Done);
    assert_eq!(action, Action::WaitLauncher);
    assert_eq!(session.child_pid(), "4321");
    assert!(session.outcome().is_none());
}

#[test]
fn launcher_exit_code_does_not_matter() {
    for code in [Some(0), Some(1), Some(127), Some(-1), None] {
        let events = vec![Event::Launched { pid: 4321 }, Event::Done, Event::Exited { code }];
        let (session, actions) = FlatpakSession::run(1000, "/tmp", &events);
        assert_eq!(
            actions,
            vec![Action::Launch, Action::Register, Action::WaitLauncher, Action::ListInstances]
        );
        assert_eq!(session.phase(), Phase::Locating);
        assert!(session.outcome().is_none());
    }
}

#[test]
fn registration_failure_is_an_io_error_and_still_deregisters() {
    let events = vec![
        Event::Launched { pid: 4321 },
        failed("Permission denied (os error 13)"),
        Event::Done,
    ];
    let (session, actions) = FlatpakSession::run(1000, "/tmp", &events);
    assert_eq!(
        actions,
        vec![Action::Launch, Action::Register, Action::Deregister, Action::Finish]
    );
    assert_eq!(io_message(&session), "Permission denied (os error 13)");
}

#[test]
fn whole_run_of_the_last_session() {
    let mut events = events_up_to_the_count();
    events.push(Event::Counted { entries: 1 });
    events.push(Event::Processes {
        processes: vec![process("1", "systemd"), process("900", "flatpak-session-helper")],
    });
    events.push(Event::Done);
    events.push(Event::Processes {
        processes: vec![
            process("812", "flatpak-portal"),
            process("900", "flatpak-session-helper"),
            process("1044", "flatpak-portal"),
        ],
    });
    events.push(Event::Done);
    events.push(Event::Done);
    events.push(Event::Done);
    let (session, actions) = FlatpakSession::run(1000, "/tmp", &events);
    let mut expected = actions_up_to_the_count();
    expected.extend([
        Action::FindProcesses { daemon: Daemon::SessionHelper },
        Action::Signal { pid: 900, signal: 15 },
        Action::FindProcesses { daemon: Daemon::Portal },
        Action::Signal { pid: 812, signal: 15 },
        Action::Signal { pid: 1044, signal: 15 },
        Action::Deregister,
        Action::Finish,
    ]);
    assert_eq!(actions, expected);
    assert!(matches!(session.outcome(), Some(Ok(()))));
    assert_eq!(session.phase(), Phase::Finished);
}

#[test]
fn termination_signal_is_the_one_of_libc() {
    let mut events = events_up_to_the_count();
    events.push(Event::Counted { entries: 1 });
    events.push(Event::Processes { processes: vec![process("900", "flatpak-session-helper")] });
    let (_, actions) = FlatpakSession::run(1000, "/tmp", &events);
    assert_eq!(actions.last(), Some(&Action::Signal { pid: 900, signal: libc::SIGTERM }));
}

#[test]
fn session_that_is_not_alone_skips_the_cleanup() {
    for count in [0usize, 2, 3, 17] {
        let mut events = events_up_to_the_count();
        events.push(Event::Counted { entries: count });
        events.push(Event::Done);
        let (session, actions) = FlatpakSession::run(1000, "/tmp", &events);
        let mut expected = actions_up_to_the_count();
        expected.extend([Action::Deregister, Action::Finish]);
        assert_eq!(actions, expected);
        assert!(matches!(session.outcome(), Some(Ok(()))));
    }
}

#[test]
fn of_three_sessions_only_the_last_to_finish_cleans_up() {
    let mut registry: Vec<String> = Vec::new();
    let mut sessions = Vec::new();
    for pid in [4321u32, 4400, 4500] {
        let (session, action) = FlatpakSession::new(1000, "/tmp").step(&Event::Launched { pid });
        assert_eq!(action, Action::Register);
        registry.push(session.child_pid().clone());
        sessions.push(session);
    }
    assert_eq!(registry, vec!["4321", "4400", "4500"]);
    let mut cleaned = Vec::new();
    for session in sessions {
        let name = session.child_pid().clone();
        let events = vec![
            Event::Done,
            Event::Exited { code: Some(0) },
            Event::Instances { instances: vec![instance(&name)] },
            descriptor("{\"child-pid\": 9999}"),
            Event::Probed { status: -1 },
            Event::Counted { entries: registry.len() },
        ];
        let mut session = session;
        let mut action = session.pending();
        for event in &events {
            let (stepped, asked) = session.step(event);
            session = stepped;
            action = asked;
        }
        cleaned.push(action == Action::FindProcesses { daemon: Daemon::SessionHelper });
        registry.retain(|entry| *entry != name);
    }
    assert_eq!(cleaned, vec![false, false, true]);
    assert!(registry.is_empty());
}

#[test]
fn workload_gone_at_the_first_probe_is_not_slept_for() {
    let events = vec![
        Event::Launched { pid: 4321 },
        Event::Done,
        Event::Exited { code: Some(0) },
        Event::Instances { instances: vec![instance("4321")] },
        descriptor("{\"child-pid\": 9999}"),
        Event::Probed { status: -1 },
        Event::Counted { entries: 2 },
        Event::Done,
    ];
    let (session, actions) = FlatpakSession::run(1000, "/tmp", &events);
    assert_eq!(actions[5], Action::Probe { pid: 9999 });
    assert_eq!(actions[6], Action::CountRegistry);
    assert!(!actions.iter().any(|action| matches!(action, Action::Sleep { .. })));
    assert!(matches!(session.outcome(), Some(Ok(()))));
}

#[test]
fn workload_is_probed_again_after_each_sleep() {
    let mut events = vec![
        Event::Launched { pid: 4321 },
        Event::Done,
        Event::Exited { code: Some(0) },
        Event::Instances { instances: vec![instance("4321")] },
        descriptor("{\"child-pid\": 9999}"),
    ];
    for _ in 0..3 {
        events.push(Event::Probed { status: 0 });
        events.push(Event::Done);
    }
    events.push(Event::Probed { status: 0 });
    events.push(failed("Interrupted system call (os error 4)"));
    events.push(Event::Probed { status: -1 });
    let (session, actions) = FlatpakSession::run(1000, "/tmp", &events);
    let mut expected = vec![
        Action::Launch,
        Action::Register,
        Action::WaitLauncher,
        Action::ListInstances,
        Action::ReadDescriptor { index: 0 },
    ];
    for _ in 0..4 {
        expected.push(Action::Probe { pid: 9999 });
        expected.push(Action::Sleep { seconds: 1 });
    }
    expected.push(Action::Probe { pid: 9999 });
    expected.push(Action::CountRegistry);
    assert_eq!(actions, expected);
    assert_eq!(session.phase(), Phase::Counting);
}

#[test]
fn locator_returns_the_pid_of_the_descriptor() {
    let events = vec![
        Event::Launched { pid: 4321 },
        Event::Done,
        Event::Exited { code: Some(0) },
        Event::Instances { instances: vec![instance("4321")] },
        descriptor("{\"child-pid\": 9999}"),
    ];
    let (session, actions) = FlatpakSession::run(1000, "/tmp", &events);
    assert_eq!(actions[4], Action::ReadDescriptor { index: 0 });
    assert_eq!(actions[5], Action::Probe { pid: 9999 });
    assert_eq!(session.phase(), Phase::Probing { pid: 9999 });
}

#[test]
fn locator_fails_with_field_absent_not_with_a_parse_error() {
    let events = vec![
        Event::Launched { pid: 4321 },
        Event::Done,
        Event::Exited { code: Some(0) },
        Event::Instances { instances: vec![instance("4321")] },
        descriptor("{\"other\": 9999}"),
        Event::Done,
    ];
    let (session, actions) = FlatpakSession::run(1000, "/tmp", &events);
    assert_eq!(actions[5..], [Action::Deregister, Action::Finish]);
    assert_eq!(generic_message(&session), "Failed to find pid.");
}

#[test]
fn locator_fails_with_no_match() {
    let events = vec![
        Event::Launched { pid: 4321 },
        Event::Done,
        Event::Exited { code: Some(0) },
        Event::Instances {
            instances: vec![
                instance("4320"),
                InstanceEntry { is_dir: false, pid_text: Some("4321".to_string()) },
                InstanceEntry { is_dir: true, pid_text: None },
            ],
        },
        Event::Done,
    ];
    let (session, actions) = FlatpakSession::run(1000, "/tmp", &events);
    assert_eq!(actions[4..], [Action::Deregister, Action::Finish]);
    assert_eq!(generic_message(&session), "No pidfs dir found for pid.");
}

#[test]
fn locator_fails_with_malformed_and_with_not_numeric() {
    for (text, message) in [
        ("{\"child-pid\": ", "Failed to parse bwrapinfo.json."),
        ("{\"child-pid\": \"9999\"}", "Failed to convert pid to integer."),
        ("{\"child-pid\": 4294967297}", "Failed to convert pid to integer."),
        ("{\"child-pid\": 4294967295}", "Failed to convert pid to integer."),
    ] {
        let events = vec![
            Event::Launched { pid: 4321 },
            Event::Done,
            Event::Exited { code: Some(0) },
            Event::Instances { instances: vec![instance("4321")] },
            descriptor(text),
            failed("already gone"),
        ];
        let (session, actions) = FlatpakSession::run(1000, "/tmp", &events);
        assert_eq!(actions[5..], [Action::Deregister, Action::Finish]);
        assert!(!actions.iter().any(|action| matches!(action, Action::Probe { .. })));
        assert_eq!(generic_message(&session), message);
    }
}

#[test]
fn io_failures_end_the_run_after_deregistering() {
    let prefix = [
        Event::Launched { pid: 4321 },
        Event::Done,
        Event::Exited { code: Some(0) },
        Event::Instances { instances: vec![instance("4321")] },
    ];
    let messages = ["wait failed", "no sandbox directory", "descriptor unreadable"];
    for (fails_at, message) in [(2usize, messages[0]), (3, messages[1]), (4, messages[2])] {
        let mut events: Vec<Event> = Vec::new();
        for (i, event) in prefix.iter().enumerate() {
            if i < fails_at {
                events.push(match event {
                    Event::Launched { pid } => Event::Launched { pid: *pid },
                    Event::Exited { code } => Event::Exited { code: *code },
                    Event::Instances { .. } => {
                        Event::Instances { instances: vec![instance("4321")] }
                    }
                    _ => Event::Done,
                });
            }
        }
        events.push(failed(message));
        events.push(Event::Done);
        let (session, actions) = FlatpakSession::run(1000, "/tmp", &events);
        assert_eq!(actions[actions.len() - 2..], [Action::Deregister, Action::Finish]);
        assert_eq!(actions.iter().filter(|a| **a == Action::Register).count(), 1);
        assert_eq!(io_message(&session), message);
    }
}

#[test]
fn registry_that_cannot_be_counted_is_an_io_error() {
    let mut events = events_up_to_the_count();
    events.push(failed("No such file or directory (os error 2)"));
    events.push(Event::Done);
    let (session, actions) = FlatpakSession::run(1000, "/tmp", &events);
    assert_eq!(actions[actions.len() - 2..], [Action::Deregister, Action::Finish]);
    assert!(!actions.iter().any(|a| matches!(a, Action::FindProcesses { .. })));
    assert_eq!(io_message(&session), "No such file or directory (os error 2)");
}

#[test]
fn cleanup_with_no_matching_process_ends_well() {
    let mut events = events_up_to_the_count();
    events.push(Event::Counted { entries: 1 });
    events.push(Event::Processes { processes: vec![process("1", "systemd")] });
    events.push(Event::Processes { processes: vec![] });
    events.push(Event::Done);
    let (session, actions) = FlatpakSession::run(1000, "/tmp", &events);
    let mut expected = actions_up_to_the_count();
    expected.extend([
        Action::FindProcesses { daemon: Daemon::SessionHelper },
        Action::FindProcesses { daemon: Daemon::Portal },
        Action::Deregister,
        Action::Finish,
    ]);
    assert_eq!(actions, expected);
    assert!(matches!(session.outcome(), Some(Ok(()))));
}

#[test]
fn cleanup_goes_on_after_a_signal_that_fails() {
    let mut events = events_up_to_the_count();
    events.push(Event::Counted { entries: 1 });
    events.push(Event::Processes { processes: vec![] });
    events.push(Event::Processes {
        processes: vec![
            process("10", "flatpak-portal"),
            process("20", "flatpak-portal"),
            process("30", "flatpak-portal"),
        ],
    });
    events.push(Event::Done);
    events.push(failed("No such process (os error 3)"));
    events.push(Event::Done);
    events.push(failed("removal failed"));
    let (session, actions) = FlatpakSession::run(1000, "/tmp", &events);
    let mut expected = actions_up_to_the_count();
    expected.extend([
        Action::FindProcesses { daemon: Daemon::SessionHelper },
        Action::FindProcesses { daemon: Daemon::Portal },
        Action::Signal { pid: 10, signal: 15 },
        Action::Signal { pid: 20, signal: 15 },
        Action::Signal { pid: 30, signal: 15 },
        Action::Deregister,
        Action::Finish,
    ]);
    assert_eq!(actions, expected);
    assert!(matches!(session.outcome(), Some(Ok(()))));
}

#[test]
fn cleanup_goes_on_after_a_listing_that_fails() {
    let mut events = events_up_to_the_count();
    events.push(Event::Counted { entries: 1 });
    events.push(failed("Permission denied (os error 13)"));
    events.push(failed("Permission denied (os error 13)"));
    events.push(Event::Done);
    let (session, actions) = FlatpakSession::run(1000, "/tmp", &events);
    let mut expected = actions_up_to_the_count();
    expected.extend([
        Action::FindProcesses { daemon: Daemon::SessionHelper },
        Action::FindProcesses { daemon: Daemon::Portal },
        Action::Deregister,
        Action::Finish,
    ]);
    assert_eq!(actions, expected);
    assert!(matches!(session.outcome(), Some(Ok(()))));
}

#[test]
fn event_that_answers_nothing_is_passed_over() {
    let session = FlatpakSession::new(1000, "/tmp");
    let (session, action) = session.step(&Event::Counted { entries: 1 });
    assert_eq!(action, Action::Launch);
    assert_eq!(session.phase(), Phase::Launching);
    let (session, action) = session.step(&Event::Done);
    assert_eq!(action, Action::Launch);
    let (session, _) = session.step(&Event::Launched { pid: 4321 });
    let (session, action) = session.step(&Event::Exited { code: Some(0) });
    assert_eq!(action, Action::Register);
    let (session, _) = session.step(&Event::Done);
    let (session, action) = session.step(&Event::Done);
    assert_eq!(action, Action::WaitLauncher);
    let (session, _) = session.step(&Event::Exited { code: None });
    let (session, action) = session.step(&Event::Probed { status: 0 });
    assert_eq!(action, Action::ListInstances);
    let (session, _) = session.step(&Event::Instances { instances: vec![instance("4321")] });
    let (session, _) = session.step(&descriptor("{\"child-pid\": 9999}"));
    let (session, action) = session.step(&failed("x"));
    assert_eq!(action, Action::Probe { pid: 9999 });
    assert!(session.outcome().is_none());
}

#[test]
fn finished_session_stays_finished() {
    let events = vec![Event::Launched { pid: 4321 }, failed("x"), Event::Done];
    let (session, _) = FlatpakSession::run(1000, "/tmp", &events);
    assert_eq!(session.phase(), Phase::Finished);
    let (session, action) = session.step(&Event::Launched { pid: 1 });
    assert_eq!(action, Action::Finish);
    let (session, action) = session.step(&Event::Done);
    assert_eq!(action, Action::Finish);
    assert_eq!(session.child_pid(), "4321");
    assert_eq!(io_message(&session), "x");
}

#[test]
fn run_of_no_events_asks_for_the_launch() {
    let (session, actions) = FlatpakSession::run(0, "/var/tmp/", &vec![]);
    assert_eq!(actions, vec![Action::Launch]);
    assert_eq!(session.uid(), "0");
    assert_eq!(session.tmp_dir(), "/var/tmp/.flatkap-0");
    assert_eq!(session.run_dir(), "/run/user/0/.flatpak");
}

#[test]
fn nothing_but_probe_sleep_and_signal_is_asked_for_twice() {
    let mut events = events_up_to_the_count();
    events.push(Event::Counted { entries: 1 });
    events.push(Event::Processes { processes: vec![process("900", "flatpak-session-helper")] });
    events.push(failed("No such process (os error 3)"));
    events.push(Event::Processes {
        processes: vec![process("812", "flatpak-portal"), process("812", "flatpak-portal")],
    });
    events.push(Event::Done);
    events.push(Event::Done);
    events.push(Event::Done);
    let (session, actions) = FlatpakSession::run(1000, "/tmp", &events);
    assert_eq!(session.phase(), Phase::Finished);
    for (i, action) in actions.iter().enumerate() {
        let repeats = matches!(
            action,
            Action::Probe { .. } | Action::Sleep { .. } | Action::Signal { .. }
        );
        if !repeats {
            assert!(!actions[i + 1..].contains(action), "{:?} is asked for twice", action);
        }
    }
    assert_eq!(actions.iter().filter(|a| **a == Action::Deregister).count(), 1);
    assert_eq!(actions.iter().filter(|a| **a == Action::Register).count(), 1);
    assert_eq!(actions.iter().filter(|a| **a == Action::Launch).count(), 1);
}
