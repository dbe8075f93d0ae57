use flatkap::util::{
    entry_pid, find_named_process_pids, process_alive, procfs_path, ProcEntry,
    POLL_INTERVAL_SECONDS, PROC_DIR_PREFIX, PROC_FILE_EXE,
};

fn process(dir_name: &str, exe_name: &str) -> ProcEntry {
    ProcEntry { dir_name: Some(dir_name.to_string()), exe_name: Some(exe_name.to_string()) }
}

#[test]
fn names_of_the_process_file_system() {
    assert_eq!(PROC_DIR_PREFIX, "/proc");
    assert_eq!(PROC_FILE_EXE, "exe");
    assert_eq!(POLL_INTERVAL_SECONDS, 1);
}

#[test]
fn processes_are_found_by_executable_name() {
    let entries = vec![
        process("1", "systemd"),
        process("812", "flatpak-portal"),
        process("900", "flatpak-session-helper"),
        process("1044", "flatpak-portal"),
        process("2000", "bash"),
    ];
    assert_eq!(find_named_process_pids("flatpak-portal", &entries), vec![812, 1044]);
    assert_eq!(find_named_process_pids("flatpak-session-helper", &entries), vec![900]);
    assert_eq!(find_named_process_pids("systemd", &entries), vec![1]);
}

#[test]
fn no_process_is_found_where_none_carries_the_name() {
    let entries = vec![process("1", "systemd"), process("2000", "bash")];
    assert_eq!(find_named_process_pids("flatpak-portal", &entries), Vec::<i32>::new());
    assert_eq!(find_named_process_pids("flatpak-portal", &vec![]), Vec::<i32>::new());
}

#[test]
fn executable_name_must_be_equal_not_alike() {
    let entries = vec![
        process("1", "flatpak-portal2"),
        process("2", "flatpak-porta"),
        process("3", "Flatpak-Portal"),
        process("4", "xdg-flatpak-portal"),
        process("5", ""),
        process("6", "flatpak-portal"),
    ];
    assert_eq!(find_named_process_pids("flatpak-portal", &entries), vec![6]);
}

#[test]
fn entries_that_are_no_process_are_passed_over() {
    let entries = vec![
        process("self", "flatpak-portal"),
        process("", "flatpak-portal"),
        process("12x", "flatpak-portal"),
        process("99999999999", "flatpak-portal"),
        ProcEntry { dir_name: None, exe_name: Some("flatpak-portal".to_string()) },
        ProcEntry { dir_name: Some("77".to_string()), exe_name: None },
        ProcEntry { dir_name: None, exe_name: None },
        process("+15", "flatpak-portal"),
        process("-3", "flatpak-portal"),
        process("0042", "flatpak-portal"),
    ];
    assert_eq!(find_named_process_pids("flatpak-portal", &entries), vec![15, -3, 42]);
}

#[test]
fn processes_are_found_in_the_order_of_the_listing() {
    let entries = vec![
        process("30", "flatpak-portal"),
        process("10", "flatpak-portal"),
        process("20", "flatpak-portal"),
        process("10", "flatpak-portal"),
    ];
    assert_eq!(find_named_process_pids("flatpak-portal", &entries), vec![30, 10, 20, 10]);
}

#[test]
fn one_entry_gives_its_pid_where_the_name_fits() {
    let name = "flatpak-portal".to_string();
    assert_eq!(entry_pid(&name, &process("812", "flatpak-portal")), Some(812));
    assert_eq!(entry_pid(&name, &process("812", "bash")), None);
    assert_eq!(entry_pid(&name, &process("cpuinfo", "flatpak-portal")), None);
}

#[test]
fn procfs_path_is_the_prefix_and_the_pid() {
    assert_eq!(procfs_path(1), "/proc/1");
    assert_eq!(procfs_path(812), "/proc/812");
    assert_eq!(procfs_path(0), "/proc/0");
    assert_eq!(procfs_path(i32::MAX), "/proc/2147483647");
    assert_eq!(procfs_path(-5), "/proc/-5");
    assert_eq!(procfs_path(i32::MIN), "/proc/-2147483648");
}

#[test]
fn procfs_path_is_what_a_path_buffer_builds() {
    for pid in [1, 812, 4321, -1, i32::MAX] {
        let mut path = std::path::PathBuf::from("/proc");
        path.push(pid.to_string());
        assert_eq!(path.to_str(), Some(procfs_path(pid).as_str()));
    }
}

#[test]
fn probe_status_zero_means_alive() {
    assert!(process_alive(0));
    assert!(!process_alive(-1));
    assert!(!process_alive(1));
    assert!(!process_alive(i32::MIN));
}
