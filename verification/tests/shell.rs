use comma::shell::{
    get_all_parents_pid, get_parent_pid, get_process_name, get_process_status_field,
    is_known_shell, select_shell_from_pid, LookupFailure, ProcessLookupError, ProcessTable,
};

fn status(name: &str, ppid: u32) -> Option<Vec<u8>> {
    Some(
        format!("Name:\t{}\nUmask:\t0022\nState:\tS (sleeping)\nTgid:\t7\nPid:\t7\nPPid:\t{}\nTracerPid:\t0\n", name, ppid)
            .into_bytes(),
    )
}

fn failure(pid: u32, reason: LookupFailure) -> Result<Option<String>, ProcessLookupError> {
    Err(ProcessLookupError { pid, reason })
}

#[test]
fn known_shells() {
    for name in ["ash", "bash", "elvish", "fish", "nu", "pwsh", "tcsh", "zsh"] {
        assert!(is_known_shell(name), "{}", name);
    }
    for name in ["sh", "dash", "Bash", "bash ", "", "zsh5", "systemd", "csh"] {
        assert!(!is_known_shell(name), "{}", name);
    }
}

#[test]
fn status_field_is_read_from_its_line() {
    let text = "Name:\tbash\nUmask:\t0022\nPPid:\t 4711 \nNStgid:\t1\n";
    assert_eq!(get_process_status_field(text, "Name"), Ok("bash".to_string()));
    assert_eq!(get_process_status_field(text, "PPid"), Ok("4711".to_string()));
    assert_eq!(get_process_status_field(text, "Umask"), Ok("0022".to_string()));
    assert_eq!(get_process_status_field("Name:", "Name"), Ok(String::new()));
}

#[test]
fn status_field_that_is_missing() {
    let text = "Name:\tbash\nPPid:\t1\n";
    assert_eq!(get_process_status_field(text, "Pid"), Err(LookupFailure::NoField));
    assert_eq!(get_process_status_field("", "Name"), Err(LookupFailure::NoField));
    assert_eq!(get_process_status_field(" Name:\tx", "Name"), Err(LookupFailure::NoField));
}

#[test]
fn status_field_goes_by_the_first_line_that_begins_with_its_name() {
    let text = "PPidX:\t9\nPPid:\t1\n";
    assert_eq!(get_process_status_field(text, "PPid"), Err(LookupFailure::NoColon));
    assert_eq!(get_process_status_field("Name\tbash\n", "Name"), Err(LookupFailure::NoColon));
    assert_eq!(get_process_status_field("Name", "Name"), Err(LookupFailure::NoColon));
}

#[test]
fn parent_pid_is_a_number() {
    assert_eq!(get_parent_pid("Name:\tbash\nPPid:\t4711\n"), Ok(4711));
    assert_eq!(get_parent_pid("PPid:\t0\n"), Ok(0));
    assert_eq!(get_parent_pid("PPid:\t4294967295"), Ok(4294967295));
    assert_eq!(get_parent_pid("PPid:\t4294967296\n"), Err(LookupFailure::NotANumber));
    assert_eq!(get_parent_pid("PPid:\t-1\n"), Err(LookupFailure::NotANumber));
    assert_eq!(get_parent_pid("PPid:\t\n"), Err(LookupFailure::NotANumber));
    assert_eq!(get_parent_pid("PPid:\t1 2\n"), Err(LookupFailure::NotANumber));
    assert_eq!(get_parent_pid("Name:\tbash\n"), Err(LookupFailure::NoField));
}

#[test]
fn process_name_is_the_name_field() {
    assert_eq!(get_process_name("Name:\tfish\nPPid:\t1\n"), Ok("fish".to_string()));
    assert_eq!(get_process_name("Name:\tTor Browser\n"), Ok("Tor Browser".to_string()));
    assert_eq!(get_process_name("PPid:\t1\n"), Err(LookupFailure::NoField));
}

#[test]
fn shell_is_found_among_the_parents() {
    let mut table = ProcessTable::new();
    table.record(1, status("init", 0));
    table.record(5, status("bash", 1));
    table.record(10, status("comma", 5));
    assert_eq!(select_shell_from_pid(&table, 10), Ok(Some("bash".to_string())));
}

#[test]
fn shell_is_found_far_up() {
    let mut table = ProcessTable::new();
    table.record(1, status("systemd", 0));
    table.record(2, status("zsh", 1));
    table.record(3, status("tmux: server", 2));
    table.record(4, status("sudo", 3));
    table.record(5, status("env", 4));
    table.record(6, status("comma", 5));
    assert_eq!(select_shell_from_pid(&table, 6), Ok(Some("zsh".to_string())));
}

#[test]
fn nearest_shell_counts() {
    let mut table = ProcessTable::new();
    table.record(1, status("init", 0));
    table.record(2, status("bash", 1));
    table.record(3, status("fish", 2));
    table.record(4, status("comma", 3));
    assert_eq!(select_shell_from_pid(&table, 4), Ok(Some("fish".to_string())));
}

#[test]
fn starting_process_counts_too() {
    let mut table = ProcessTable::new();
    table.record(1, status("init", 0));
    table.record(2, status("nu", 1));
    assert_eq!(select_shell_from_pid(&table, 2), Ok(Some("nu".to_string())));
}

#[test]
fn no_shell_up_to_the_root() {
    let mut table = ProcessTable::new();
    table.record(1, status("init", 0));
    table.record(5, status("sshd", 1));
    table.record(10, status("comma", 5));
    assert_eq!(select_shell_from_pid(&table, 10), Ok(None));
    assert_eq!(select_shell_from_pid(&table, 1), Ok(None));
}

#[test]
fn parents_in_a_circle_hold_no_shell() {
    let mut table = ProcessTable::new();
    table.record(5, status("a", 6));
    table.record(6, status("b", 7));
    table.record(7, status("c", 5));
    assert_eq!(select_shell_from_pid(&table, 5), Ok(None));
    let mut own = ProcessTable::new();
    own.record(9, status("self", 9));
    assert_eq!(select_shell_from_pid(&own, 9), Ok(None));
}

#[test]
fn shell_before_a_circle_is_found() {
    let mut table = ProcessTable::new();
    table.record(5, status("a", 6));
    table.record(6, status("b", 7));
    table.record(7, status("tcsh", 6));
    assert_eq!(select_shell_from_pid(&table, 5), Ok(Some("tcsh".to_string())));
}

#[test]
fn process_that_is_not_recorded_is_asked_for() {
    let mut table = ProcessTable::new();
    assert_eq!(select_shell_from_pid(&table, 10), failure(10, LookupFailure::NotRecorded));
    table.record(10, status("comma", 5));
    assert_eq!(select_shell_from_pid(&table, 10), failure(5, LookupFailure::NotRecorded));
    table.record(5, status("sudo", 3));
    assert_eq!(select_shell_from_pid(&table, 10), failure(3, LookupFailure::NotRecorded));
    table.record(3, status("elvish", 1));
    assert_eq!(select_shell_from_pid(&table, 10), Ok(Some("elvish".to_string())));
}

#[test]
fn process_that_cannot_be_read_ends_the_search() {
    let mut table = ProcessTable::new();
    table.record(10, status("comma", 5));
    table.record(5, None);
    table.record(1, status("bash", 0));
    assert_eq!(select_shell_from_pid(&table, 10), failure(5, LookupFailure::Unreadable));
}

#[test]
fn shell_below_a_process_that_cannot_be_read_is_found() {
    let mut table = ProcessTable::new();
    table.record(10, status("comma", 5));
    table.record(5, status("pwsh", 4));
    table.record(4, None);
    assert_eq!(select_shell_from_pid(&table, 10), Ok(Some("pwsh".to_string())));
}

#[test]
fn status_that_cannot_be_understood_ends_the_search() {
    let mut table = ProcessTable::new();
    table.record(1, Some(vec![0xff, 0xfe]));
    table.record(2, Some(b"Name:\tx\n".to_vec()));
    table.record(3, Some(b"PPid:\t1\n".to_vec()));
    table.record(4, Some(b"Name:\tx\nPPid:\tone\n".to_vec()));
    table.record(5, Some(b"Name\tx\nPPid:\t1\n".to_vec()));
    assert_eq!(select_shell_from_pid(&table, 1), failure(1, LookupFailure::NotText));
    assert_eq!(select_shell_from_pid(&table, 2), failure(2, LookupFailure::NoField));
    assert_eq!(select_shell_from_pid(&table, 3), failure(3, LookupFailure::NoField));
    assert_eq!(select_shell_from_pid(&table, 4), failure(4, LookupFailure::NotANumber));
    assert_eq!(select_shell_from_pid(&table, 5), failure(5, LookupFailure::NoColon));
}

#[test]
fn later_record_of_a_process_counts() {
    let mut table = ProcessTable::new();
    table.record(2, None);
    table.record(2, status("ash", 0));
    assert_eq!(select_shell_from_pid(&table, 2), Ok(Some("ash".to_string())));
}

#[test]
fn parents_are_listed_up_to_the_root() {
    let mut table = ProcessTable::new();
    table.record(1, status("init", 0));
    table.record(5, status("bash", 1));
    table.record(10, status("comma", 5));
    assert_eq!(get_all_parents_pid(&table, 10), Ok(vec![5, 1]));
    assert_eq!(get_all_parents_pid(&table, 5), Ok(vec![1]));
    assert_eq!(get_all_parents_pid(&table, 1), Ok(vec![]));
}

#[test]
fn parents_need_no_names() {
    let mut table = ProcessTable::new();
    table.record(1, Some(b"PPid:\t0\n".to_vec()));
    table.record(2, Some(b"PPid:\t1\n".to_vec()));
    assert_eq!(get_all_parents_pid(&table, 2), Ok(vec![1]));
}

#[test]
fn parents_in_a_circle_are_cut_off() {
    let mut table = ProcessTable::new();
    table.record(5, status("a", 6));
    table.record(6, status("b", 7));
    table.record(7, status("c", 5));
    assert_eq!(get_all_parents_pid(&table, 5), Ok(vec![6, 7, 5]));
}

#[test]
fn parents_of_a_process_that_is_not_recorded() {
    let mut table = ProcessTable::new();
    assert_eq!(
        get_all_parents_pid(&table, 10),
        Err(ProcessLookupError { pid: 10, reason: LookupFailure::NotRecorded })
    );
    table.record(10, status("comma", 5));
    assert_eq!(
        get_all_parents_pid(&table, 10),
        Err(ProcessLookupError { pid: 5, reason: LookupFailure::NotRecorded })
    );
    table.record(5, None);
    assert_eq!(
        get_all_parents_pid(&table, 10),
        Err(ProcessLookupError { pid: 5, reason: LookupFailure::Unreadable })
    );
}
