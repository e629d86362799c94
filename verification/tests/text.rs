//! The event labels, messages, and hostname trimming.

use forever::info::RuntimeInfo;

#[test]
fn label_names_the_host() {
    assert_eq!(forever::event_label("myhost"), "supervised-by(myhost)");
    assert_eq!(forever::event_label(""), "supervised-by()");
}

#[test]
fn join_empty_command() {
    let cmd: Vec<String> = vec![];
    assert_eq!(forever::join_command(&cmd), "");
}

#[test]
fn join_single_word() {
    let cmd = vec![String::from("false")];
    assert_eq!(forever::join_command(&cmd), "false");
}

#[test]
fn join_many_words() {
    let cmd = vec![
        String::from("sh"),
        String::from("-c"),
        String::from("exit 3"),
    ];
    assert_eq!(forever::join_command(&cmd), "sh -c exit 3");
}

#[test]
fn starting_message_quotes_command() {
    let cmd = vec![String::from("sleep"), String::from("1")];
    assert_eq!(forever::starting_message(&cmd), "Starting command: sleep 1");
}

#[test]
fn restart_message_quotes_command() {
    let cmd = vec![String::from("false")];
    assert_eq!(
        forever::restart_message(&cmd),
        "Command exited, restarting: false"
    );
}

#[test]
fn welcome_text() {
    assert_eq!(forever::welcome_message(), "Welcome to ForEver");
}

#[test]
fn hostname_trims_trailing_newline() {
    assert_eq!(forever::hostname_from_output(true, "myhost\n"), "myhost");
}

#[test]
fn hostname_trims_both_ends_only() {
    assert_eq!(forever::hostname_from_output(true, " \tmy host\r\n"), "my host");
}

#[test]
fn hostname_of_blank_output_is_empty() {
    assert_eq!(forever::hostname_from_output(true, " \n\t"), "");
    assert_eq!(forever::hostname_from_output(true, ""), "");
}

#[test]
fn hostname_without_whitespace_is_kept() {
    assert_eq!(forever::hostname_from_output(true, "myhost"), "myhost");
}

#[test]
fn failed_lookup_falls_back_to_unknown() {
    assert_eq!(forever::hostname_from_output(false, "ignored"), "unknown");
}

#[test]
fn runtime_info_records_each_transition() {
    let mut info = RuntimeInfo::new(String::from("box"), 10);
    assert!(!info.up);
    assert_eq!(info.restarts, 0);

    info.record_spawn(42, 7_000);
    assert!(info.up);
    assert_eq!(info.pid, 42);
    assert_eq!(info.start_time, 7_000);
    assert_eq!(info.hostname, "box");

    info.record_exit(7_500);
    assert!(!info.up);
    assert_eq!(info.last_restart, 7_500);
    assert_eq!(info.start_time, 7_000);

    info.record_restart();
    assert_eq!(info.restarts, 1);
    assert_eq!(info.hostname, "box");
}
