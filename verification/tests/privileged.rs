use idkspot::privileged::{
    direct_command, helper_command, submit_line, submit_outcome, ChannelState, PrivilegedChannel,
};

#[test]
fn the_helper_reads_and_evaluates_lines() {
    assert_eq!(helper_command(), vec!["sh", "-c", "while read cmd; do eval \"$cmd\"; done"]);
}

#[test]
fn a_direct_command_runs_in_the_shell() {
    assert_eq!(direct_command("iptables -L"), vec!["sh", "-c", "iptables -L"]);
}

#[test]
fn a_submission_is_the_command_and_a_line_feed() {
    assert_eq!(submit_line("iptables -L"), "iptables -L\n");
    assert_eq!(submit_line(""), "\n");
}

#[test]
fn a_submission_needs_channel_write_and_flush() {
    assert!(submit_outcome(true, true, true));
    assert!(!submit_outcome(false, true, true));
    assert!(!submit_outcome(true, false, true));
    assert!(!submit_outcome(true, true, false));
    assert!(!submit_outcome(false, false, false));
}

#[test]
fn a_helper_that_did_not_start_leaves_the_channel_unopened() {
    let mut channel = PrivilegedChannel::new();
    assert_eq!(channel.state, ChannelState::Unopened);
    assert!(!channel.is_open());
    channel.opened(false);
    assert_eq!(channel.state, ChannelState::Unopened);
    assert!(!channel.close());
    assert_eq!(channel.state, ChannelState::Unopened);
}

#[test]
fn closing_twice_terminates_once() {
    let mut channel = PrivilegedChannel::new();
    channel.opened(true);
    assert!(channel.is_open());
    assert!(channel.close());
    assert_eq!(channel.state, ChannelState::Closed);
    assert!(!channel.is_open());
    assert!(!channel.close());
    assert_eq!(channel.state, ChannelState::Closed);
    channel.opened(true);
    assert_eq!(channel.state, ChannelState::Closed);
}
