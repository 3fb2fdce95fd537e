use idkspot::blocklist::{
    add_to_blocklist, block_command, block_device, is_blocked, load_blocklist,
    remove_from_blocklist, unblock_command, unblock_device, BlockAction, UnblockAction,
};

const BLOCK_01: &str = "iptables -I FORWARD 1 -m mac --mac-source AA:BB:CC:DD:EE:01 -j DROP; iptables -I INPUT 1 -m mac --mac-source AA:BB:CC:DD:EE:01 -j DROP";

const UNBLOCK_01: &str = "iptables -D FORWARD -m mac --mac-source AA:BB:CC:DD:EE:01 -j DROP 2>/dev/null; iptables -D INPUT -m mac --mac-source AA:BB:CC:DD:EE:01 -j DROP 2>/dev/null";

#[test]
fn a_stored_text_lists_its_lines_in_upper_case() {
    assert_eq!(load_blocklist(""), Vec::<String>::new());
    assert_eq!(
        load_blocklist("AA:BB:CC:DD:EE:01\naa:bb:cc:dd:ee:02\n"),
        vec!["AA:BB:CC:DD:EE:01", "AA:BB:CC:DD:EE:02"]
    );
    assert_eq!(load_blocklist("\n\naa\n\nbb"), vec!["AA", "BB"]);
    assert_eq!(load_blocklist("aa\r\nbb\r\n"), vec!["AA", "BB"]);
}

#[test]
fn an_address_is_listed_once() {
    assert_eq!(load_blocklist("AA\nBB\naa\nAa\nCC\nbb\n"), vec!["AA", "BB", "CC"]);
    let once = add_to_blocklist("", "AA:BB:CC:DD:EE:01");
    let twice = add_to_blocklist(&once, "AA:BB:CC:DD:EE:01");
    assert_eq!(load_blocklist(&twice), vec!["AA:BB:CC:DD:EE:01"]);
    let again = add_to_blocklist(&twice, "aa:bb:cc:dd:ee:01");
    assert_eq!(load_blocklist(&again), vec!["AA:BB:CC:DD:EE:01"]);
}

#[test]
fn a_blocked_address_is_stored_in_upper_case_on_a_line_of_its_own() {
    assert_eq!(add_to_blocklist("", "AA:BB:CC:DD:EE:01"), "AA:BB:CC:DD:EE:01\n");
    assert_eq!(
        add_to_blocklist("AA:BB:CC:DD:EE:01\n", "aa:bb:cc:dd:ee:02"),
        "AA:BB:CC:DD:EE:01\nAA:BB:CC:DD:EE:02\n"
    );
}

#[test]
fn a_last_line_without_ending_is_completed_before_an_address_is_added() {
    assert_eq!(add_to_blocklist("AA:BB:CC:DD:EE:01", "AA:BB:CC:DD:EE:02"), "AA:BB:CC:DD:EE:01\nAA:BB:CC:DD:EE:02\n");
    assert_eq!(
        load_blocklist(&add_to_blocklist("AA:BB:CC:DD:EE:01", "AA:BB:CC:DD:EE:02")),
        vec!["AA:BB:CC:DD:EE:01", "AA:BB:CC:DD:EE:02"]
    );
    let stored = add_to_blocklist("AA\r", "BB");
    assert_eq!(stored, "AA\r\r\nBB\n");
    assert_eq!(load_blocklist("AA\r"), vec!["AA\r"]);
    assert_eq!(load_blocklist(&stored), vec!["AA\r", "BB"]);
}

#[test]
fn an_added_address_is_listed_after_a_restart() {
    let stored = add_to_blocklist("", "AA:BB:CC:DD:EE:01");
    assert_eq!(load_blocklist(&stored), vec!["AA:BB:CC:DD:EE:01"]);
    let stored = add_to_blocklist(&stored, "aa:bb:cc:dd:ee:02");
    let reread = stored.clone();
    assert_eq!(load_blocklist(&reread), vec!["AA:BB:CC:DD:EE:01", "AA:BB:CC:DD:EE:02"]);
    assert!(is_blocked(&load_blocklist(&reread), "AA:BB:CC:DD:EE:02"));
}

#[test]
fn a_removed_address_is_no_longer_listed() {
    let stored = "AA:BB:CC:DD:EE:01\nAA:BB:CC:DD:EE:02\nAA:BB:CC:DD:EE:03\n";
    let rest = remove_from_blocklist(stored, "aa:bb:cc:dd:ee:02");
    assert_eq!(rest, "AA:BB:CC:DD:EE:01\nAA:BB:CC:DD:EE:03\n");
    assert_eq!(load_blocklist(&rest), vec!["AA:BB:CC:DD:EE:01", "AA:BB:CC:DD:EE:03"]);
    assert!(!is_blocked(&load_blocklist(&rest), "AA:BB:CC:DD:EE:02"));
}

#[test]
fn adding_and_removing_in_turn_keeps_one_address_on_each_line() {
    let stored = add_to_blocklist("", "AA:BB:CC:DD:EE:01");
    let stored = add_to_blocklist(&stored, "AA:BB:CC:DD:EE:02");
    let stored = remove_from_blocklist(&stored, "AA:BB:CC:DD:EE:01");
    assert_eq!(stored, "AA:BB:CC:DD:EE:02\n");
    let stored = add_to_blocklist(&stored, "AA:BB:CC:DD:EE:03");
    assert_eq!(stored, "AA:BB:CC:DD:EE:02\nAA:BB:CC:DD:EE:03\n");
    assert_eq!(load_blocklist(&stored), vec!["AA:BB:CC:DD:EE:02", "AA:BB:CC:DD:EE:03"]);
}

#[test]
fn removal_sets_the_case_aside_and_takes_every_copy() {
    let stored = "aa:bb:cc:dd:ee:01\nAA:BB:CC:DD:EE:02\nAa:Bb:Cc:Dd:Ee:01\n";
    assert_eq!(remove_from_blocklist(stored, "AA:BB:CC:DD:EE:01"), "AA:BB:CC:DD:EE:02\n");
    assert_eq!(
        remove_from_blocklist(stored, "aa:bb:cc:dd:ee:02"),
        "aa:bb:cc:dd:ee:01\nAa:Bb:Cc:Dd:Ee:01\n"
    );
    assert_eq!(remove_from_blocklist(stored, "AA:BB:CC:DD:EE:03"), stored);
    assert_eq!(remove_from_blocklist("AA\n", "aa"), "");
    assert_eq!(remove_from_blocklist("", "aa"), "");
}

#[test]
fn lines_that_stay_are_written_as_they_were() {
    assert_eq!(remove_from_blocklist("AA\nBB", "CC"), "AA\nBB\n");
    assert_eq!(remove_from_blocklist("AA\r\nBB\r\n", "CC"), "AA\nBB\n");
    assert_eq!(remove_from_blocklist("AA\n\nBB\n", "AA"), "\nBB\n");
    let rest = remove_from_blocklist("X\r\r\nY", "X");
    assert_eq!(rest, "X\r\r\nY\n");
    assert_eq!(load_blocklist(&rest), vec!["X\r", "Y"]);
    assert!(!is_blocked(&load_blocklist(&rest), "X"));
}

#[test]
fn listed_addresses_are_in_upper_case_and_not_empty() {
    for entry in load_blocklist("aa\n\nBb\r\n\ncC\n\u{e9}x") {
        assert!(!entry.is_empty());
        assert_eq!(entry, entry.to_ascii_uppercase());
    }
    assert_eq!(load_blocklist("aa\n\nBb\r\n\ncC\n\u{e9}x"), vec!["AA", "BB", "CC", "\u{e9}X"]);
}

#[test]
fn an_address_is_blocked_as_it_is_written() {
    let list = vec!["AA:BB:CC:DD:EE:01".to_string()];
    assert!(is_blocked(&list, "AA:BB:CC:DD:EE:01"));
    assert!(!is_blocked(&list, "aa:bb:cc:dd:ee:01"));
    assert!(!is_blocked(&list, "AA:BB:CC:DD:EE:02"));
    assert!(!is_blocked(&Vec::new(), "AA:BB:CC:DD:EE:01"));
}

#[test]
fn the_block_command_drops_in_both_chains() {
    assert_eq!(block_command("AA:BB:CC:DD:EE:01"), BLOCK_01);
}

#[test]
fn the_unblock_command_lifts_the_drop_in_both_chains() {
    assert_eq!(unblock_command("AA:BB:CC:DD:EE:01"), UNBLOCK_01);
}

#[test]
fn a_command_that_the_channel_takes_is_settled_and_stored() {
    let mut attempt = block_device("AA:BB:CC:DD:EE:01");
    assert_eq!(attempt.action(), BlockAction::Submit { line: format!("{}\n", BLOCK_01) });
    attempt.report(true);
    assert_eq!(attempt.action(), BlockAction::Settle { millis: 100 });
    attempt.report(true);
    assert_eq!(attempt.action(), BlockAction::Persist);
    assert_eq!(attempt.stored("AA:BB:CC:DD:EE:02\n"), "AA:BB:CC:DD:EE:02\nAA:BB:CC:DD:EE:01\n");
    attempt.report(true);
    assert_eq!(attempt.action(), BlockAction::Done { blocked: true });
    attempt.report(false);
    assert_eq!(attempt.action(), BlockAction::Done { blocked: true });
}

#[test]
fn a_command_that_the_channel_refuses_is_run_directly() {
    let mut attempt = block_device("AA:BB:CC:DD:EE:01");
    attempt.report(false);
    assert_eq!(
        attempt.action(),
        BlockAction::Elevate {
            arguments: vec!["sh".to_string(), "-c".to_string(), BLOCK_01.to_string()],
        }
    );
    attempt.report(true);
    assert_eq!(attempt.action(), BlockAction::Persist);
    attempt.report(true);
    assert_eq!(attempt.action(), BlockAction::Done { blocked: true });
}

#[test]
fn a_command_that_fails_both_ways_stores_nothing() {
    let mut attempt = block_device("AA:BB:CC:DD:EE:01");
    attempt.report(false);
    attempt.report(false);
    assert_eq!(attempt.action(), BlockAction::Done { blocked: false });
    attempt.report(true);
    assert_eq!(attempt.action(), BlockAction::Done { blocked: false });
}

#[test]
fn a_blocked_address_is_listed_after_a_removal_too() {
    let stored = remove_from_blocklist("AA:BB:CC:DD:EE:02\nAA:BB:CC:DD:EE:03\n", "AA:BB:CC:DD:EE:03");
    let mut attempt = block_device("aa:bb:cc:dd:ee:01");
    attempt.report(true);
    attempt.report(true);
    assert_eq!(attempt.action(), BlockAction::Persist);
    let stored = attempt.stored(&stored);
    assert_eq!(load_blocklist(&stored), vec!["AA:BB:CC:DD:EE:02", "AA:BB:CC:DD:EE:01"]);
}

#[test]
fn an_unblocking_tries_the_channel_first() {
    let mut attempt = unblock_device("AA:BB:CC:DD:EE:01");
    assert_eq!(attempt.action(), UnblockAction::Submit { line: format!("{}\n", UNBLOCK_01) });
    attempt.report(true);
    assert_eq!(attempt.action(), UnblockAction::Remove);
    assert_eq!(
        attempt.stored("AA:BB:CC:DD:EE:01\nAA:BB:CC:DD:EE:02\n"),
        "AA:BB:CC:DD:EE:02\n"
    );
    attempt.report(true);
    assert_eq!(attempt.action(), UnblockAction::Done);
    attempt.report(false);
    assert_eq!(attempt.action(), UnblockAction::Done);
}

#[test]
fn an_unblocking_falls_back_to_the_direct_run_and_never_fails() {
    let mut attempt = unblock_device("AA:BB:CC:DD:EE:01");
    attempt.report(false);
    assert_eq!(
        attempt.action(),
        UnblockAction::Elevate {
            arguments: vec!["sh".to_string(), "-c".to_string(), UNBLOCK_01.to_string()],
        }
    );
    attempt.report(false);
    assert_eq!(attempt.action(), UnblockAction::Remove);
    attempt.report(false);
    assert_eq!(attempt.action(), UnblockAction::Done);
}
