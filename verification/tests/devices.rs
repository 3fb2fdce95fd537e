use idkspot::blocklist::load_blocklist;
use idkspot::devices::{
    collect_devices, find_lease, get_connected_devices, get_hostname_for_mac,
    get_neighbor_devices, lease_paths, station_dump_command, ConnectedDevice, Poll,
};

const DUMP: &str = "Station aa:bb:cc:dd:ee:01 (on wlan0)\n\
\tinactive time:\t304 ms\n\
\trx bytes:\t18388\n\
Station AA:BB:CC:DD:EE:02 (on wlan0)\n\
\tinactive time:\t16 ms\n";

const LEASES: &str = "1700000000 aa:bb:cc:dd:ee:01 192.168.12.10 laptop 01:aa:bb:cc:dd:ee:01\n\
1700000100 AA:BB:CC:DD:EE:02 192.168.12.11 phone *\n\
1700000200 aa:bb:cc:dd:ee:02 192.168.12.12 other *\n\
short aa:bb:cc:dd:ee:03 192.168.12.13\n";

const TABLE: &str = "Address                  HWtype  HWaddress           Flags Mask            Iface\n\
192.168.12.10            ether   aa:bb:cc:dd:ee:01   C                     ap0\n\
192.168.12.11            ether   aa:bb:cc:dd:ee:02   C                     ap0\n\
192.168.12.12            ether   AA:BB:CC:DD:EE:01   C                     ap0\n\
192.168.1.1                      (incomplete)                              wlan0\n";

fn device(mac: &str, hostname: &str) -> ConnectedDevice {
    ConnectedDevice { mac: mac.to_string(), hostname: hostname.to_string() }
}

fn texts(items: &[&str]) -> Vec<String> {
    items.iter().map(|item| item.to_string()).collect()
}

#[test]
fn a_blocked_station_is_not_reported() {
    let dump = "Station AA:BB:CC:DD:EE:01 (on wlan0)\nStation AA:BB:CC:DD:EE:02 (on wlan0)\n";
    let blocked = texts(&["AA:BB:CC:DD:EE:01"]);
    assert_eq!(
        get_connected_devices(Some(dump), &blocked, &Vec::new()),
        Ok(Poll::Devices(vec![device("AA:BB:CC:DD:EE:02", "")]))
    );
}

#[test]
fn stations_are_reported_in_upper_case_with_their_names() {
    assert_eq!(
        get_connected_devices(Some(DUMP), &Vec::new(), &texts(&[LEASES])),
        Ok(Poll::Devices(vec![
            device("AA:BB:CC:DD:EE:01", "laptop"),
            device("AA:BB:CC:DD:EE:02", "phone"),
        ]))
    );
}

#[test]
fn the_block_list_is_read_fresh_for_a_poll() {
    let blocked = load_blocklist("aa:bb:cc:dd:ee:02\n");
    assert_eq!(
        get_connected_devices(Some(DUMP), &blocked, &Vec::new()),
        Ok(Poll::Devices(vec![device("AA:BB:CC:DD:EE:01", "")]))
    );
}

#[test]
fn a_station_listed_twice_is_reported_twice() {
    let dump = "Station aa:bb:cc:dd:ee:01 (on wlan0)\nStation AA:BB:CC:DD:EE:01 (on wlan0)\n";
    assert_eq!(
        get_connected_devices(Some(dump), &Vec::new(), &Vec::new()),
        Ok(Poll::Devices(vec![
            device("AA:BB:CC:DD:EE:01", ""),
            device("AA:BB:CC:DD:EE:01", ""),
        ]))
    );
}

#[test]
fn no_station_leads_to_the_neighbour_table() {
    assert_eq!(get_connected_devices(Some(""), &Vec::new(), &Vec::new()), Ok(Poll::Neighbors));
    assert_eq!(get_connected_devices(None, &Vec::new(), &Vec::new()), Ok(Poll::Neighbors));
    let blocked = texts(&["AA:BB:CC:DD:EE:01", "AA:BB:CC:DD:EE:02"]);
    assert_eq!(get_connected_devices(Some(DUMP), &blocked, &Vec::new()), Ok(Poll::Neighbors));
    assert_eq!(
        get_connected_devices(Some("Station aa:bb:cc:dd:ee:0 (short)\n"), &Vec::new(), &Vec::new()),
        Ok(Poll::Neighbors)
    );
}

#[test]
fn neighbours_are_reported_once() {
    assert_eq!(
        get_neighbor_devices(Some(TABLE), &Vec::new(), &texts(&[LEASES])),
        Ok(vec![device("AA:BB:CC:DD:EE:01", "laptop"), device("AA:BB:CC:DD:EE:02", "phone")])
    );
}

#[test]
fn a_blocked_neighbour_is_not_reported() {
    let blocked = texts(&["AA:BB:CC:DD:EE:01"]);
    assert_eq!(
        get_neighbor_devices(Some(TABLE), &blocked, &Vec::new()),
        Ok(vec![device("AA:BB:CC:DD:EE:02", "")])
    );
}

#[test]
fn no_table_leaves_no_neighbour() {
    assert_eq!(get_neighbor_devices(None, &Vec::new(), &Vec::new()), Ok(Vec::new()));
    assert_eq!(get_neighbor_devices(Some(""), &Vec::new(), &Vec::new()), Ok(Vec::new()));
}

#[test]
fn the_first_lease_for_an_address_names_it() {
    assert_eq!(find_lease(LEASES, "AA:BB:CC:DD:EE:01"), Some("laptop".to_string()));
    assert_eq!(find_lease(LEASES, "aa:bb:cc:dd:ee:02"), Some("phone".to_string()));
    assert_eq!(find_lease(LEASES, "AA:BB:CC:DD:EE:03"), None);
    assert_eq!(find_lease(LEASES, "AA:BB:CC:DD:EE:04"), None);
    assert_eq!(find_lease("", "AA:BB:CC:DD:EE:01"), None);
    assert_eq!(find_lease("  1\taa  2\u{a0}3  4  5", "AA"), Some("3".to_string()));
    assert_eq!(find_lease("  1\taa  2-3\t  4  5", "AA"), Some("4".to_string()));
    assert_eq!(find_lease("1 aa 2", "AA"), None);
}

#[test]
fn the_first_file_with_a_lease_wins() {
    let first = "1 aa:bb:cc:dd:ee:01 10.0.0.1 first *\n";
    let second = "1 aa:bb:cc:dd:ee:01 10.0.0.1 second *\n2 aa:bb:cc:dd:ee:02 10.0.0.2 two *\n";
    let files = texts(&[first, second]);
    assert_eq!(get_hostname_for_mac("AA:BB:CC:DD:EE:01", &files), "first");
    assert_eq!(get_hostname_for_mac("AA:BB:CC:DD:EE:02", &files), "two");
    assert_eq!(get_hostname_for_mac("AA:BB:CC:DD:EE:03", &files), "");
    assert_eq!(get_hostname_for_mac("AA:BB:CC:DD:EE:01", &Vec::new()), "");
    let files = texts(&[second, first]);
    assert_eq!(get_hostname_for_mac("AA:BB:CC:DD:EE:01", &files), "second");
}

#[test]
fn found_addresses_become_clients() {
    let found = vec![
        Some("aa:bb:cc:dd:ee:01".to_string()),
        None,
        Some("AA:BB:CC:DD:EE:02".to_string()),
        Some("Aa:Bb:Cc:Dd:Ee:01".to_string()),
        Some("aa:bb:cc:dd:ee:03".to_string()),
    ];
    let blocked = texts(&["AA:BB:CC:DD:EE:03"]);
    let files = texts(&[LEASES]);
    assert_eq!(
        collect_devices(&found, &blocked, &files, false),
        vec![
            device("AA:BB:CC:DD:EE:01", "laptop"),
            device("AA:BB:CC:DD:EE:02", "phone"),
            device("AA:BB:CC:DD:EE:01", "laptop"),
        ]
    );
    assert_eq!(
        collect_devices(&found, &blocked, &files, true),
        vec![device("AA:BB:CC:DD:EE:01", "laptop"), device("AA:BB:CC:DD:EE:02", "phone")]
    );
    assert_eq!(collect_devices(&Vec::new(), &blocked, &files, true), Vec::new());
}

#[test]
fn a_client_without_host_name_is_shown_as_unknown() {
    assert_eq!(device("AA:BB:CC:DD:EE:01", "").display_name(), "Unknown Device");
    assert_eq!(device("AA:BB:CC:DD:EE:01", "laptop").display_name(), "laptop");
    assert_eq!(device("AA:BB:CC:DD:EE:01", "*").display_name(), "*");
}

#[test]
fn the_station_dump_is_asked_for_the_interface() {
    assert_eq!(station_dump_command("wlan0"), vec!["dev", "wlan0", "station", "dump"]);
}

#[test]
fn the_lease_files_come_in_their_order() {
    assert_eq!(lease_paths(), vec!["/var/lib/misc/dnsmasq.leases", "/tmp/dnsmasq.leases"]);
}
