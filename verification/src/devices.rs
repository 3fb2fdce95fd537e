//! Device tracking: the clients of the access point, read from the station
//! dump of the wireless stack or, failing that, from the neighbour table, and
//! named after the leases of the address server.

use crate::blocklist::is_blocked;
use crate::pattern::{
    all_captures, capture_texts, regex_accepts, regex_captures_iter, PatternError,
};
use crate::text::{
    eq_ignore_ascii_case, eq_ignoring_case, fields, lemma_upper_is_final, lines, split_fields,
    split_lines, texts, to_upper, upper,
};
use vstd::prelude::*;
use vstd::string::*;

verus! {

/// A station of the dump with its hardware address, the first capture group.
pub const STATION_PATTERN: &'static str = r"Station ([0-9a-fA-F:]{17})";

/// A row of the neighbour table: a network address, one more column, and the
/// hardware address, the second capture group.
pub const NEIGHBOR_PATTERN: &'static str = r"(\d+\.\d+\.\d+\.\d+)\s+\S+\s+([0-9a-fA-F:]{17})";

/// The tool that dumps the stations of an interface.
pub const STATION_PROGRAM: &'static str = "iw";

/// The tool that lists the neighbour table, and its argument.
pub const NEIGHBOR_PROGRAM: &'static str = "arp";

pub const NEIGHBOR_ARGUMENT: &'static str = "-n";

/// The lease files, in the order in which they are consulted.
pub const LEASE_FILE_FIRST: &'static str = "/var/lib/misc/dnsmasq.leases";

pub const LEASE_FILE_SECOND: &'static str = "/tmp/dnsmasq.leases";

/// The seconds between two polls of a running session.
pub const POLL_INTERVAL_SECS: u64 = 2;

/// The name shown for a client without a host name.
pub const UNKNOWN_DEVICE: &'static str = "Unknown Device";

/// A client of the access point.
#[derive(Debug, Clone, PartialEq, Eq)]
pub struct ConnectedDevice {
    /// The hardware address, in upper case.
    pub mac: String,
    /// The host name, empty where no lease gives one.
    pub hostname: String,
}

/// A client over plain values.
pub struct DeviceView {
    pub mac: Seq<char>,
    pub hostname: Seq<char>,
}

impl View for ConnectedDevice {
    type V = DeviceView;

    open spec fn view(&self) -> DeviceView {
        DeviceView { mac: self.mac@, hostname: self.hostname@ }
    }
}

impl ConnectedDevice {
    /// The name to show for the client: its host name, or a fixed name where
    /// it has none.
    pub fn display_name(&self) -> (name: String)
        ensures
            name@ == if self@.hostname.len() == 0 {
                UNKNOWN_DEVICE@
            } else {
                self@.hostname
            },
    {
        if self.hostname.as_str().is_empty() {
            String::from_str(UNKNOWN_DEVICE)
        } else {
            self.hostname.clone()
        }
    }
}

/// The arguments that ask the wireless stack for the stations of `interface`.
pub open spec fn station_query(interface: Seq<char>) -> Seq<Seq<char>> {
    seq!["dev"@, interface, "station"@, "dump"@]
}

/// The arguments for the station tool that dump the stations of `interface`.
pub fn station_dump_command(interface: &str) -> (arguments: Vec<String>)
    ensures
        texts(arguments@) == station_query(interface@),
{
    let mut arguments: Vec<String> = Vec::new();
    arguments.push(String::from_str("dev"));
    arguments.push(String::from_str(interface));
    arguments.push(String::from_str("station"));
    arguments.push(String::from_str("dump"));
    arguments
}

/// The lease files, in the order in which they are consulted.
pub fn lease_paths() -> (paths: Vec<String>)
    ensures
        texts(paths@) == seq![LEASE_FILE_FIRST@, LEASE_FILE_SECOND@],
{
    let mut paths: Vec<String> = Vec::new();
    paths.push(String::from_str(LEASE_FILE_FIRST));
    paths.push(String::from_str(LEASE_FILE_SECOND));
    paths
}

/// A list of clients over plain values.
pub open spec fn device_views(devices: Seq<ConnectedDevice>) -> Seq<DeviceView> {
    Seq::new(devices.len(), |i: int| devices[i]@)
}

/// The host name that a lease line gives to `mac`: the fourth field of a line
/// whose second field is the address, in whatever case.
pub open spec fn lease_of(line: Seq<char>, mac: Seq<char>) -> Option<Seq<char>> {
    let columns = fields(line);
    if columns.len() >= 4 && eq_ignoring_case(columns[1], mac) {
        Some(columns[3])
    } else {
        None
    }
}

/// The host name that the first lease for `mac` among `lines` gives.
pub open spec fn first_lease(lines: Seq<Seq<char>>, mac: Seq<char>) -> Option<Seq<char>>
    decreases lines.len(),
{
    if lines.len() == 0 {
        None
    } else {
        match first_lease(lines.drop_last(), mac) {
            Some(name) => Some(name),
            None => lease_of(lines.last(), mac),
        }
    }
}

/// The host name that the first lease for `mac` gives, in the first of
/// `files` that holds one.
pub open spec fn lease_in_files(files: Seq<Seq<char>>, mac: Seq<char>) -> Option<Seq<char>>
    decreases files.len(),
{
    if files.len() == 0 {
        None
    } else {
        match lease_in_files(files.drop_last(), mac) {
            Some(name) => Some(name),
            None => first_lease(lines(files.last()), mac),
        }
    }
}

/// The host name of `mac` by the lease files, or the empty name.
pub open spec fn hostname_of(files: Seq<Seq<char>>, mac: Seq<char>) -> Seq<char> {
    match lease_in_files(files, mac) {
        Some(name) => name,
        None => Seq::empty(),
    }
}

/// Whether `mac` is the address of one of `devices`.
pub open spec fn known(devices: Seq<DeviceView>, mac: Seq<char>) -> bool {
    exists|i: int| 0 <= i < devices.len() && (#[trigger] devices[i]).mac == mac
}

/// The clients that follow from the addresses `found`, in order: each
/// address in upper case with its host name, but for the blocked ones and,
/// where `distinct` is set, those that were collected before.
pub open spec fn devices_among(
    found: Seq<Option<Seq<char>>>,
    blocked: Seq<Seq<char>>,
    files: Seq<Seq<char>>,
    distinct: bool,
) -> Seq<DeviceView>
    decreases found.len(),
{
    if found.len() == 0 {
        Seq::empty()
    } else {
        let before = devices_among(found.drop_last(), blocked, files, distinct);
        match found.last() {
            Some(raw) => {
                let mac = upper(raw);
                if blocked.contains(mac) || (distinct && known(before, mac)) {
                    before
                } else {
                    before.push(DeviceView { mac, hostname: hostname_of(files, mac) })
                }
            },
            None => before,
        }
    }
}

/// The clients that a station dump shows: every station that is not blocked.
pub open spec fn station_devices(
    dump: Seq<char>,
    blocked: Seq<Seq<char>>,
    files: Seq<Seq<char>>,
) -> Seq<DeviceView> {
    devices_among(regex_captures_iter(STATION_PATTERN@, dump, 1), blocked, files, false)
}

/// The clients that a neighbour table shows: every address that is not
/// blocked, once.
pub open spec fn neighbor_devices(
    table: Seq<char>,
    blocked: Seq<Seq<char>>,
    files: Seq<Seq<char>>,
) -> Seq<DeviceView> {
    devices_among(regex_captures_iter(NEIGHBOR_PATTERN@, table, 2), blocked, files, true)
}

/// Every client that is reported has its address in upper case and is not
/// blocked, and with `distinct` set no address is reported twice.
pub proof fn lemma_devices_are_admitted(
    found: Seq<Option<Seq<char>>>,
    blocked: Seq<Seq<char>>,
    files: Seq<Seq<char>>,
    distinct: bool,
)
    ensures
        forall|i: int|
            0 <= i < devices_among(found, blocked, files, distinct).len() ==> {
                let mac = (#[trigger] devices_among(found, blocked, files, distinct)[i]).mac;
                upper(mac) == mac && !blocked.contains(mac)
            },
        distinct ==> forall|i: int, j: int|
            0 <= i < j < devices_among(found, blocked, files, distinct).len() ==> (
            #[trigger] devices_among(found, blocked, files, distinct)[i]).mac != (
            #[trigger] devices_among(found, blocked, files, distinct)[j]).mac,
    decreases found.len(),
{
    let all = devices_among(found, blocked, files, distinct);
    if found.len() > 0 {
        let before = devices_among(found.drop_last(), blocked, files, distinct);
        lemma_devices_are_admitted(found.drop_last(), blocked, files, distinct);
        assert forall|i: int| 0 <= i < all.len() implies upper((#[trigger] all[i]).mac)
            == all[i].mac && !blocked.contains(all[i].mac) by {
            if i < before.len() {
                assert(all[i] == before[i]);
            } else {
                lemma_upper_is_final(found.last()->Some_0);
            }
        }
        if distinct {
            assert forall|i: int, j: int| 0 <= i < j < all.len() implies (#[trigger] all[i]).mac != (
            #[trigger] all[j]).mac by {
                assert(all[i] == before[i]);
                if j >= before.len() {
                    assert(!known(before, all[j].mac));
                }
            }
        }
    }
}

/// A lease found among the first lines is the lease found among all.
proof fn lemma_first_lease_stays(lines: Seq<Seq<char>>, mac: Seq<char>, n: int)
    requires
        0 <= n <= lines.len(),
        first_lease(lines.take(n), mac) is Some,
    ensures
        first_lease(lines, mac) == first_lease(lines.take(n), mac),
    decreases lines.len(),
{
    if n == lines.len() {
        assert(lines.take(n) =~= lines);
    } else {
        assert(lines.drop_last().take(n) =~= lines.take(n));
        lemma_first_lease_stays(lines.drop_last(), mac, n);
    }
}

/// A lease found in the first files is the lease found in all.
proof fn lemma_lease_in_files_stays(files: Seq<Seq<char>>, mac: Seq<char>, n: int)
    requires
        0 <= n <= files.len(),
        lease_in_files(files.take(n), mac) is Some,
    ensures
        lease_in_files(files, mac) == lease_in_files(files.take(n), mac),
    decreases files.len(),
{
    if n == files.len() {
        assert(files.take(n) =~= files);
    } else {
        assert(files.drop_last().take(n) =~= files.take(n));
        lemma_lease_in_files_stays(files.drop_last(), mac, n);
    }
}

/// The host name that the first lease for `mac` in a lease file gives.
pub fn find_lease(file: &str, mac: &str) -> (found: Option<String>)
    ensures
        match found {
            Some(name) => first_lease(lines(file@), mac@) == Some(name@),
            None => first_lease(lines(file@), mac@) is None,
        },
{
    let all = split_lines(file);
    let mut i: usize = 0;
    while i < all.len()
        invariant
            i <= all.len(),
            texts(all@) == lines(file@),
            first_lease(texts(all@).take(i as int), mac@) is None,
        decreases all.len() - i,
    {
        let ghost read = texts(all@).take(i + 1);
        assert(read.drop_last() =~= texts(all@).take(i as int));
        let columns = split_fields(all[i].as_str());
        if columns.len() >= 4 && eq_ignore_ascii_case(columns[1].as_str(), mac) {
            proof {
                lemma_first_lease_stays(texts(all@), mac@, i + 1);
            }
            return Some(columns[3].clone());
        }
        i += 1;
    }
    assert(texts(all@).take(i as int) =~= texts(all@));
    None
}

/// The host name of `mac` by the lease files, which come in the order in
/// which they are to be consulted: the name in the first lease found, or the
/// empty name.
pub fn get_hostname_for_mac(mac: &str, lease_files: &Vec<String>) -> (name: String)
    ensures
        name@ == hostname_of(texts(lease_files@), mac@),
{
    let mut i: usize = 0;
    while i < lease_files.len()
        invariant
            i <= lease_files.len(),
            lease_in_files(texts(lease_files@).take(i as int), mac@) is None,
        decreases lease_files.len() - i,
    {
        let ghost read = texts(lease_files@).take(i + 1);
        assert(read.drop_last() =~= texts(lease_files@).take(i as int));
        match find_lease(lease_files[i].as_str(), mac) {
            Some(name) => {
                proof {
                    lemma_lease_in_files_stays(texts(lease_files@), mac@, i + 1);
                }
                return name;
            },
            None => {},
        }
        i += 1;
    }
    assert(texts(lease_files@).take(i as int) =~= texts(lease_files@));
    String::new()
}

fn is_known(devices: &Vec<ConnectedDevice>, mac: &str) -> (found: bool)
    ensures
        found == known(device_views(devices@), mac@),
{
    let wanted = String::from_str(mac);
    let mut i: usize = 0;
    while i < devices.len()
        invariant
            i <= devices.len(),
            wanted@ == mac@,
            forall|k: int| 0 <= k < i ==> (#[trigger] device_views(devices@)[k]).mac != mac@,
        decreases devices.len() - i,
    {
        if devices[i].mac.eq(&wanted) {
            assert(device_views(devices@)[i as int].mac == mac@);
            return true;
        }
        i += 1;
    }
    false
}

/// The clients that follow from the hardware addresses found in a listing.
/// With `distinct` set an address is taken once; without, as often as it was
/// found.
pub fn collect_devices(
    found: &Vec<Option<String>>,
    blocked: &Vec<String>,
    lease_files: &Vec<String>,
    distinct: bool,
) -> (devices: Vec<ConnectedDevice>)
    ensures
        device_views(devices@) == devices_among(
            capture_texts(found@),
            texts(blocked@),
            texts(lease_files@),
            distinct,
        ),
{
    let mut devices: Vec<ConnectedDevice> = Vec::new();
    let mut i: usize = 0;
    while i < found.len()
        invariant
            i <= found.len(),
            device_views(devices@) == devices_among(
                capture_texts(found@).take(i as int),
                texts(blocked@),
                texts(lease_files@),
                distinct,
            ),
        decreases found.len() - i,
    {
        let ghost read = capture_texts(found@).take(i + 1);
        assert(read.drop_last() =~= capture_texts(found@).take(i as int));
        match &found[i] {
            Some(raw) => {
                let mac = to_upper(raw.as_str());
                if !is_blocked(blocked, mac.as_str()) && !(distinct && is_known(
                    &devices,
                    mac.as_str(),
                )) {
                    let hostname = get_hostname_for_mac(mac.as_str(), lease_files);
                    devices.push(ConnectedDevice { mac, hostname });
                }
            },
            None => {},
        }
        i += 1;
    }
    assert(capture_texts(found@).take(i as int) =~= capture_texts(found@));
    devices
}

/// What a poll of the stations leads to.
#[derive(Debug, Clone, PartialEq, Eq)]
pub enum Poll {
    /// The clients that the station dump shows, at least one.
    Devices(Vec<ConnectedDevice>),
    /// The station dump shows no client: the neighbour table is to be asked.
    Neighbors,
}

/// Polls the stations of the access point. `station_dump` is what the
/// wireless stack reported for the interface, or `None` where it could not be
/// asked. Where the dump shows no client that is not blocked, the neighbour
/// table is to be consulted next.
///
/// There is an answer exactly where the expression engine accepts the
/// pattern, or there is no dump to search.
pub fn get_connected_devices(
    station_dump: Option<&str>,
    blocked: &Vec<String>,
    lease_files: &Vec<String>,
) -> (r: Result<Poll, PatternError>)
    ensures
        r is Ok <==> station_dump is None || regex_accepts(STATION_PATTERN@),
        r matches Ok(poll) ==> match station_dump {
            Some(dump) => {
                let wanted = station_devices(dump@, texts(blocked@), texts(lease_files@));
                match poll {
                    Poll::Devices(devices) => wanted.len() > 0 && device_views(devices@) == wanted,
                    Poll::Neighbors => wanted.len() == 0,
                }
            },
            None => poll is Neighbors,
        },
{
    match station_dump {
        Some(dump) => {
            let found = all_captures(STATION_PATTERN, dump, 1)?;
            let devices = collect_devices(&found, blocked, lease_files, false);
            if devices.len() == 0 {
                Ok(Poll::Neighbors)
            } else {
                Ok(Poll::Devices(devices))
            }
        },
        None => Ok(Poll::Neighbors),
    }
}

/// The clients that the neighbour table shows, each once. `table` is the
/// table as the system reported it, or `None` where it could not be asked,
/// which leaves no client.
///
/// There is an answer exactly where the expression engine accepts the
/// pattern, or there is no table to search.
pub fn get_neighbor_devices(
    table: Option<&str>,
    blocked: &Vec<String>,
    lease_files: &Vec<String>,
) -> (r: Result<Vec<ConnectedDevice>, PatternError>)
    ensures
        r is Ok <==> table is None || regex_accepts(NEIGHBOR_PATTERN@),
        r matches Ok(devices) ==> device_views(devices@) == match table {
            Some(rows) => neighbor_devices(rows@, texts(blocked@), texts(lease_files@)),
            None => Seq::empty(),
        },
{
    match table {
        Some(rows) => {
            let found = all_captures(NEIGHBOR_PATTERN, rows, 2)?;
            Ok(collect_devices(&found, blocked, lease_files, true))
        },
        None => {
            let devices: Vec<ConnectedDevice> = Vec::new();
            Ok(devices)
        },
    }
}

} // verus!
