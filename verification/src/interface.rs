//! Interface resolution: the active wireless interface and the frequency it
//! operates on, read from the device listing of the wireless stack.

use crate::channel::{channel_of, freq_to_channel};
use crate::pattern::{first_capture, regex_accepts, regex_captures, PatternError};
use crate::text::{lemma_texts_push, lines, parse_decimal, parse_u32, split_lines, texts};
use vstd::prelude::*;
use vstd::string::*;

verus! {

/// The word `Interface` followed by a bare name, the first capture group.
pub const INTERFACE_PATTERN: &'static str = r"Interface\s+(\w+)";

/// A channel with its frequency in MHz, the first capture group.
pub const FREQUENCY_PATTERN: &'static str = r"channel\s+\d+\s+\((\d+)\s+MHz\)";

/// What stands for a frequency whose capture group took no part in the match.
pub const NO_READING: &'static str = "0";

/// The message for a listing without an interface.
pub const MESSAGE_NO_INTERFACE: &'static str = "no wireless interface found";

/// The message for a listing without a frequency.
pub const MESSAGE_NO_FREQUENCY: &'static str = "could not detect frequency";

/// What the message for a listing that could not be had begins with; the
/// error of the failed query follows.
pub const QUERY_FAILED_PREFIX: &'static str = "iw dev failed: ";

/// The tool that lists the wireless devices, and its argument.
pub const QUERY_PROGRAM: &'static str = "iw";

pub const QUERY_ARGUMENT: &'static str = "dev";

/// What the listing shows: the interface seen last (empty if none), the
/// frequency seen last (zero if none), and the message of the error that
/// stands against using them, if one does.
#[derive(Debug, Clone, PartialEq, Eq)]
pub struct Detection {
    pub interface: String,
    pub frequency_mhz: u32,
    pub error: Option<String>,
}

/// A detection over plain values.
pub struct DetectionView {
    pub interface: Seq<char>,
    pub frequency_mhz: u32,
    pub error: Option<Seq<char>>,
}

impl View for Detection {
    type V = DetectionView;

    open spec fn view(&self) -> DetectionView {
        DetectionView {
            interface: self.interface@,
            frequency_mhz: self.frequency_mhz,
            error: match self.error {
                Some(message) => Some(message@),
                None => None,
            },
        }
    }
}

/// The interface name that a line shows, if the line shows one.
pub open spec fn name_on(line: Seq<char>) -> Option<Seq<char>> {
    match regex_captures(INTERFACE_PATTERN@, line, 1) {
        Some(Some(name)) => Some(name),
        Some(None) => Some(Seq::empty()),
        None => None,
    }
}

/// The digits of the frequency that a line shows, if the line shows one.
pub open spec fn reading_on(line: Seq<char>) -> Option<Seq<char>> {
    match regex_captures(FREQUENCY_PATTERN@, line, 1) {
        Some(Some(digits)) => Some(digits),
        Some(None) => Some(NO_READING@),
        None => None,
    }
}

/// The interface names that `lines` show, in order.
pub open spec fn names_in(lines: Seq<Seq<char>>) -> Seq<Seq<char>>
    decreases lines.len(),
{
    if lines.len() == 0 {
        Seq::empty()
    } else {
        match name_on(lines.last()) {
            Some(name) => names_in(lines.drop_last()).push(name),
            None => names_in(lines.drop_last()),
        }
    }
}

/// The frequency readings that `lines` show, in order.
pub open spec fn readings_in(lines: Seq<Seq<char>>) -> Seq<Seq<char>>
    decreases lines.len(),
{
    if lines.len() == 0 {
        Seq::empty()
    } else {
        match reading_on(lines.last()) {
            Some(digits) => readings_in(lines.drop_last()).push(digits),
            None => readings_in(lines.drop_last()),
        }
    }
}

/// The name seen last, or the empty name.
pub open spec fn last_name(names: Seq<Seq<char>>) -> Seq<char> {
    if names.len() == 0 {
        Seq::empty()
    } else {
        names.last()
    }
}

/// The value of the last reading that is a 32-bit decimal number, or zero.
pub open spec fn last_frequency(readings: Seq<Seq<char>>) -> u32
    decreases readings.len(),
{
    if readings.len() == 0 {
        0
    } else {
        match parse_decimal(readings.last()) {
            Some(frequency) => frequency,
            None => last_frequency(readings.drop_last()),
        }
    }
}

/// The message of the error for a detected name and frequency: a missing
/// name comes first, then a frequency of zero.
pub open spec fn error_for(name: Seq<char>, frequency_mhz: u32) -> Option<Seq<char>> {
    if name.len() == 0 {
        Some(MESSAGE_NO_INTERFACE@)
    } else if frequency_mhz == 0 {
        Some(MESSAGE_NO_FREQUENCY@)
    } else {
        None
    }
}

/// The detection for a listing that could not be had, with the error of the
/// failed query.
pub open spec fn failed_detection(error: Seq<char>) -> DetectionView {
    DetectionView {
        interface: Seq::empty(),
        frequency_mhz: 0,
        error: Some(QUERY_FAILED_PREFIX@ + error),
    }
}

/// The detection that follows from the names and readings seen.
pub open spec fn detection_of(names: Seq<Seq<char>>, readings: Seq<Seq<char>>) -> DetectionView {
    DetectionView {
        interface: last_name(names),
        frequency_mhz: last_frequency(readings),
        error: error_for(last_name(names), last_frequency(readings)),
    }
}

/// Picks the active interface from what a listing shows: the name seen last
/// and the last frequency that could be read.
pub fn resolve(names: &Vec<String>, readings: &Vec<String>) -> (found: Detection)
    ensures
        found@ == detection_of(texts(names@), texts(readings@)),
{
    let interface = if names.len() == 0 {
        String::new()
    } else {
        names[names.len() - 1].clone()
    };
    let mut frequency_mhz: u32 = 0;
    let mut i: usize = 0;
    while i < readings.len()
        invariant
            i <= readings.len(),
            frequency_mhz == last_frequency(texts(readings@).take(i as int)),
        decreases readings.len() - i,
    {
        let ghost seen = texts(readings@).take(i + 1);
        assert(seen.drop_last() =~= texts(readings@).take(i as int));
        match parse_u32(readings[i].as_str()) {
            Some(frequency) => {
                frequency_mhz = frequency;
            },
            None => {},
        }
        i += 1;
    }
    assert(texts(readings@).take(i as int) =~= texts(readings@));
    let error = if interface.as_str().is_empty() {
        Some(String::from_str(MESSAGE_NO_INTERFACE))
    } else if frequency_mhz == 0 {
        Some(String::from_str(MESSAGE_NO_FREQUENCY))
    } else {
        None
    };
    Detection { interface, frequency_mhz, error }
}

/// The detection to report where the device listing could not be had:
/// nothing was detected, and the message carries the error of the query.
pub fn query_failed(error: &str) -> (found: Detection)
    ensures
        found@ == failed_detection(error@),
{
    let mut message = String::from_str(QUERY_FAILED_PREFIX);
    message.append(error);
    Detection { interface: String::new(), frequency_mhz: 0, error: Some(message) }
}

/// Whether the expression engine accepts the two patterns of the resolver.
pub open spec fn patterns_accepted() -> bool {
    regex_accepts(INTERFACE_PATTERN@) && regex_accepts(FREQUENCY_PATTERN@)
}

/// Reads the device listing of the wireless stack line by line and picks the
/// active interface: the name and the frequency that the listing shows last.
///
/// There is an answer exactly where the expression engine accepts the two
/// patterns, or the listing has no line to search.
pub fn detect_interface(output: &str) -> (r: Result<Detection, PatternError>)
    ensures
        r is Ok <==> lines(output@).len() == 0 || patterns_accepted(),
        r matches Ok(found) ==> found@ == detection_of(
            names_in(lines(output@)),
            readings_in(lines(output@)),
        ),
{
    let all = split_lines(output);
    let mut names: Vec<String> = Vec::new();
    let mut readings: Vec<String> = Vec::new();
    let mut i: usize = 0;
    while i < all.len()
        invariant
            i <= all.len(),
            texts(all@) == lines(output@),
            i > 0 ==> patterns_accepted(),
            texts(names@) == names_in(texts(all@).take(i as int)),
            texts(readings@) == readings_in(texts(all@).take(i as int)),
        decreases all.len() - i,
    {
        let ghost read = texts(all@).take(i + 1);
        assert(read.drop_last() =~= texts(all@).take(i as int));
        let line = all[i].as_str();
        match first_capture(INTERFACE_PATTERN, line, 1)? {
            Some(group) => {
                let name = match group {
                    Some(name) => name,
                    None => String::new(),
                };
                proof {
                    lemma_texts_push(names@, name);
                }
                names.push(name);
            },
            None => {},
        }
        match first_capture(FREQUENCY_PATTERN, line, 1)? {
            Some(group) => {
                let digits = match group {
                    Some(digits) => digits,
                    None => String::from_str(NO_READING),
                };
                proof {
                    lemma_texts_push(readings@, digits);
                }
                readings.push(digits);
            },
            None => {},
        }
        i += 1;
    }
    assert(texts(all@).take(i as int) =~= texts(all@));
    Ok(resolve(&names, &readings))
}

/// A wireless interface as resolved at startup. Its channel is the one of its
/// frequency.
#[derive(Debug, PartialEq, Eq)]
pub struct WirelessInterface {
    name: String,
    frequency_mhz: u32,
    channel: u32,
}

impl WirelessInterface {
    #[verifier::type_invariant]
    spec fn channel_follows_frequency(self) -> bool {
        self.channel == channel_of(self.frequency_mhz as int)
    }

    /// The name of the interface.
    pub closed spec fn name_text(&self) -> Seq<char> {
        self.name@
    }

    /// The frequency of the interface, in MHz.
    pub closed spec fn frequency(&self) -> u32 {
        self.frequency_mhz
    }

    /// The interface `name` on the frequency `frequency_mhz`.
    pub fn new(name: &str, frequency_mhz: u32) -> (interface: WirelessInterface)
        ensures
            interface.name_text() == name@,
            interface.frequency() == frequency_mhz,
    {
        WirelessInterface {
            name: String::from_str(name),
            frequency_mhz,
            channel: freq_to_channel(frequency_mhz),
        }
    }

    /// The name of the interface.
    pub fn name(&self) -> (name: &str)
        ensures
            name@ == self.name_text(),
    {
        self.name.as_str()
    }

    /// The frequency of the interface, in MHz.
    pub fn frequency_mhz(&self) -> (frequency_mhz: u32)
        ensures
            frequency_mhz == self.frequency(),
    {
        self.frequency_mhz
    }

    /// The channel of the interface: 0 where the frequency lies in no band.
    pub fn channel(&self) -> (channel: u32)
        ensures
            channel == channel_of(self.frequency() as int),
    {
        proof {
            use_type_invariant(self);
        }
        self.channel
    }
}

} // verus!
