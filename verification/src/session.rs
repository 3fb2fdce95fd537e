//! The hotspot session: validation of the operator's input, the commands that
//! start and stop the access point daemon, and the state machine that the
//! start and stop of the daemon drive.
//!
//! Launching the daemon is left to the caller: a transition hands out the
//! command to run, and the caller reports back once it has been issued.

use crate::capability::CompatibilityResult;
use crate::channel::channel_of;
use crate::interface::{Detection, WirelessInterface};
use crate::text::{decimal_digits, decimal_string, texts};
use vstd::prelude::*;
use vstd::string::*;

verus! {

/// The least number of characters of a password.
pub const MIN_PASSWORD_CHARS: usize = 8;

/// The access point daemon, run through the elevation program.
pub const DAEMON: &'static str = "create_ap";

/// The daemon's option that sets the channel.
pub const CHANNEL_FLAG: &'static str = "-c";

/// The daemon's option that stops the access point on an interface.
pub const STOP_FLAG: &'static str = "--stop";

/// The message for an empty network name.
pub const MESSAGE_SSID_REQUIRED: &'static str = "SSID required";

/// The message for a password that is too short.
pub const MESSAGE_PASSWORD_SHORT: &'static str = "Password needs 8+ chars";

/// What stands before and after the network name in the message that reports
/// a start.
pub const STARTING_PREFIX: &'static str = "Hotspot '";

pub const STARTING_SUFFIX: &'static str = "' starting...";

/// What stands before the interface in the message that reports a stop.
pub const STOPPED_PREFIX: &'static str = "Stopped on ";

/// What stands before the error in the message for a stop command that could
/// not be issued.
pub const ERROR_PREFIX: &'static str = "Error: ";

/// Why the operator's input was rejected.
#[derive(Debug, Clone, Copy, PartialEq, Eq, Structural)]
pub enum StartError {
    /// The network name is empty.
    EmptySsid,
    /// The password has fewer than eight characters.
    ShortPassword,
}

impl StartError {
    /// The text of the error.
    pub open spec fn message_text(self) -> Seq<char> {
        match self {
            StartError::EmptySsid => MESSAGE_SSID_REQUIRED@,
            StartError::ShortPassword => MESSAGE_PASSWORD_SHORT@,
        }
    }

    /// The text of the error, for the operator.
    pub fn message(&self) -> (text: String)
        ensures
            text@ == self.message_text(),
    {
        match self {
            StartError::EmptySsid => String::from_str(MESSAGE_SSID_REQUIRED),
            StartError::ShortPassword => String::from_str(MESSAGE_PASSWORD_SHORT),
        }
    }
}

/// What speaks against a network name and a password: an empty name comes
/// first, then a password of fewer than eight characters.
pub open spec fn rejection(ssid: Seq<char>, password: Seq<char>) -> Option<StartError> {
    if ssid.len() == 0 {
        Some(StartError::EmptySsid)
    } else if password.len() < MIN_PASSWORD_CHARS {
        Some(StartError::ShortPassword)
    } else {
        None
    }
}

/// A network name and a password that passed validation.
#[derive(Debug, PartialEq, Eq)]
pub struct HotspotConfig {
    ssid: String,
    password: String,
}

/// A configuration over plain values.
pub struct ConfigView {
    pub ssid: Seq<char>,
    pub password: Seq<char>,
}

impl View for HotspotConfig {
    type V = ConfigView;

    closed spec fn view(&self) -> ConfigView {
        ConfigView { ssid: self.ssid@, password: self.password@ }
    }
}

impl HotspotConfig {
    #[verifier::type_invariant]
    spec fn valid(self) -> bool {
        rejection(self.ssid@, self.password@) is None
    }

    /// Validates the operator's input.
    pub fn new(ssid: &str, password: &str) -> (r: Result<HotspotConfig, StartError>)
        ensures
            match r {
                Ok(config) => rejection(ssid@, password@) is None && config@ == (ConfigView {
                    ssid: ssid@,
                    password: password@,
                }),
                Err(error) => rejection(ssid@, password@) == Some(error),
            },
    {
        if ssid.is_empty() {
            Err(StartError::EmptySsid)
        } else if password.unicode_len() < MIN_PASSWORD_CHARS {
            Err(StartError::ShortPassword)
        } else {
            Ok(HotspotConfig { ssid: String::from_str(ssid), password: String::from_str(password) })
        }
    }

    /// The network name, which is not empty.
    pub fn ssid(&self) -> (ssid: &str)
        ensures
            ssid@ == self@.ssid,
            ssid@.len() > 0,
    {
        proof {
            use_type_invariant(self);
        }
        self.ssid.as_str()
    }

    /// The password, of eight characters or more.
    pub fn password(&self) -> (password: &str)
        ensures
            password@ == self@.password,
            password@.len() >= MIN_PASSWORD_CHARS,
    {
        proof {
            use_type_invariant(self);
        }
        self.password.as_str()
    }
}

/// The arguments for the elevation program that start the daemon: the
/// channel, the interface twice (as the wireless side and as the side that
/// is shared), the network name and the password.
pub open spec fn launch_arguments(
    interface: Seq<char>,
    channel: int,
    ssid: Seq<char>,
    password: Seq<char>,
) -> Seq<Seq<char>> {
    seq![
        DAEMON@,
        CHANNEL_FLAG@,
        decimal_digits(channel as nat),
        interface,
        interface,
        ssid,
        password,
    ]
}

/// The arguments for the elevation program that stop the daemon on an
/// interface.
pub open spec fn stop_arguments(interface: Seq<char>) -> Seq<Seq<char>> {
    seq![DAEMON@, STOP_FLAG@, interface]
}

/// The message that reports a start.
pub open spec fn starting_text(ssid: Seq<char>) -> Seq<char> {
    STARTING_PREFIX@ + ssid + STARTING_SUFFIX@
}

/// The message that reports a stop: the interface where the stop command was
/// issued, the error where it could not be.
pub open spec fn stop_text(interface: Seq<char>, launch_error: Option<Seq<char>>) -> Seq<char> {
    match launch_error {
        None => STOPPED_PREFIX@ + interface,
        Some(error) => ERROR_PREFIX@ + error,
    }
}

/// What a start hands to the caller: the command to launch, as arguments for
/// the elevation program, and the message to show.
#[derive(Debug, Clone, PartialEq, Eq)]
pub struct Launch {
    pub command: Vec<String>,
    pub message: String,
}

fn launch_command(interface: &str, channel: u32, config: &HotspotConfig) -> (command: Vec<String>)
    ensures
        texts(command@) == launch_arguments(
            interface@,
            channel as int,
            config@.ssid,
            config@.password,
        ),
{
    let mut command: Vec<String> = Vec::new();
    command.push(String::from_str(DAEMON));
    command.push(String::from_str(CHANNEL_FLAG));
    command.push(decimal_string(channel));
    command.push(String::from_str(interface));
    command.push(String::from_str(interface));
    command.push(String::from_str(config.ssid()));
    command.push(String::from_str(config.password()));
    command
}

fn starting_message(ssid: &str) -> (message: String)
    ensures
        message@ == starting_text(ssid@),
{
    let mut message = String::from_str(STARTING_PREFIX);
    message.append(ssid);
    message.append(STARTING_SUFFIX);
    message
}

/// Validates the operator's input and prepares the start of the access point
/// on `interface` and `channel`. Nothing is launched here: on success the
/// caller gets the command to launch and the message that reports the start.
pub fn start_hotspot(interface: &str, channel: u32, ssid: &str, password: &str) -> (r: Result<
    Launch,
    StartError,
>)
    ensures
        match r {
            Ok(launch) => {
                &&& rejection(ssid@, password@) is None
                &&& texts(launch.command@) == launch_arguments(
                    interface@,
                    channel as int,
                    ssid@,
                    password@,
                )
                &&& launch.message@ == starting_text(ssid@)
            },
            Err(error) => rejection(ssid@, password@) == Some(error),
        },
{
    let config = HotspotConfig::new(ssid, password)?;
    Ok(
        Launch {
            command: launch_command(interface, channel, &config),
            message: starting_message(config.ssid()),
        },
    )
}

/// The command that stops the access point on `interface`, as arguments for
/// the elevation program.
pub fn stop_hotspot(interface: &str) -> (command: Vec<String>)
    ensures
        texts(command@) == stop_arguments(interface@),
{
    let mut command: Vec<String> = Vec::new();
    command.push(String::from_str(DAEMON));
    command.push(String::from_str(STOP_FLAG));
    command.push(String::from_str(interface));
    command
}

/// The message that reports a stop on `interface`. `launch_error` is the
/// error with which the stop command could not be issued, if it could not.
pub fn stop_message(interface: &str, launch_error: Option<&str>) -> (message: String)
    ensures
        message@ == stop_text(
            interface@,
            match launch_error {
                Some(error) => Some(error@),
                None => None,
            },
        ),
{
    match launch_error {
        None => {
            let mut message = String::from_str(STOPPED_PREFIX);
            message.append(interface);
            message
        },
        Some(error) => {
            let mut message = String::from_str(ERROR_PREFIX);
            message.append(error);
            message
        },
    }
}

/// Whether a start may be offered at all: the hardware supports the access
/// point beside the managed connection, and an interface was detected.
pub fn can_start(compatibility: &CompatibilityResult, detection: &Detection) -> (offered: bool)
    ensures
        offered == (compatibility.supported && detection.error is None),
{
    compatibility.supported && detection.error.is_none()
}

/// Where a session stands.
#[derive(Debug, Clone, Copy, PartialEq, Eq, Structural)]
pub enum SessionState {
    /// No access point runs.
    Idle,
    /// A start passed validation; its launch is being handed over.
    Starting,
    /// The launch was handed over. Whether the daemon came up is not known.
    Running,
    /// A stop was asked for; its command is being issued.
    Stopping,
}

/// What moves a session on.
#[derive(Debug, Clone, Copy, PartialEq, Eq, Structural)]
pub enum SessionEvent {
    /// A start passed validation.
    StartAccepted,
    /// The launch of the daemon was handed over.
    Launched,
    /// A stop was asked for.
    StopRequested,
    /// The stop command was issued, or could not be.
    StopIssued,
}

/// The state that follows `state` on `event`. The states of a run come in
/// one order: `Idle`, `Starting`, `Running`, `Stopping`, and `Idle` again. A
/// start and a stop may be asked for in any state, and a stop always ends in
/// `Idle`.
pub open spec fn next_state(state: SessionState, event: SessionEvent) -> SessionState {
    match event {
        SessionEvent::StartAccepted => SessionState::Starting,
        SessionEvent::Launched => if state == SessionState::Starting {
            SessionState::Running
        } else {
            state
        },
        SessionEvent::StopRequested => SessionState::Stopping,
        SessionEvent::StopIssued => SessionState::Idle,
    }
}

/// The session of the controller, one for each run.
#[derive(Debug)]
pub struct HotspotSession {
    state: SessionState,
    interface: WirelessInterface,
    config: Option<HotspotConfig>,
}

impl HotspotSession {
    /// Where the session stands.
    pub closed spec fn state(&self) -> SessionState {
        self.state
    }

    /// The interface of the session.
    pub closed spec fn interface(&self) -> WirelessInterface {
        self.interface
    }

    /// The configuration that the session was started with, if it was.
    pub closed spec fn config(&self) -> Option<ConfigView> {
        match self.config {
            Some(config) => Some(config@),
            None => None,
        }
    }

    /// An idle session on `interface`.
    pub fn new(interface: WirelessInterface) -> (session: HotspotSession)
        ensures
            session.state() == SessionState::Idle,
            session.interface() == interface,
            session.config() is None,
    {
        HotspotSession { state: SessionState::Idle, interface, config: None }
    }

    /// Where the session stands.
    pub fn current_state(&self) -> (state: SessionState)
        ensures
            state == self.state(),
    {
        self.state
    }

    /// Whether the access point counts as running, which is when the clients
    /// are polled.
    pub fn is_running(&self) -> (running: bool)
        ensures
            running == (self.state() == SessionState::Running),
    {
        match self.state {
            SessionState::Running => true,
            _ => false,
        }
    }

    /// Whether the operator may edit the network name and the password: only
    /// while the session is idle.
    pub fn inputs_editable(&self) -> (editable: bool)
        ensures
            editable == (self.state() == SessionState::Idle),
    {
        match self.state {
            SessionState::Idle => true,
            _ => false,
        }
    }

    /// Begins a start. Input that fails validation is rejected and leaves the
    /// session as it was. Otherwise the session is `Starting`, keeps the
    /// configuration, and hands out the command to launch on its interface
    /// and channel together with the message to show. The start is complete,
    /// and the session `Running`, once the launch is reported by `launched`.
    pub fn start(&mut self, ssid: &str, password: &str) -> (r: Result<Launch, StartError>)
        ensures
            final(self).interface() == old(self).interface(),
            match r {
                Ok(launch) => {
                    &&& rejection(ssid@, password@) is None
                    &&& final(self).state() == next_state(
                        old(self).state(),
                        SessionEvent::StartAccepted,
                    )
                    &&& final(self).config() == Some(ConfigView { ssid: ssid@, password: password@ })
                    &&& texts(launch.command@) == launch_arguments(
                        old(self).interface().name_text(),
                        channel_of(old(self).interface().frequency() as int),
                        ssid@,
                        password@,
                    )
                    &&& launch.message@ == starting_text(ssid@)
                },
                Err(error) => {
                    &&& rejection(ssid@, password@) == Some(error)
                    &&& final(self).state() == old(self).state()
                    &&& final(self).config() == old(self).config()
                },
            },
    {
        let config = HotspotConfig::new(ssid, password)?;
        let launch = Launch {
            command: launch_command(self.interface.name(), self.interface.channel(), &config),
            message: starting_message(config.ssid()),
        };
        self.state = SessionState::Starting;
        self.config = Some(config);
        Ok(launch)
    }

    /// Records that the launch was handed over: a session that was `Starting`
    /// is `Running` from now on, whether or not the daemon comes up. Any
    /// other session stays as it is.
    pub fn launched(&mut self)
        ensures
            final(self).interface() == old(self).interface(),
            final(self).config() == old(self).config(),
            final(self).state() == next_state(old(self).state(), SessionEvent::Launched),
    {
        match self.state {
            SessionState::Starting => {
                self.state = SessionState::Running;
            },
            _ => {},
        }
    }

    /// Begins a stop, whatever the session's state: the session is `Stopping`
    /// and hands out the command that stops the daemon on its interface.
    pub fn stop(&mut self) -> (command: Vec<String>)
        ensures
            final(self).interface() == old(self).interface(),
            final(self).config() == old(self).config(),
            final(self).state() == next_state(old(self).state(), SessionEvent::StopRequested),
            texts(command@) == stop_arguments(old(self).interface().name_text()),
    {
        self.state = SessionState::Stopping;
        stop_hotspot(self.interface.name())
    }

    /// Ends a stop, whatever the session's state and whether or not the stop
    /// command could be issued: the session is `Idle` and without a
    /// configuration. The message names the interface, or gives the error
    /// with which the command could not be issued.
    pub fn stopped(&mut self, launch_error: Option<&str>) -> (message: String)
        ensures
            final(self).interface() == old(self).interface(),
            final(self).state() == next_state(old(self).state(), SessionEvent::StopIssued),
            final(self).config() is None,
            message@ == stop_text(
                old(self).interface().name_text(),
                match launch_error {
                    Some(error) => Some(error@),
                    None => None,
                },
            ),
    {
        self.state = SessionState::Idle;
        self.config = None;
        stop_message(self.interface.name(), launch_error)
    }
}

/// A start that passed validation, once its launch is handed over, leaves the
/// session `Running`, whatever state it was in.
pub proof fn lemma_start_reaches_running(state: SessionState)
    ensures
        next_state(next_state(state, SessionEvent::StartAccepted), SessionEvent::Launched)
            == SessionState::Running,
{
}

/// A stop ends in `Idle` from every state. So a stop of a session that is
/// idle already leaves it idle.
pub proof fn lemma_stop_ends_idle(state: SessionState)
    ensures
        next_state(next_state(state, SessionEvent::StopRequested), SessionEvent::StopIssued)
            == SessionState::Idle,
{
}

/// A run passes through the four states in their order and ends where it
/// began.
pub proof fn lemma_run_cycle()
    ensures
        next_state(SessionState::Idle, SessionEvent::StartAccepted) == SessionState::Starting,
        next_state(SessionState::Starting, SessionEvent::Launched) == SessionState::Running,
        next_state(SessionState::Running, SessionEvent::StopRequested) == SessionState::Stopping,
        next_state(SessionState::Stopping, SessionEvent::StopIssued) == SessionState::Idle,
{
}

} // verus!
