//! The privileged channel: one elevated helper that takes commands line by
//! line, so that the operator is asked for credentials once, and the direct
//! elevated invocation that stands in where the channel cannot be used.
//!
//! The helper process itself belongs to the caller. Here is what it is
//! started with, what is written to it, and when it takes commands.

use crate::text::texts;
use vstd::prelude::*;
use vstd::string::*;

verus! {

/// The program that runs a command with elevated privileges.
pub const ELEVATION_PROGRAM: &'static str = "pkexec";

/// The shell that the elevated commands run in.
pub const SHELL: &'static str = "sh";

/// The shell's option that introduces a command text.
pub const SHELL_COMMAND_FLAG: &'static str = "-c";

/// The helper's loop: it reads a line and evaluates it, until its input ends.
pub const HELPER_LOOP: &'static str = "while read cmd; do eval \"$cmd\"; done";

/// How long a caller waits after the channel took a command whose effect it
/// needs, in milliseconds: the helper gives no acknowledgment.
pub const SETTLE_MILLIS: u64 = 100;

/// The arguments that run `command` in the shell.
pub open spec fn shell_arguments(command: Seq<char>) -> Seq<Seq<char>> {
    seq![SHELL@, SHELL_COMMAND_FLAG@, command]
}

fn shell_invocation(command: &str) -> (arguments: Vec<String>)
    ensures
        texts(arguments@) == shell_arguments(command@),
{
    let mut arguments: Vec<String> = Vec::new();
    arguments.push(String::from_str(SHELL));
    arguments.push(String::from_str(SHELL_COMMAND_FLAG));
    arguments.push(String::from_str(command));
    arguments
}

/// The arguments for the elevation program that start the helper.
pub fn helper_command() -> (arguments: Vec<String>)
    ensures
        texts(arguments@) == shell_arguments(HELPER_LOOP@),
{
    shell_invocation(HELPER_LOOP)
}

/// The arguments for the elevation program that run `command` once, without
/// the channel.
pub fn direct_command(command: &str) -> (arguments: Vec<String>)
    ensures
        texts(arguments@) == shell_arguments(command@),
{
    shell_invocation(command)
}

/// What is written to the helper to submit `command`: the command and a line
/// feed.
pub fn submit_line(command: &str) -> (line: String)
    ensures
        line@ == command@.push('\n'),
{
    let mut line = String::from_str(command);
    line.push('\n');
    line
}

/// Where the channel stands.
#[derive(Debug, Clone, Copy, PartialEq, Eq, Structural)]
pub enum ChannelState {
    /// No helper was started, or starting it failed.
    Unopened,
    /// The helper runs and takes commands.
    Open,
    /// The helper was terminated.
    Closed,
}

/// The privileged channel, as far as decisions depend on it.
#[derive(Debug, Clone, Copy, PartialEq, Eq, Structural)]
pub struct PrivilegedChannel {
    pub state: ChannelState,
}

impl PrivilegedChannel {
    /// A channel without a helper.
    pub fn new() -> (channel: PrivilegedChannel)
        ensures
            channel.state == ChannelState::Unopened,
    {
        PrivilegedChannel { state: ChannelState::Unopened }
    }

    /// Records the attempt to start the helper. A helper that started opens a
    /// channel that was unopened; a failure leaves the channel as it was.
    pub fn opened(&mut self, started: bool)
        ensures
            final(self).state == if started && old(self).state == ChannelState::Unopened {
                ChannelState::Open
            } else {
                old(self).state
            },
    {
        if started {
            match self.state {
                ChannelState::Unopened => {
                    self.state = ChannelState::Open;
                },
                _ => {},
            }
        }
    }

    /// Whether the channel takes commands.
    pub fn is_open(&self) -> (open: bool)
        ensures
            open == (self.state == ChannelState::Open),
    {
        match self.state {
            ChannelState::Open => true,
            _ => false,
        }
    }

    /// Closes the channel. The result says whether the helper is to be
    /// terminated, which is so for an open channel only: closing again does
    /// nothing.
    pub fn close(&mut self) -> (terminate: bool)
        ensures
            terminate == (old(self).state == ChannelState::Open),
            final(self).state == if old(self).state == ChannelState::Open {
                ChannelState::Closed
            } else {
                old(self).state
            },
    {
        match self.state {
            ChannelState::Open => {
                self.state = ChannelState::Closed;
                true
            },
            _ => false,
        }
    }
}

/// Whether a submission went through: the channel was open, and the line was
/// both written and flushed.
pub fn submit_outcome(open: bool, written: bool, flushed: bool) -> (accepted: bool)
    ensures
        accepted == (open && written && flushed),
{
    open && written && flushed
}

} // verus!
