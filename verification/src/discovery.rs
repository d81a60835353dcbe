//! The LAN discovery responder: its switch, and what it does with each datagram.

use vstd::prelude::*;
use vstd::string::StrSliceExecFns;
use crate::text::{lossy_text, str_eq, trim, trimmed, utf8_lossy};

verus! {

/// The switch of the discovery responder: whether it answers probes, and
/// whether its task runs.
pub struct DiscoveryService {
    enabled: bool,
    running: bool,
}

impl DiscoveryService {
    pub closed spec fn enabled(&self) -> bool {
        self.enabled
    }

    pub closed spec fn running(&self) -> bool {
        self.running
    }

    /// A responder that is not running yet.
    pub fn new(enabled: bool) -> (r: DiscoveryService)
        ensures
            r.enabled() == enabled,
            !r.running(),
    {
        DiscoveryService { enabled, running: false }
    }

    /// Marks the responder as running. Returns whether a task has to be
    /// spawned: true unless one runs already.
    pub fn start(&mut self) -> (spawn: bool)
        ensures
            spawn == !old(self).running(),
            final(self).running(),
            final(self).enabled() == old(self).enabled(),
    {
        if self.running {
            return false;
        }
        self.running = true;
        true
    }

    /// Marks the responder as stopped. Returns whether a task has to be
    /// aborted: true if one was running.
    pub fn stop(&mut self) -> (abort: bool)
        ensures
            abort == old(self).running(),
            !final(self).running(),
            final(self).enabled() == old(self).enabled(),
    {
        let abort = self.running;
        self.running = false;
        abort
    }

    pub fn set_enabled(&mut self, enabled: bool)
        ensures
            final(self).enabled() == enabled,
            final(self).running() == old(self).running(),
    {
        self.enabled = enabled;
    }

    pub fn is_enabled(&self) -> (r: bool)
        ensures
            r == self.enabled(),
    {
        self.enabled
    }

    pub fn is_running(&self) -> (r: bool)
        ensures
            r == self.running(),
    {
        self.running
    }
}

/// The UDP port on which probes arrive.
pub const DISCOVERY_PORT: u16 = 4837;

/// Milliseconds that a read waits for a datagram.
pub const READ_TIMEOUT_MILLIS: u64 = 500;

/// Milliseconds that the responder rests while it is switched off.
pub const IDLE_MILLIS: u64 = 100;

/// What the responder does next.
#[derive(Clone, Copy, PartialEq, Eq, Debug, Structural)]
pub enum Poll {
    /// Leave the loop.
    Stop,
    /// Rest for `IDLE_MILLIS` and look again.
    Idle,
    /// Wait for a datagram.
    Receive,
}

/// What the responder does next: it leaves when it is no longer running,
/// rests while it is switched off, and reads otherwise.
pub fn poll(running: bool, enabled: bool) -> (r: Poll)
    ensures
        r == if !running {
            Poll::Stop
        } else if !enabled {
            Poll::Idle
        } else {
            Poll::Receive
        },
{
    if !running {
        Poll::Stop
    } else if !enabled {
        Poll::Idle
    } else {
        Poll::Receive
    }
}

/// A text is a probe when it is the word `ZHER_DISCOVERY`, with or without
/// white space round it.
pub open spec fn is_probe_text(text: Seq<char>) -> bool {
    trimmed(text) == "ZHER_DISCOVERY"@
}

/// Whether `text` is a probe.
pub fn probe_text(text: &str) -> (r: bool)
    ensures
        r == is_probe_text(text@),
{
    let word = trim(text);
    str_eq(word.as_str(), "ZHER_DISCOVERY")
}

/// Whether the datagram `payload`, read as text, is a probe.
pub fn is_discovery_probe(payload: &[u8]) -> (r: bool)
    ensures
        r == is_probe_text(lossy_text(payload@)),
{
    let text = utf8_lossy(payload);
    probe_text(text.as_str())
}

/// The bytes that answer a probe: the word `ZHER_SERVICE:4836`.
pub fn probe_reply() -> (r: Vec<u8>)
    ensures
        r@ == vstd::utf8::encode_utf8("ZHER_SERVICE:4836"@),
{
    "ZHER_SERVICE:4836".as_bytes_vec()
}

/// What a read on the responder's socket gave.
pub enum Received {
    /// A datagram with this payload.
    Datagram(Vec<u8>),
    /// Nothing came within the timeout.
    TimedOut,
    /// The read failed for another reason.
    Failed,
}

/// What the responder does about a read.
pub enum Answer {
    /// Send these bytes back to where the datagram came from.
    Reply(Vec<u8>),
    /// Do nothing.
    Nothing,
    /// Put the failure on record and go on.
    Report,
}

/// What the responder does about `received`: it answers a probe, passes
/// over every other datagram and every timeout, and puts any other
/// failure on record. It goes on in every case.
pub fn answer(received: &Received) -> (r: Answer)
    ensures
        match received {
            Received::Datagram(payload) => if is_probe_text(lossy_text(payload@)) {
                r matches Answer::Reply(bytes) && bytes@ == vstd::utf8::encode_utf8(
                    "ZHER_SERVICE:4836"@,
                )
            } else {
                r is Nothing
            },
            Received::TimedOut => r is Nothing,
            Received::Failed => r is Report,
        },
{
    match received {
        Received::Datagram(payload) => {
            if is_discovery_probe(payload.as_slice()) {
                Answer::Reply(probe_reply())
            } else {
                Answer::Nothing
            }
        },
        Received::TimedOut => Answer::Nothing,
        Received::Failed => Answer::Report,
    }
}

} // verus!
