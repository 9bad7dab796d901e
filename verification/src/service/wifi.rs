//! The Wi-Fi access point service: when it starts, and how the watch over
//! the running access point daemon decides to go on or to stop it.
use crate::service::Iface;
use vstd::prelude::*;

verus! {

/// The access point of an interface, with the daemon's configuration text.
pub struct WifiServiceConfig {
    pub iface_name: String,
    pub enable: bool,
    pub config: String,
}

/// Starts the access point of an interface.
#[derive(Clone, Copy, Default)]
pub struct WifiService;

impl WifiService {
    /// The interface name and configuration text the access point runs
    /// with: given when the service is enabled and its interface was found
    /// (`iface`, looked up by the configured name).
    pub fn start(&self, config: WifiServiceConfig, iface: Option<Iface>) -> (r: Option<(String, String)>)
        ensures
            r == if config.enable && iface.is_some() {
                Some((config.iface_name, config.config))
            } else {
                None
            },
    {
        if config.enable && iface.is_some() {
            Some((config.iface_name, config.config))
        } else {
            None
        }
    }
}

/// What a poll of the daemon process found.
#[derive(Clone, Copy, PartialEq, Eq, Structural, Debug)]
pub enum ChildPoll {
    /// It has exited.
    Exited,
    /// It is still running.
    Running,
    /// The poll itself failed.
    Error,
}

/// What the stop channel of the service held at a poll.
#[derive(Clone, Copy, PartialEq, Eq, Structural, Debug)]
pub enum StopSignal {
    /// Nothing yet.
    Pending,
    /// A stop request, or the channel was closed.
    Stop,
}

/// How many failed polls in a row the watch tolerates before a further
/// failure stops the daemon.
pub const MAX_POLL_ERRORS: u32 = 3;

/// One round of the watch over the daemon, given the count of failed polls
/// in a row before it: the count to go on with, or `None` when the daemon
/// is to be stopped. An exit ends the watch at once; a running daemon
/// clears the count; a failed poll ends the watch once the count exceeds
/// the limit and otherwise raises it; then a stop request ends the watch.
pub open spec fn watch_step(check_error_times: u32, poll: ChildPoll, signal: StopSignal) -> Option<u32> {
    match poll {
        ChildPoll::Exited => None,
        ChildPoll::Running => if signal == StopSignal::Stop { None } else { Some(0u32) },
        ChildPoll::Error => if check_error_times > MAX_POLL_ERRORS || signal == StopSignal::Stop {
            None
        } else {
            Some((check_error_times + 1) as u32)
        },
    }
}

/// The count after a series of rounds, or `None` once one of them ended the
/// watch.
pub open spec fn watch_after(c: u32, rounds: Seq<(ChildPoll, StopSignal)>) -> Option<u32>
    decreases rounds.len(),
{
    if rounds.len() == 0 {
        Some(c)
    } else {
        match watch_step(c, rounds[0].0, rounds[0].1) {
            None => None,
            Some(c2) => watch_after(c2, rounds.drop_first()),
        }
    }
}

/// One round of the watch (see `watch_step`).
pub fn hostapd_watch_step(check_error_times: u32, poll: ChildPoll, signal: StopSignal) -> (r: Option<u32>)
    ensures
        r == watch_step(check_error_times, poll, signal),
        r matches Some(c) ==> c <= MAX_POLL_ERRORS + 1,
{
    let count = match poll {
        ChildPoll::Exited => {
            return None;
        },
        ChildPoll::Running => 0,
        ChildPoll::Error => {
            if check_error_times > MAX_POLL_ERRORS {
                return None;
            }
            check_error_times + 1
        },
    };
    match signal {
        StopSignal::Pending => Some(count),
        StopSignal::Stop => None,
    }
}

/// The watch stops a daemon whose polls keep failing: from a count `c`, a
/// run of `MAX_POLL_ERRORS + 2 - c` failed polls in a row ends it, whatever
/// the stop channel holds.
pub proof fn lemma_watch_gives_up_on_errors(c: u32, rounds: Seq<(ChildPoll, StopSignal)>)
    requires
        c <= MAX_POLL_ERRORS + 1,
        rounds.len() >= MAX_POLL_ERRORS + 2 - c,
        forall|i: int| 0 <= i < rounds.len() ==> (#[trigger] rounds[i]).0 == ChildPoll::Error,
    ensures
        watch_after(c, rounds) is None,
    decreases rounds.len(),
{
    if c <= MAX_POLL_ERRORS && rounds[0].1 == StopSignal::Pending {
        let rest = rounds.drop_first();
        assert forall|i: int| 0 <= i < rest.len() implies (#[trigger] rest[i]).0 == ChildPoll::Error by {
            assert(rest[i] == rounds[i + 1]);
        }
        lemma_watch_gives_up_on_errors((c + 1) as u32, rest);
    }
}

} // verus!
