//! Occupying a player that joins while the server is not up: the decisions of the kick, hold
//! and lobby methods.
use vstd::prelude::*;

use crate::config::{Config, Method};
use crate::server::State;

verus! {

/// The kick message for a server in `state`: the stopping one while it stops, else the
/// starting one.
pub fn kick_message(config: &Config, state: State) -> (res: String)
    ensures
        res == if state == State::Stopping {
            config.join.kick.stopping
        } else {
            config.join.kick.starting
        },
{
    match state {
        State::Starting | State::Stopped | State::Started => config.join.kick.starting.clone(),
        State::Stopping => config.join.kick.stopping.clone(),
    }
}

/// What a player waiting for the server makes of a new state: keep waiting while it starts
/// (`None`), go on once it is started (`Some(true)`), give up once it stops or is stopped
/// (`Some(false)`).
pub fn wait_outcome(state: State) -> (res: Option<bool>)
    ensures
        state == State::Starting ==> res is None,
        state == State::Started ==> res == Some(true),
        (state == State::Stopping || state == State::Stopped) ==> res == Some(false),
{
    match state {
        State::Starting => None,
        State::Started => Some(true),
        State::Stopping | State::Stopped => Some(false),
    }
}

/// Whether the lobby must still wait for the server to be probed: with Forge, until the
/// probe has seen the server's join game packet.
pub fn must_still_probe(config: &Config, probed: bool) -> (res: bool)
    ensures
        res == (config.server.forge && !probed),
{
    crate::server::must_probe(config) && !probed
}


/// How a joining client is taken care of next.
#[derive(Clone, Copy, Debug, PartialEq, Eq, Structural)]
pub enum Occupation {
    /// Kicked with the message for the server's state.
    Kick,
    /// Held until the server is up, then relayed to it.
    Hold,
    /// Relayed to the forward address.
    Forward,
    /// No method is left: the connection is closed.
    Disconnect,
}

/// The first of `methods` from index `from` on that takes the client, with its index: kick
/// and forward always do, hold only while the server is starting, and the lobby, which this
/// build does not hold, never does. Past the end, the client is disconnected.
pub open spec fn spec_next_occupation(methods: Seq<Method>, from: int, state: State) -> (
    Occupation,
    int,
)
    decreases methods.len() - from,
{
    if from < 0 || from >= methods.len() {
        (Occupation::Disconnect, methods.len() as int)
    } else {
        match methods[from] {
            Method::Kick => (Occupation::Kick, from),
            Method::Forward => (Occupation::Forward, from),
            Method::Hold => if state == State::Starting {
                (Occupation::Hold, from)
            } else {
                spec_next_occupation(methods, from + 1, state)
            },
            Method::Lobby => spec_next_occupation(methods, from + 1, state),
        }
    }
}

/// Picks the method that occupies a joining client, trying the configured methods from index
/// `from` on while the server is in `state`. Where a hold gives up, the caller asks again
/// from the index after it.
pub fn next_occupation(methods: &[Method], from: usize, state: State) -> (res: (
    Occupation,
    usize,
))
    ensures
        res.0 == spec_next_occupation(methods@, from as int, state).0,
        res.1 as int == spec_next_occupation(methods@, from as int, state).1,
{
    let mut i: usize = from;
    while i < methods.len()
        invariant
            from <= i,
            spec_next_occupation(methods@, i as int, state) == spec_next_occupation(
                methods@,
                from as int,
                state,
            ),
        decreases methods.len() - i,
    {
        match methods[i] {
            Method::Kick => {
                return (Occupation::Kick, i);
            },
            Method::Forward => {
                return (Occupation::Forward, i);
            },
            Method::Hold => {
                if state == State::Starting {
                    return (Occupation::Hold, i);
                }
            },
            Method::Lobby => {},
        }
        i = i + 1;
    }
    (Occupation::Disconnect, methods.len())
}

} // verus!
