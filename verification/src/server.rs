//! The state of the Minecraft server as the proxy tracks it, and the decisions taken on it:
//! state changes, when to sleep, when to kill, who may join. Time is a monotonic clock in
//! milliseconds that the caller reads and passes in.
use vstd::prelude::*;

use crate::config::{Config, Method};
use crate::mc::ban::{BannedIp, BannedIps};
use crate::mc::whitelist::{Whitelist, spec_whitelisted};
use crate::net::IpAddress;
use crate::shell::{shell_split, shlex_split};

verus! {

/// Largest clock value the server accepts, so that any deadline of up to `u32::MAX` seconds
/// after it still fits.
pub const TIME_LIMIT: u64 = 0xffff_fc17_ffff_ffff;

/// Milliseconds after a stop over RCON before RCON is used to stop again.
pub const RCON_COOLDOWN_MS: u64 = 15000;

/// Milliseconds the server process waits after it quit before it counts as stopped.
pub const SERVER_QUIT_COOLDOWN_MS: u64 = 2500;

/// The state of the server process.
#[derive(Clone, Copy, Debug, PartialEq, Eq, Structural)]
pub enum State {
    Stopped,
    Starting,
    Started,
    Stopping,
}

/// The number a state is stored as.
pub open spec fn state_number(state: State) -> u8 {
    match state {
        State::Stopped => 0,
        State::Starting => 1,
        State::Started => 2,
        State::Stopping => 3,
    }
}

/// The state a number stands for; a number above 3 stands for none.
pub open spec fn state_of_number(n: u8) -> State
    recommends
        n < 4,
{
    if n == 0 {
        State::Stopped
    } else if n == 1 {
        State::Starting
    } else if n == 2 {
        State::Started
    } else {
        State::Stopping
    }
}

impl State {
    /// The state stored as `state`.
    pub fn from_u8(state: u8) -> (res: State)
        requires
            state < 4,
        ensures
            res == state_of_number(state),
    {
        match state {
            0 => State::Stopped,
            1 => State::Starting,
            2 => State::Started,
            _ => State::Stopping,
        }
    }

    /// The number this state is stored as.
    pub fn to_u8(self) -> (res: u8)
        ensures
            res == state_number(self),
    {
        match self {
            State::Stopped => 0,
            State::Starting => 1,
            State::Started => 2,
            State::Stopping => 3,
        }
    }
}

/// Every state is stored as a number below 4 that reads back as the state, and every number
/// below 4 is the number of the state it reads as.
pub proof fn lemma_state_number_roundtrip(state: State, n: u8)
    ensures
        state_number(state) < 4,
        state_of_number(state_number(state)) == state,
        n < 4 ==> state_number(state_of_number(n)) == n,
{
}

/// The version a server reports.
#[derive(Debug)]
pub struct ServerVersion {
    pub name: String,
    pub protocol: u32,
}

/// A player listed in a server's status.
#[derive(Debug)]
pub struct OnlinePlayer {
    pub name: String,
    pub id: String,
}

/// The players a server reports.
#[derive(Debug)]
pub struct OnlinePlayers {
    pub max: u32,
    pub online: u32,
    pub sample: Vec<OnlinePlayer>,
}

/// What a server answers to a status request.
#[derive(Debug)]
pub struct ServerStatus {
    pub version: ServerVersion,
    pub players: OnlinePlayers,
    pub description: String,
    pub favicon: Option<String>,
}

/// Two statuses say the same.
pub open spec fn status_equal(a: ServerStatus, b: ServerStatus) -> bool {
    &&& a.version == b.version
    &&& a.players.max == b.players.max
    &&& a.players.online == b.players.online
    &&& a.players.sample@ == b.players.sample@
    &&& a.description == b.description
    &&& a.favicon == b.favicon
}

impl ServerVersion {
    pub fn duplicate(&self) -> (res: ServerVersion)
        ensures
            res == *self,
    {
        ServerVersion { name: self.name.clone(), protocol: self.protocol }
    }
}

impl OnlinePlayer {
    pub fn duplicate(&self) -> (res: OnlinePlayer)
        ensures
            res == *self,
    {
        OnlinePlayer { name: self.name.clone(), id: self.id.clone() }
    }
}

impl ServerStatus {
    /// A status that says the same as this one.
    pub fn duplicate(&self) -> (res: ServerStatus)
        ensures
            status_equal(res, *self),
    {
        let mut sample: Vec<OnlinePlayer> = Vec::new();
        let mut i: usize = 0;
        while i < self.players.sample.len()
            invariant
                i <= self.players.sample.len(),
                sample@ == self.players.sample@.take(i as int),
            decreases self.players.sample.len() - i,
        {
            let p = self.players.sample[i].duplicate();
            proof {
                assert(self.players.sample@.take(i as int + 1) =~= sample@.push(p));
            }
            sample.push(p);
            i = i + 1;
        }
        proof {
            assert(self.players.sample@.take(i as int) =~= self.players.sample@);
        }
        let favicon = match &self.favicon {
            Some(f) => Some(f.clone()),
            None => None,
        };
        ServerStatus {
            version: self.version.duplicate(),
            players: OnlinePlayers { max: self.players.max, online: self.players.online, sample },
            description: self.description.clone(),
            favicon,
        }
    }
}

/// The tracked state of the server.
#[derive(Debug)]
pub struct Server {
    /// The state of the server process.
    pub state: State,
    /// The process id of the running server, if known.
    pub pid: Option<u32>,
    /// The last status the server answered with.
    pub status: Option<ServerStatus>,
    /// When a player was last seen online.
    pub last_active: Option<u64>,
    /// Until when the server is kept online, whatever happens.
    pub keep_online_until: Option<u64>,
    /// When the server process is to be killed because starting or stopping took too long.
    pub kill_at: Option<u64>,
    /// The banned addresses.
    pub banned_ips: BannedIps,
    /// The whitelist, when the server uses one.
    pub whitelist: Option<Whitelist>,
    /// When the server was last stopped over RCON.
    pub rcon_last_stop: Option<u64>,
    /// The login plugin packets the server sent to a probing client.
    pub forge_payload: Vec<Vec<u8>>,
}

/// A deadline `secs` seconds after `now`.
pub open spec fn after_secs(now: u64, secs: u32) -> u64 {
    (now + secs * 1000) as u64
}

/// When a server that has just entered `new` is to be killed: after the start timeout when
/// starting, after the stop timeout when stopping, never when a timeout is zero or in the
/// other states.
pub open spec fn spec_kill_at(new: State, config: Config, now: u64) -> Option<u64> {
    if new == State::Starting && config.server.start_timeout > 0 {
        Some(after_secs(now, config.server.start_timeout))
    } else if new == State::Stopping && config.server.stop_timeout > 0 {
        Some(after_secs(now, config.server.stop_timeout))
    } else {
        None
    }
}

/// Keeping the server online for `duration` seconds from `now`; none for zero or none.
pub open spec fn spec_keep_online_until(duration: Option<u32>, now: u64) -> Option<u64> {
    match duration {
        Some(d) => if d > 0 {
            Some(after_secs(now, d))
        } else {
            None
        },
        None => None,
    }
}

impl Server {
    /// The server with its state and timing replaced.
    pub open spec fn with_timing(
        self,
        state: State,
        kill_at: Option<u64>,
        last_active: Option<u64>,
        keep_online_until: Option<u64>,
    ) -> Server {
        Server {
            state,
            pid: self.pid,
            status: self.status,
            last_active,
            keep_online_until,
            kill_at,
            banned_ips: self.banned_ips,
            whitelist: self.whitelist,
            rcon_last_stop: self.rcon_last_stop,
            forge_payload: self.forge_payload,
        }
    }

    /// Deadlines only run while starting or stopping, and a started server has been active.
    pub open spec fn wf(self) -> bool {
        &&& self.kill_at is Some ==> (self.state == State::Starting || self.state
            == State::Stopping)
        &&& self.state == State::Started ==> self.last_active is Some
    }
}

/// Moving to `new`, from `from` only when `from` is given: the state changes when it is
/// `from` (or anything, without `from`) and differs from `new`. A change sets the kill
/// deadline for the new state, and entering `Started` marks the server active and keeps it
/// online for the minimum online time. The flag tells whether the state changed.
pub open spec fn spec_update_state_from(
    s: Server,
    from: Option<State>,
    new: State,
    config: Config,
    now: u64,
) -> (Server, bool) {
    let applies = match from {
        Some(f) => s.state == f,
        None => true,
    };
    if !applies || s.state == new {
        (s, false)
    } else if new == State::Started {
        (
            s.with_timing(
                new,
                spec_kill_at(new, config, now),
                Some(now),
                spec_keep_online_until(Some(config.time.min_online_time), now),
            ),
            true,
        )
    } else {
        (
            s.with_timing(new, spec_kill_at(new, config, now), s.last_active, s.keep_online_until),
            true,
        )
    }
}

/// Taking in a status answer (or its absence): a stopped or starting server that answers is
/// started, a started server that does not answer is stopped; an answer is kept, and one with
/// players online marks the server active.
pub open spec fn spec_update_status(
    s: Server,
    config: Config,
    status: Option<ServerStatus>,
    now: u64,
) -> Server {
    let s1 = if (s.state == State::Stopped || s.state == State::Starting) && status is Some {
        spec_update_state_from(s, None, State::Started, config, now).0
    } else if s.state == State::Started && status is None {
        spec_update_state_from(s, None, State::Stopped, config, now).0
    } else {
        s
    };
    match status {
        Some(st) => Server {
            state: s1.state,
            pid: s1.pid,
            status: Some(st),
            last_active: if st.players.online > 0 {
                Some(now)
            } else {
                s1.last_active
            },
            keep_online_until: s1.keep_online_until,
            kill_at: s1.kill_at,
            banned_ips: s1.banned_ips,
            whitelist: s1.whitelist,
            rcon_last_stop: s1.rcon_last_stop,
            forge_payload: s1.forge_payload,
        },
        None => s1,
    }
}

/// Milliseconds from `from` to `now`, zero if `from` is later.
pub open spec fn elapsed(from: u64, now: u64) -> int {
    if now >= from {
        now - from
    } else {
        0
    }
}

/// Whether a started server is to sleep: nobody is online, it is not kept online, and it has
/// been inactive for the configured time.
pub open spec fn spec_should_sleep(s: Server, config: Config, now: u64) -> bool {
    &&& s.state == State::Started
    &&& !(s.status matches Some(st) && st.players.online > 0)
    &&& !(s.keep_online_until matches Some(t) && t >= now)
    &&& s.last_active matches Some(t) && elapsed(t, now) >= config.time.sleep_after * 1000
}

/// Whether the kill deadline has passed.
pub open spec fn spec_should_kill(s: Server, now: u64) -> bool {
    s.kill_at matches Some(t) && t <= now
}

/// How a server process ended.
#[derive(Clone, Copy, Debug, PartialEq, Eq, Structural)]
pub enum ProcessExit {
    /// It exited successfully.
    Success,
    /// It exited unsuccessfully, with this exit code if it has one.
    Failed(Option<i32>),
    /// Waiting for it failed.
    WaitError,
}

/// Exit codes of a server stopped by a signal on purpose.
pub open spec fn allowed_exit_code(code: i32) -> bool {
    code == 130 || code == 143
}

/// Whether a server process crashed: it failed with another exit code than those of a
/// signalled stop while the server was started.
pub open spec fn spec_process_crashed(exit: ProcessExit, state: State) -> bool {
    match exit {
        ProcessExit::Success => false,
        ProcessExit::Failed(code) => if code matches Some(c) && allowed_exit_code(c) {
            false
        } else {
            state == State::Started
        },
        ProcessExit::WaitError => false,
    }
}

/// Whether the server process crashed, given how it ended and the state it was in.
pub fn process_crashed(exit: ProcessExit, state: State) -> (res: bool)
    ensures
        res == spec_process_crashed(exit, state),
        res ==> state == State::Started,
        res <==> (exit matches ProcessExit::Failed(code) && state == State::Started && !(
        code matches Some(c) && (c == 130 || c == 143))),
{
    match exit {
        ProcessExit::Success => false,
        ProcessExit::Failed(code) => {
            match code {
                Some(c) => {
                    if c == 130 || c == 143 {
                        return false;
                    }
                },
                None => {},
            }
            state == State::Started
        },
        ProcessExit::WaitError => false,
    }
}

/// A way of stopping the server.
#[derive(Clone, Copy, Debug, PartialEq, Eq, Structural)]
pub enum StopMethod {
    /// Freeze the process with a signal.
    Freeze,
    /// Send `stop` over RCON.
    Rcon,
    /// Ask the process to terminate with a signal.
    Signal,
}

/// The ways of stopping the server, in the order they are tried until one works: freezing
/// when the process is to be frozen, RCON while the server is started, then a signal.
pub open spec fn spec_stop_methods(config: Config, state: State) -> Seq<StopMethod> {
    let a = if config.server.freeze_process {
        seq![StopMethod::Freeze]
    } else {
        Seq::empty()
    };
    let b = if state == State::Started {
        a.push(StopMethod::Rcon)
    } else {
        a
    };
    b.push(StopMethod::Signal)
}

/// The ways of stopping the server, in order.
pub fn stop_methods(config: &Config, state: State) -> (res: Vec<StopMethod>)
    ensures
        res@ == spec_stop_methods(*config, state),
{
    let mut v: Vec<StopMethod> = Vec::new();
    if config.server.freeze_process {
        v.push(StopMethod::Freeze);
    }
    if state == State::Started {
        v.push(StopMethod::Rcon);
    }
    v.push(StopMethod::Signal);
    proof {
        assert(v@ =~= spec_stop_methods(*config, state));
    }
    v
}

impl Server {
    /// A stopped server, with nothing known yet.
    pub fn new() -> (res: Server)
        ensures
            res.state == State::Stopped,
            res.pid is None,
            res.status is None,
            res.last_active is None,
            res.keep_online_until is None,
            res.kill_at is None,
            forall|ip: IpAddress| #[trigger] res.banned_ips.entry(ip) is None,
            res.whitelist is None,
            res.rcon_last_stop is None,
            res.forge_payload@.len() == 0,
            res.wf(),
    {
        Server {
            state: State::Stopped,
            pid: None,
            status: None,
            last_active: None,
            keep_online_until: None,
            kill_at: None,
            banned_ips: BannedIps::empty(),
            whitelist: None,
            rcon_last_stop: None,
            forge_payload: Vec::new(),
        }
    }

    pub fn state(&self) -> (res: State)
        ensures
            res == self.state,
    {
        self.state
    }

    fn kill_at_for(new: State, config: &Config, now: u64) -> (res: Option<u64>)
        requires
            now <= TIME_LIMIT,
        ensures
            res == spec_kill_at(new, *config, now),
    {
        if new == State::Starting && config.server.start_timeout > 0 {
            Some(now + config.server.start_timeout as u64 * 1000)
        } else if new == State::Stopping && config.server.stop_timeout > 0 {
            Some(now + config.server.stop_timeout as u64 * 1000)
        } else {
            None
        }
    }

    /// Moves to `new`, only from `from` when it is given; tells whether the state changed.
    pub fn update_state_from(
        &mut self,
        from: Option<State>,
        new: State,
        config: &Config,
        now: u64,
    ) -> (res: bool)
        requires
            now <= TIME_LIMIT,
            old(self).wf(),
        ensures
            (*final(self), res) == spec_update_state_from(*old(self), from, new, *config, now),
            final(self).wf(),
    {
        let applies = match from {
            Some(f) => self.state == f,
            None => true,
        };
        if !applies || self.state == new {
            return false;
        }
        self.state = new;
        self.kill_at = Server::kill_at_for(new, config, now);
        if new == State::Started {
            self.update_last_active(now);
            self.keep_online_for(Some(config.time.min_online_time), now);
        }
        true
    }

    /// Moves to `new` from any state; tells whether the state changed.
    pub fn update_state(&mut self, new: State, config: &Config, now: u64) -> (res: bool)
        requires
            now <= TIME_LIMIT,
            old(self).wf(),
        ensures
            (*final(self), res) == spec_update_state_from(*old(self), None, new, *config, now),
            final(self).wf(),
    {
        self.update_state_from(None, new, config, now)
    }

    /// Takes in the answer to a status request, or its absence.
    pub fn update_status(&mut self, config: &Config, status: Option<ServerStatus>, now: u64)
        requires
            now <= TIME_LIMIT,
            old(self).wf(),
        ensures
            *final(self) == spec_update_status(*old(self), *config, status, now),
            final(self).wf(),
            old(self).state == State::Stopping ==> final(self).state == State::Stopping
                && final(self).kill_at == old(self).kill_at,
            (old(self).state == State::Stopped || old(self).state == State::Starting) && status
                is Some ==> final(self).state == State::Started,
            old(self).state == State::Started && status is None ==> final(self).state
                == State::Stopped,
    {
        if (self.state == State::Stopped || self.state == State::Starting) && status.is_some() {
            self.update_state(State::Started, config, now);
        } else if self.state == State::Started && status.is_none() {
            self.update_state(State::Stopped, config, now);
        }
        match status {
            Some(st) => {
                if st.players.online > 0 {
                    self.update_last_active(now);
                }
                self.status = Some(st);
            },
            None => {},
        }
    }

    /// Starts a stopped server; tells whether it was stopped (and is now starting).
    pub fn start(&mut self, config: &Config, now: u64) -> (res: bool)
        requires
            now <= TIME_LIMIT,
            old(self).wf(),
        ensures
            (*final(self), res) == spec_update_state_from(
                *old(self),
                Some(State::Stopped),
                State::Starting,
                *config,
                now,
            ),
            res == (old(self).state == State::Stopped),
            final(self).wf(),
    {
        self.update_state_from(Some(State::Stopped), State::Starting, config, now)
    }

    /// Whether the server is to sleep now.
    pub fn should_sleep(&self, config: &Config, now: u64) -> (res: bool)
        ensures
            res == spec_should_sleep(*self, *config, now),
    {
        if self.state != State::Started {
            return false;
        }
        let players_online = match &self.status {
            Some(st) => st.players.online > 0,
            None => false,
        };
        if players_online {
            return false;
        }
        let keep_online = match self.keep_online_until {
            Some(t) => t >= now,
            None => false,
        };
        if keep_online {
            return false;
        }
        match self.last_active {
            Some(t) => {
                let idle: u64 = if now >= t {
                    now - t
                } else {
                    0
                };
                idle >= config.time.sleep_after as u64 * 1000
            },
            None => false,
        }
    }

    /// Whether the server process is to be killed now.
    pub fn should_kill(&self, now: u64) -> (res: bool)
        ensures
            res == spec_should_kill(*self, now),
    {
        match self.kill_at {
            Some(t) => t <= now,
            None => false,
        }
    }

    /// Marks the server active now.
    pub fn update_last_active(&mut self, now: u64)
        ensures
            *final(self) == old(self).with_timing(
                old(self).state,
                old(self).kill_at,
                Some(now),
                old(self).keep_online_until,
            ),
            old(self).wf() ==> final(self).wf(),
    {
        self.last_active = Some(now);
    }

    /// Keeps the server online for `duration` seconds from now; zero or none lifts it.
    pub fn keep_online_for(&mut self, duration: Option<u32>, now: u64)
        requires
            now <= TIME_LIMIT,
        ensures
            *final(self) == old(self).with_timing(
                old(self).state,
                old(self).kill_at,
                old(self).last_active,
                spec_keep_online_until(duration, now),
            ),
            old(self).wf() ==> final(self).wf(),
    {
        self.keep_online_until = match duration {
            Some(d) => if d > 0 {
                Some(now + d as u64 * 1000)
            } else {
                None
            },
            None => None,
        };
    }

    /// The process id of the server, if known.
    pub fn pid(&self) -> (res: Option<u32>)
        ensures
            res == self.pid,
    {
        self.pid
    }

    /// Records the process id of the server, or that it is gone.
    pub fn set_pid(&mut self, pid: Option<u32>)
        ensures
            final(self).pid == pid,
            final(self).state == old(self).state,
            final(self).kill_at == old(self).kill_at,
            final(self).last_active == old(self).last_active,
            final(self).wf() == old(self).wf(),
    {
        self.pid = pid;
    }

    /// The ban recorded for `ip`, if any.
    pub fn ban_entry(&self, ip: &IpAddress) -> (res: Option<BannedIp>)
        ensures
            res == self.banned_ips.entry(*ip),
    {
        self.banned_ips.get(ip)
    }

    /// Whether `ip` is banned now.
    pub fn is_banned_ip(&self, ip: &IpAddress) -> (res: bool)
        ensures
            res ==> self.banned_ips.entry(*ip) is Some,
            self.banned_ips.entry(*ip) matches Some(ban) ==> exists|now: i64| #[trigger]
                crate::mc::ban::spec_banned_at(ban, now) == res,
    {
        self.banned_ips.is_banned(ip)
    }

    /// Whether `username` may wake the server: always without a whitelist.
    pub fn is_whitelisted(&self, username: &str) -> (res: bool)
        ensures
            res == match self.whitelist {
                Some(w) => spec_whitelisted(w, username@),
                None => true,
            },
    {
        match &self.whitelist {
            Some(w) => w.is_whitelisted(username),
            None => true,
        }
    }

    pub fn set_banned_ips(&mut self, ips: BannedIps)
        requires
            old(self).wf(),
        ensures
            final(self).banned_ips == ips,
            final(self).state == old(self).state,
            final(self).whitelist == old(self).whitelist,
            final(self).wf(),
    {
        self.banned_ips = ips;
    }

    pub fn set_whitelist(&mut self, whitelist: Option<Whitelist>)
        requires
            old(self).wf(),
        ensures
            final(self).whitelist == whitelist,
            final(self).state == old(self).state,
            final(self).banned_ips == old(self).banned_ips,
            final(self).wf(),
    {
        self.whitelist = whitelist;
    }

    /// Whether RCON may be used to stop the server: not within the cooldown after its last use.
    pub fn rcon_cooled_down(&self, now: u64) -> (res: bool)
        ensures
            res == match self.rcon_last_stop {
                Some(t) => elapsed(t, now) >= RCON_COOLDOWN_MS,
                None => true,
            },
    {
        match self.rcon_last_stop {
            Some(t) => {
                let e: u64 = if now >= t {
                    now - t
                } else {
                    0
                };
                e >= RCON_COOLDOWN_MS
            },
            None => true,
        }
    }

    /// After `stop` was sent over RCON: remembers when, and the server is stopping.
    pub fn record_rcon_stop(&mut self, config: &Config, now: u64)
        requires
            now <= TIME_LIMIT,
            old(self).wf(),
        ensures
            final(self).rcon_last_stop == Some(now),
            final(self).state == State::Stopping,
            final(self).kill_at == if old(self).state == State::Stopping {
                old(self).kill_at
            } else {
                spec_kill_at(State::Stopping, *config, now)
            },
            final(self).wf(),
    {
        self.rcon_last_stop = Some(now);
        self.update_state(State::Stopping, config, now);
    }

    /// After a terminate signal was sent: a starting or started server is stopping.
    pub fn after_stop_signal(&mut self, config: &Config, now: u64)
        requires
            now <= TIME_LIMIT,
            old(self).wf(),
        ensures
            *final(self) == (if old(self).state == State::Starting || old(self).state
                == State::Started {
                spec_update_state_from(*old(self), None, State::Stopping, *config, now).0
            } else {
                *old(self)
            }),
            final(self).wf(),
    {
        self.update_state_from(Some(State::Starting), State::Stopping, config, now);
        self.update_state_from(Some(State::Started), State::Stopping, config, now);
    }

    /// After a freeze signal was sent (whether or not it worked): a starting or started server
    /// counts as stopped.
    pub fn after_freeze(&mut self, config: &Config, now: u64)
        requires
            now <= TIME_LIMIT,
            old(self).wf(),
        ensures
            *final(self) == (if old(self).state == State::Starting || old(self).state
                == State::Started {
                spec_update_state_from(*old(self), None, State::Stopped, *config, now).0
            } else {
                *old(self)
            }),
            final(self).wf(),
    {
        self.update_state_from(Some(State::Starting), State::Stopped, config, now);
        self.update_state_from(Some(State::Started), State::Stopped, config, now);
    }

    /// After an unfreeze signal was sent (whether or not it worked): a stopping or stopped
    /// server is starting.
    pub fn after_unfreeze(&mut self, config: &Config, now: u64)
        requires
            now <= TIME_LIMIT,
            old(self).wf(),
        ensures
            *final(self) == (if old(self).state == State::Stopping || old(self).state
                == State::Stopped {
                spec_update_state_from(*old(self), None, State::Starting, *config, now).0
            } else {
                *old(self)
            }),
            final(self).wf(),
    {
        self.update_state_from(Some(State::Stopping), State::Starting, config, now);
        self.update_state_from(Some(State::Stopped), State::Starting, config, now);
    }

    /// After the server process ended (and the quit cooldown passed): its process id is
    /// forgotten and the server is stopped. Tells whether to start it again: when it crashed
    /// and is to be woken on a crash.
    pub fn on_process_exit(&mut self, crashed: bool, config: &Config, now: u64) -> (res: bool)
        requires
            now <= TIME_LIMIT,
            old(self).wf(),
        ensures
            final(self).pid is None,
            final(self).state == State::Stopped,
            final(self).kill_at == if old(self).state == State::Stopped {
                old(self).kill_at
            } else {
                None
            },
            res == (crashed && config.server.wake_on_crash),
            final(self).wf(),
    {
        self.set_pid(None);
        self.update_state(State::Stopped, config, now);
        crashed && config.server.wake_on_crash
    }
}

/// Whether the lobby method must wait for a probe of the server first: with Forge it must.
pub fn must_probe(config: &Config) -> (res: bool)
    ensures
        res == config.server.forge,
{
    config.server.forge
}

/// Whether the join methods include the lobby.
pub fn uses_lobby(config: &Config) -> (res: bool)
    ensures
        res == config.join.methods@.contains(Method::Lobby),
{
    let mut i: usize = 0;
    while i < config.join.methods.len()
        invariant
            i <= config.join.methods.len(),
            forall|j: int| 0 <= j < i ==> config.join.methods@[j] != Method::Lobby,
        decreases config.join.methods.len() - i,
    {
        if config.join.methods[i] == Method::Lobby {
            proof {
                assert(config.join.methods@[i as int] == Method::Lobby);
            }
            return true;
        }
        i = i + 1;
    }
    false
}

/// A server just seen answering while stopped or starting is started, and is not idle at
/// that moment as long as it is to sleep after some time or kept online for some time.
pub proof fn lemma_detected_start_not_idle(
    s: Server,
    config: Config,
    status: ServerStatus,
    now: u64,
)
    requires
        s.state == State::Stopped || s.state == State::Starting,
        now <= TIME_LIMIT,
        config.time.sleep_after > 0 || config.time.min_online_time > 0,
    ensures
        spec_update_status(s, config, Some(status), now).state == State::Started,
        !spec_should_sleep(spec_update_status(s, config, Some(status), now), config, now),
{
}

/// A server that is to sleep at some moment is still to sleep at any later moment, as long as
/// nothing about it changes.
pub proof fn lemma_should_sleep_monotonic(s: Server, config: Config, t1: u64, t2: u64)
    requires
        t1 <= t2,
        spec_should_sleep(s, config, t1),
    ensures
        spec_should_sleep(s, config, t2),
{
}

/// A server whose kill deadline has passed stays past it.
pub proof fn lemma_should_kill_monotonic(s: Server, t1: u64, t2: u64)
    requires
        t1 <= t2,
        spec_should_kill(s, t1),
    ensures
        spec_should_kill(s, t2),
{
}

/// A server that is to sleep is started and has nobody online.
pub proof fn lemma_sleep_only_when_started_and_empty(s: Server, config: Config, now: u64)
    requires
        spec_should_sleep(s, config, now),
    ensures
        s.state == State::Started,
        !(s.status matches Some(st) && st.players.online > 0),
{
}

/// A conditional move changes the state only from the state it is conditioned on, and then to
/// the target; a move never changes the state without reporting it.
pub proof fn lemma_update_state_from(
    s: Server,
    from: State,
    new: State,
    config: Config,
    now: u64,
)
    ensures
        spec_update_state_from(s, Some(from), new, config, now).0.state != s.state ==> (s.state
            == from && spec_update_state_from(s, Some(from), new, config, now).0.state == new),
        spec_update_state_from(s, Some(from), new, config, now).1 <==> (s.state == from && from
            != new),
        !spec_update_state_from(s, Some(from), new, config, now).1 ==> spec_update_state_from(
            s,
            Some(from),
            new,
            config,
            now,
        ).0 == s,
{
}

/// What a status answer (or its absence) does to the state: a stopped or starting server that
/// answers is started; a started server that does not answer is stopped; in every other case
/// the state stays. In particular a stopping server that still answers during its shutdown
/// keeps stopping, with its kill deadline and the time it is kept online unchanged.
pub proof fn lemma_update_status_state(
    s: Server,
    config: Config,
    status: Option<ServerStatus>,
    now: u64,
)
    ensures
        s.state == State::Stopping ==> {
            &&& spec_update_status(s, config, status, now).state == State::Stopping
            &&& spec_update_status(s, config, status, now).kill_at == s.kill_at
            &&& spec_update_status(s, config, status, now).keep_online_until
                == s.keep_online_until
        },
        (s.state == State::Stopped || s.state == State::Starting) && status is Some
            ==> spec_update_status(s, config, status, now).state == State::Started,
        (s.state == State::Stopped || s.state == State::Starting) && status is None
            ==> spec_update_status(s, config, status, now) == s,
        s.state == State::Started && status is None ==> spec_update_status(
            s,
            config,
            status,
            now,
        ).state == State::Stopped,
        s.state == State::Started && status is Some ==> spec_update_status(
            s,
            config,
            status,
            now,
        ).state == State::Started,
{
}

/// A process exit counts as a crash only while the server was started: an exit while it was
/// stopped, starting or stopping (say, a server that quits at once because its EULA is not
/// accepted) is never one. A successful exit, a failed wait, and the exit codes of a stop by
/// signal (130 and 143) are never crashes; any other failure of a started server is one.
pub proof fn lemma_crash_only_when_started(exit: ProcessExit, state: State)
    ensures
        spec_process_crashed(exit, state) ==> state == State::Started,
        exit == ProcessExit::Success ==> !spec_process_crashed(exit, state),
        exit == ProcessExit::WaitError ==> !spec_process_crashed(exit, state),
        exit == ProcessExit::Failed(Some(130)) ==> !spec_process_crashed(exit, state),
        exit == ProcessExit::Failed(Some(143)) ==> !spec_process_crashed(exit, state),
        state == State::Started && exit == ProcessExit::Failed(None) ==> spec_process_crashed(
            exit,
            state,
        ),
        forall|c: i32|
            state == State::Started && c != 130 && c != 143 && exit == ProcessExit::Failed(Some(c))
                ==> spec_process_crashed(exit, state),
{
}

/// The deadlines that a change of state sets: entering `Starting` sets the kill deadline the
/// start timeout (in seconds) after `now`, entering `Stopping` the stop timeout after it, a
/// zero timeout and every other state none; entering `Started` marks the server active at
/// `now` and keeps it online for the minimum online time (none when that is zero).
pub proof fn lemma_change_deadlines(
    s: Server,
    from: Option<State>,
    new: State,
    config: Config,
    now: u64,
)
    requires
        now <= TIME_LIMIT,
        spec_update_state_from(s, from, new, config, now).1,
    ensures
        ({
            let t = spec_update_state_from(s, from, new, config, now).0;
            &&& t.state == new
            &&& new == State::Starting && config.server.start_timeout > 0 ==> t.kill_at == Some(
                (now + config.server.start_timeout * 1000) as u64,
            )
            &&& new == State::Stopping && config.server.stop_timeout > 0 ==> t.kill_at == Some(
                (now + config.server.stop_timeout * 1000) as u64,
            )
            &&& new == State::Starting && config.server.start_timeout == 0 ==> t.kill_at is None
            &&& new == State::Stopping && config.server.stop_timeout == 0 ==> t.kill_at is None
            &&& (new == State::Started || new == State::Stopped) ==> t.kill_at is None
            &&& new == State::Started ==> t.last_active == Some(now)
            &&& new == State::Started && config.time.min_online_time > 0 ==> t.keep_online_until
                == Some((now + config.time.min_online_time * 1000) as u64)
            &&& new == State::Started && config.time.min_online_time == 0
                ==> t.keep_online_until is None
            &&& new != State::Started ==> t.last_active == s.last_active && t.keep_online_until
                == s.keep_online_until
        }),
{
}

/// The order in which stopping is tried: freezing first exactly when the process is to be
/// frozen, RCON only while the server is started, and a signal always, as the last resort.
pub proof fn lemma_stop_methods_order(config: Config, state: State)
    ensures
        ({
            let m = spec_stop_methods(config, state);
            &&& m.len() >= 1
            &&& m.last() == StopMethod::Signal
            &&& (m[0] == StopMethod::Freeze) <==> config.server.freeze_process
            &&& m.contains(StopMethod::Rcon) <==> state == State::Started
            &&& m.len() == 1 + (if config.server.freeze_process { 1int } else { 0int }) + (if state
                == State::Started { 1int } else { 0int })
            &&& state == State::Started && config.server.freeze_process ==> m =~= seq![
                StopMethod::Freeze,
                StopMethod::Rcon,
                StopMethod::Signal,
            ]
        }),
{
    let m = spec_stop_methods(config, state);
    if state == State::Started {
        assert(m[m.len() - 2] == StopMethod::Rcon);
    } else {
        assert forall|i: int| 0 <= i < m.len() implies m[i] != StopMethod::Rcon by {
            if config.server.freeze_process {
                assert(m =~= seq![StopMethod::Freeze, StopMethod::Signal]);
            } else {
                assert(m =~= seq![StopMethod::Signal]);
            }
        }
    }
}

/// A server stays well formed whatever state it is moved to and whatever status it takes in.
pub proof fn lemma_wf_preserved(
    s: Server,
    from: Option<State>,
    new: State,
    config: Config,
    status: Option<ServerStatus>,
    now: u64,
)
    requires
        s.wf(),
    ensures
        spec_update_state_from(s, from, new, config, now).0.wf(),
        spec_update_status(s, config, status, now).wf(),
{
}


/// A server that has just come up stays up for the minimum online time: from the moment it
/// is started until that many seconds later, it is not to sleep, whatever else is true of it.
pub proof fn lemma_min_online_time(
    s: Server,
    from: Option<State>,
    config: Config,
    now: u64,
    later: u64,
)
    requires
        now <= TIME_LIMIT,
        s.state != State::Started,
        spec_update_state_from(s, from, State::Started, config, now).1,
        config.time.min_online_time > 0,
        later <= now + config.time.min_online_time * 1000,
    ensures
        !spec_should_sleep(spec_update_state_from(s, from, State::Started, config, now).0, config, later),
{
}

/// A started server with nobody online and no time left to be kept online goes to sleep
/// exactly once it has been inactive for the configured time.
pub proof fn lemma_sleeps_after_idle(s: Server, config: Config, last: u64, now: u64)
    requires
        s.state == State::Started,
        !(s.status matches Some(st) && st.players.online > 0),
        !(s.keep_online_until matches Some(t) && t >= now),
        s.last_active == Some(last),
        last <= now,
    ensures
        spec_should_sleep(s, config, now) <==> now - last >= config.time.sleep_after * 1000,
{
}

/// The program and arguments that start the server: `config.server.command` split into shell
/// words. `None` where the command cannot be split, or splits into no word at all: then no
/// server can be started.
pub fn server_command(config: &Config) -> (res: Option<(String, Vec<String>)>)
    ensures
        match shell_split(config.server.command@) {
            Some(words) => if words.len() == 0 {
                res is None
            } else {
                res matches Some((program, args)) && program@ == words[0] && args@.len() + 1
                    == words.len() && forall|i: int|
                    0 <= i < args@.len() ==> #[trigger] args@[i]@ == words[i + 1]
            },
            None => res is None,
        },
{
    match shlex_split(config.server.command.as_str()) {
        None => None,
        Some(words) => {
            if words.len() == 0 {
                return None;
            }
            let ghost all = words@;
            let mut args: Vec<String> = Vec::new();
            let mut i: usize = 1;
            while i < words.len()
                invariant
                    1 <= i <= words.len(),
                    words@ == all,
                    args@.len() + 1 == i,
                    forall|j: int| 0 <= j < args@.len() ==> #[trigger] args@[j]@ == all[j + 1]@,
                decreases words.len() - i,
            {
                args.push(words[i].clone());
                i = i + 1;
            }
            Some((words[0].clone(), args))
        },
    }
}

} // verus!
