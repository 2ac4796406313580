//! Banned IP addresses, as the server lists them in `banned-ips.json`.
use vstd::prelude::*;

use crate::config::opt_view;
use crate::net::IpAddress;
use crate::text::{chars_of, chars_eq, lowercase, lowered, trim, trim_seq};

verus! {

/// The moment, in seconds since the Unix epoch, that chrono's `DateTime::parse_from_str`
/// reads from `s` in the format `%Y-%m-%d %H:%M:%S %z`, if it reads one.
pub uninterp spec fn parsed_expiry(s: Seq<char>) -> Option<i64>;

/// Parses a ban expiry with chrono's `DateTime::parse_from_str` in the format
/// `%Y-%m-%d %H:%M:%S %z` and takes its Unix timestamp. Claimed: the result is
/// `parsed_expiry(s)`.
#[verifier::external_body]
fn parse_expiry(s: &str) -> (res: Option<i64>)
    ensures
        res == parsed_expiry(s@),
{
    match chrono::DateTime::parse_from_str(s, "%Y-%m-%d %H:%M:%S %z") {
        Ok(expiry) => Some(expiry.timestamp()),
        Err(_) => None,
    }
}

/// The current time in whole seconds since the Unix epoch, as chrono's
/// `DateTime::<Utc>::from(SystemTime::now())` gives it (a clock before the epoch gives a
/// negative number). Nothing is claimed of the value. The conversion panics only for a clock
/// beyond the years chrono covers (about 262,000 years either way), which a system clock does
/// not reach.
#[verifier::external_body]
fn unix_now() -> (res: i64) {
    chrono::DateTime::<chrono::Utc>::from(std::time::SystemTime::now()).timestamp()
}

/// One banned address, with the details the server recorded.
#[derive(Debug)]
pub struct BannedIp {
    pub ip: IpAddress,
    pub created: Option<String>,
    pub source: Option<String>,
    pub expires: Option<String>,
    pub reason: Option<String>,
}

/// The expiry text says the ban never ends.
pub open spec fn expires_forever(expires: Seq<char>) -> bool {
    lowered(trim_seq(expires)) == "forever"@
}

/// Whether a ban still holds at Unix time `now` (seconds): it holds without an expiry, with
/// expiry `forever` (in any case, around whitespace), with an expiry that cannot be read, and
/// until the expiry moment has passed.
pub open spec fn spec_banned_at(ban: BannedIp, now: i64) -> bool {
    match ban.expires {
        None => true,
        Some(e) => if expires_forever(e@) {
            true
        } else {
            match parsed_expiry(e@) {
                None => true,
                Some(t) => t > now,
            }
        },
    }
}

fn clone_opt_string(o: &Option<String>) -> (res: Option<String>)
    ensures
        res == *o,
{
    match o {
        Some(s) => Some(s.clone()),
        None => None,
    }
}

impl BannedIp {
    /// An equal copy of this entry.
    pub fn duplicate(&self) -> (res: BannedIp)
        ensures
            res == *self,
    {
        BannedIp {
            ip: self.ip,
            created: clone_opt_string(&self.created),
            source: clone_opt_string(&self.source),
            expires: clone_opt_string(&self.expires),
            reason: clone_opt_string(&self.reason),
        }
    }

    /// Whether this ban holds at Unix time `now` (seconds).
    pub fn is_banned_at(&self, now: i64) -> (res: bool)
        ensures
            res == spec_banned_at(*self, now),
    {
        let expires = match &self.expires {
            Some(expires) => expires,
            None => return true,
        };
        let chars = chars_of(expires.as_str());
        let low = lowercase(trim(chars.as_slice()).as_slice());
        let forever = chars_of("forever");
        if chars_eq(low.as_slice(), forever.as_slice()) {
            return true;
        }
        match parse_expiry(expires.as_str()) {
            Some(expiry) => expiry > now,
            None => true,
        }
    }

    /// Whether this ban holds now.
    pub fn is_banned(&self) -> (res: bool)
        ensures
            exists|now: i64| #[trigger] spec_banned_at(*self, now) == res,
    {
        let now = unix_now();
        self.is_banned_at(now)
    }
}

/// The entry for `ip` in a list of bans: the last one with that address, as a map filled
/// from the list in order keeps it.
pub open spec fn last_entry(entries: Seq<BannedIp>, ip: IpAddress) -> Option<BannedIp>
    decreases entries.len(),
{
    if entries.len() == 0 {
        None
    } else if entries.last().ip == ip {
        Some(entries.last())
    } else {
        last_entry(entries.drop_last(), ip)
    }
}

/// The banned addresses, looked up by address.
#[derive(Debug)]
pub struct BannedIps {
    pub ips: Vec<BannedIp>,
}

impl BannedIps {
    /// No banned addresses.
    pub fn empty() -> (res: BannedIps)
        ensures
            forall|ip: IpAddress| #[trigger] res.entry(ip) is None,
    {
        BannedIps { ips: Vec::new() }
    }

    /// The bans of `entries`, a later entry for an address replacing an earlier one.
    pub fn from_entries(entries: Vec<BannedIp>) -> (res: BannedIps)
        ensures
            forall|ip: IpAddress| #[trigger] res.entry(ip) == last_entry(entries@, ip),
    {
        BannedIps { ips: entries }
    }

    /// The ban recorded for `ip`, if any.
    pub open spec fn entry(&self, ip: IpAddress) -> Option<BannedIp> {
        last_entry(self.ips@, ip)
    }

    /// The ban recorded for `ip`, if any.
    pub fn get(&self, ip: &IpAddress) -> (res: Option<BannedIp>)
        ensures
            res == self.entry(*ip),
    {
        let mut i: usize = self.ips.len();
        assert(self.ips@.take(i as int) =~= self.ips@);
        while i > 0
            invariant
                i <= self.ips.len(),
                last_entry(self.ips@, *ip) == last_entry(self.ips@.take(i as int), *ip),
            decreases i,
        {
            let ghost t = self.ips@.take(i as int);
            proof {
                assert(t.drop_last() =~= self.ips@.take(i as int - 1));
                assert(t.last() == self.ips@[i as int - 1]);
            }
            if self.ips[i - 1].ip == *ip {
                return Some(self.ips[i - 1].duplicate());
            }
            i = i - 1;
        }
        proof {
            assert(self.ips@.take(0) =~= Seq::<BannedIp>::empty());
        }
        None
    }

    /// Whether `ip` is banned now: it has an entry, and that ban holds.
    pub fn is_banned(&self, ip: &IpAddress) -> (res: bool)
        ensures
            res ==> self.entry(*ip) is Some,
            self.entry(*ip) matches Some(ban) ==> exists|now: i64| #[trigger] spec_banned_at(ban, now) == res,
    {
        match self.get(ip) {
            Some(ban) => ban.is_banned(),
            None => false,
        }
    }
}

} // verus!
