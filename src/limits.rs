//! The limits a server announces to clients: request rates, avatar sizes and
//! the badges it allows.
use vstd::prelude::*;

use crate::badges::{Badges, PRIDE_COUNT, SPECIAL_COUNT};

verus! {

/// Request rates a client is held to.
#[derive(Clone, Copy, Debug, PartialEq, Eq, Structural)]
pub struct RateLimit {
    pub ping_size: u64,
    pub ping_rate: u64,
    pub equip: u64,
    pub download: u64,
    pub upload: u64,
}

impl Default for RateLimit {
    /// The rates every server announces.
    fn default() -> (r: RateLimit)
        ensures
            r == (RateLimit { ping_size: 1024, ping_rate: 32, equip: 1, download: 50, upload: 1 }),
    {
        RateLimit { ping_size: 1024, ping_rate: 32, equip: 1, download: 50, upload: 1 }
    }
}

/// Avatar limits and allowed badges.
#[derive(Clone, Copy, Debug, PartialEq, Eq, Structural)]
pub struct Limits {
    pub max_avatar_size: u64,
    pub max_avatars: u64,
    pub allowed_badges: Badges,
}

/// Whether no badge is allowed by `b`.
pub open spec fn no_badges(b: Badges) -> bool {
    &&& b.special.flags() == Seq::new(SPECIAL_COUNT as nat, |i: int| false)
    &&& b.pride.flags() == Seq::new(PRIDE_COUNT as nat, |i: int| false)
}

impl Default for Limits {
    /// Zero sizes and no badge allowed.
    fn default() -> (r: Limits)
        ensures
            r.max_avatar_size == 0,
            r.max_avatars == 0,
            no_badges(r.allowed_badges),
    {
        Limits { max_avatar_size: 0, max_avatars: 0, allowed_badges: Badges::default() }
    }
}

/// Everything a server announces as its limits.
#[derive(Clone, Copy, Debug, PartialEq, Eq, Structural)]
pub struct ServerLimits {
    pub rate: RateLimit,
    pub limits: Limits,
}

impl Default for ServerLimits {
    /// The default rates, zero sizes and no badge allowed.
    fn default() -> (r: ServerLimits)
        ensures
            r.rate == (RateLimit { ping_size: 1024, ping_rate: 32, equip: 1, download: 50, upload: 1 }),
            r.limits.max_avatar_size == 0,
            r.limits.max_avatars == 0,
            no_badges(r.limits.allowed_badges),
    {
        ServerLimits { rate: RateLimit::default(), limits: Limits::default() }
    }
}

/// The limits a server with the configured avatar size and count announces:
/// the default rates, and no badge allowed.
pub fn limits(max_avatar_size: u64, max_avatars: u64) -> (r: ServerLimits)
    ensures
        r.rate == (RateLimit { ping_size: 1024, ping_rate: 32, equip: 1, download: 50, upload: 1 }),
        r.limits.max_avatar_size == max_avatar_size,
        r.limits.max_avatars == max_avatars,
        no_badges(r.limits.allowed_badges),
{
    ServerLimits {
        rate: RateLimit::default(),
        limits: Limits { max_avatar_size, max_avatars, allowed_badges: Badges::default() },
    }
}

} // verus!
