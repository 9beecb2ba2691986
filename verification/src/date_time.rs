//! Wall-clock time kept against the uptime clock, and the coarse date the
//! shaders are picked by.
use vstd::prelude::*;

verus! {

/// Nanoseconds in a second.
pub const S_TO_NANO: u64 = 1_000_000_000;

/// Nanoseconds in a millisecond.
pub const MS_TO_NANO: u64 = 1_000_000;

/// The wall-clock settings of the device: the unix time last set, the
/// uptime (in seconds) at which it was set, the offset from UTC in hours
/// and the delay between shader transitions.
pub struct WorldClock {
    pub world_time_s: u64,
    pub uptime_offset_s: u64,
    pub utc_offset: u64,
    pub transition_delay_nanos: u64,
}

/// The wall-clock time, in seconds, at uptime `now_nanos`.
pub open spec fn world_time_at(clock: WorldClock, now_nanos: u64) -> int {
    clock.world_time_s + now_nanos / S_TO_NANO - clock.uptime_offset_s
}

impl WorldClock {
    /// A clock that has not been set: time zero, eight hours from UTC, and
    /// half an hour between transitions.
    pub fn new() -> (r: WorldClock)
        ensures
            r.world_time_s == 0,
            r.uptime_offset_s == 0,
            r.utc_offset == 8,
            r.transition_delay_nanos == 60 * 30 * S_TO_NANO,
    {
        WorldClock {
            world_time_s: 0,
            uptime_offset_s: 0,
            utc_offset: 8,
            transition_delay_nanos: 60 * 30 * S_TO_NANO,
        }
    }

    /// Sets the current unix time, in seconds, at uptime `now_nanos`.
    pub fn set_world_time(&mut self, time_s: u64, now_nanos: u64)
        ensures
            final(self).world_time_s == time_s,
            final(self).uptime_offset_s == now_nanos / S_TO_NANO,
            final(self).utc_offset == old(self).utc_offset,
            final(self).transition_delay_nanos == old(self).transition_delay_nanos,
    {
        self.uptime_offset_s = now_nanos / S_TO_NANO;
        self.world_time_s = time_s;
    }

    /// The unix time, in seconds, at uptime `now_nanos`.
    pub fn get_world_time(&self, now_nanos: u64) -> (t: u64)
        requires
            self.world_time_s + now_nanos / S_TO_NANO <= u64::MAX,
            self.world_time_s + now_nanos / S_TO_NANO >= self.uptime_offset_s,
        ensures
            t == world_time_at(*self, now_nanos),
    {
        self.world_time_s + (now_nanos / S_TO_NANO) - self.uptime_offset_s
    }

    pub fn set_utc_offset(&mut self, offset: u64)
        ensures
            final(self).utc_offset == offset,
            final(self).world_time_s == old(self).world_time_s,
            final(self).uptime_offset_s == old(self).uptime_offset_s,
            final(self).transition_delay_nanos == old(self).transition_delay_nanos,
    {
        self.utc_offset = offset;
    }

    pub fn get_utc_offset(&self) -> (r: u64)
        ensures
            r == self.utc_offset,
    {
        self.utc_offset
    }

    pub fn get_tranasition_delay(&self) -> (r: u64)
        ensures
            r == self.transition_delay_nanos,
    {
        self.transition_delay_nanos
    }

    pub fn set_transition_delay(&mut self, nanos: u64)
        ensures
            final(self).transition_delay_nanos == nanos,
            final(self).world_time_s == old(self).world_time_s,
            final(self).uptime_offset_s == old(self).uptime_offset_s,
            final(self).utc_offset == old(self).utc_offset,
    {
        self.transition_delay_nanos = nanos;
    }
}

/// A time set at some uptime reads back, at any later uptime, as the time
/// set plus the whole seconds that have passed since.
pub proof fn lemma_world_time_read_back(clock: WorldClock, time_s: u64, set_at: u64, now_nanos: u64)
    requires
        clock.world_time_s == time_s,
        clock.uptime_offset_s == set_at / S_TO_NANO,
        set_at <= now_nanos,
    ensures
        world_time_at(clock, now_nanos) == time_s + (now_nanos / S_TO_NANO - set_at / S_TO_NANO),
        world_time_at(clock, now_nanos) >= time_s,
{
    vstd::arithmetic::div_mod::lemma_div_is_ordered(set_at as int, now_nanos as int, S_TO_NANO as int);
}

/// A very limited date: the days since the unix epoch, and the local hour
/// of the day.
#[derive(Copy, Clone, PartialEq, Eq, Structural, Debug)]
pub struct DateTime {
    /// Whole days since the unix epoch.
    pub days: u64,
    /// The hour of the day, where the clock is `utc_offset` hours behind
    /// UTC.
    pub hour: u64,
}

/// The date of unix time `unix` at `utc_offset` hours behind UTC: the
/// whole days since the epoch, and the local hour, from 0 to 23.
pub open spec fn date_of(unix: u64, utc_offset: u64) -> DateTime {
    DateTime { days: unix / 86400, hour: (((unix / 3600) as int - utc_offset as int) % 24) as u64 }
}

impl DateTime {
    /// The date of unix time `unix`, `utc_offset` hours from UTC.
    pub fn from_world_time(unix: u64, utc_offset: u64) -> (r: DateTime)
        ensures
            r == date_of(unix, utc_offset),
    {
        let days = unix / 86400;
        let hours = unix / 3600;
        let back = utc_offset % 24;
        let hour = (hours % 24 + 24 - back) % 24;
        assert(hour == ((unix / 3600) as int - utc_offset as int) % 24) by {
            assert((hours % 24 + 24 - back) % 24 == (hours as int - utc_offset as int) % 24) by (nonlinear_arith)
                requires
                    back == utc_offset % 24,
            ;
        }
        DateTime { days: days, hour: hour }
    }

    /// The date now, at uptime `now_nanos`, on `clock`.
    pub fn now(clock: &WorldClock, now_nanos: u64) -> (r: DateTime)
        requires
            clock.world_time_s + now_nanos / S_TO_NANO <= u64::MAX,
            clock.world_time_s + now_nanos / S_TO_NANO >= clock.uptime_offset_s,
        ensures
            r == date_of(world_time_at(*clock, now_nanos) as u64, clock.utc_offset),
    {
        let unix = clock.get_world_time(now_nanos);
        let offset = clock.get_utc_offset();
        DateTime::from_world_time(unix, offset)
    }
}

} // verus!
