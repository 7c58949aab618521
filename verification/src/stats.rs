use crate::simulator::Time;
use crate::switch::Status;
use vstd::prelude::*;

verus! {

/// Per-status dwell-time totals, folded over the `(Time, Status)` pairs of a
/// simulation run.
///
/// Each update charges the span since the previous update to the status the
/// port was in over that span.  The four totals always sum to the total
/// elapsed time (`stats_wf`), so after the last update the per-status
/// contributions add up exactly to the time of the last emitted event.
pub struct Stats {
    pub last_state: Status,
    pub off: Time,
    pub t_on: Time,
    pub on: Time,
    pub t_off: Time,
    pub total_time: Time,
}

/// The dwell time this accounting has recorded for one status.
pub open spec fn spec_dwell(s: Stats, status: Status) -> int {
    match status {
        Status::Off => s.off.0 as int,
        Status::TOn => s.t_on.0 as int,
        Status::On => s.on.0 as int,
        Status::TOff => s.t_off.0 as int,
    }
}

/// The four per-status totals sum to the total elapsed time.
pub open spec fn stats_wf(s: Stats) -> bool {
    s.off.0 + s.t_on.0 + s.on.0 + s.t_off.0 == s.total_time.0
}

impl Stats {
    /// Fresh accounting: nothing elapsed, and the port starts off.
    pub fn new() -> (s: Stats)
        ensures
            stats_wf(s),
            s.last_state == Status::Off,
            s.total_time.0 == 0,
            forall|st: Status| spec_dwell(s, st) == 0,
    {
        Stats {
            last_state: Status::Off,
            off: Time(0),
            t_on: Time(0),
            on: Time(0),
            t_off: Time(0),
            total_time: Time(0),
        }
    }

    /// Fold one `(time, status)` pair into the totals: the span since the
    /// previous update is charged to the status that was current over it.
    ///
    /// The update keeps the totals summing to the total elapsed time, so
    /// after every update the per-status contributions add up exactly to the
    /// time of the event just folded in.
    pub fn update(&mut self, info: (Time, Status))
        requires
            stats_wf(*old(self)),
            old(self).total_time.0 <= info.0.0,
        ensures
            stats_wf(*final(self)),
            final(self).total_time == info.0,
            final(self).last_state == info.1,
            spec_dwell(*final(self), old(self).last_state) == spec_dwell(
                *old(self),
                old(self).last_state,
            ) + info.0.0 - old(self).total_time.0,
            forall|st: Status|
                st != old(self).last_state ==> spec_dwell(*final(self), st) == spec_dwell(
                    *old(self),
                    st,
                ),
    {
        let (time, state) = info;
        let gap = time.0 - self.total_time.0;
        match self.last_state {
            Status::Off => {
                self.off = Time(self.off.0 + gap);
            },
            Status::TOn => {
                self.t_on = Time(self.t_on.0 + gap);
            },
            Status::On => {
                self.on = Time(self.on.0 + gap);
            },
            Status::TOff => {
                self.t_off = Time(self.t_off.0 + gap);
            },
        }
        self.last_state = state;
        self.total_time = time;
    }

    /// The total elapsed time folded in so far.
    pub fn get_total_time(&self) -> (r: Time)
        ensures
            r == self.total_time,
    {
        self.total_time
    }

    /// The dwell-time total recorded for one status.
    pub fn get(&self, status: Status) -> (r: Time)
        ensures
            r.0 == spec_dwell(*self, status),
    {
        match status {
            Status::Off => self.off,
            Status::TOn => self.t_on,
            Status::On => self.on,
            Status::TOff => self.t_off,
        }
    }
}

} // verus!
