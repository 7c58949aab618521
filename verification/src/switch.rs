use crate::simulator::Time;
use vstd::prelude::*;

verus! {

// Default configuration: sleep and wake transition times in nanoseconds,
// and the per-byte transmission time in picoseconds of a 10 Gb/s link
// (8 bits per byte at 10^10 bits per second is 0.8 ns, i.e. 800 ps).
pub const T_S_DEFAULT: u64 = 2880;
pub const T_W_DEFAULT: u64 = 4480;
pub const BYTE_TIME_PS_DEFAULT: u64 = 800;

/// One arriving frame: arrival time and size in bytes.  Immutable once
/// constructed.
#[derive(Clone, Copy, Debug, PartialEq, Eq, Structural)]
pub struct Packet {
    pub arrival: Time,
    pub size: u32,
}

impl Packet {
    pub fn new(arrival: Time, size: u32) -> (p: Packet)
        ensures
            p.arrival == arrival,
            p.size == size,
    {
        Packet { arrival, size }
    }

    pub fn arrival(&self) -> (r: Time)
        ensures
            r == self.arrival,
    {
        self.arrival
    }

    pub fn size(&self) -> (r: u32)
        ensures
            r == self.size,
    {
        self.size
    }
}

/// The tag of the power state a port is in.
#[derive(Hash, PartialEq, Eq, Structural, Clone, Copy, Debug)]
pub enum Status {
    Off,
    On,
    TOff,
    TOn,
}

impl Status {
    /// The stable display name of this status.
    pub fn name(&self) -> (r: &'static str)
        ensures
            match self {
                Status::Off => r@ == "OFF"@,
                Status::On => r@ == "ON"@,
                Status::TOff => r@ == "T_OFF"@,
                Status::TOn => r@ == "T_ON"@,
            },
    {
        match self {
            Status::Off => "OFF",
            Status::On => "ON",
            Status::TOff => "T_OFF",
            Status::TOn => "T_ON",
        }
    }
}

/// The power state of the port.  Each state carries the time of its last
/// event; the on state also remembers until when the port must stay awake
/// after its last transmission.
#[derive(Clone, Copy, Debug, PartialEq, Eq, Structural)]
pub enum SwitchState {
    Off { last_event: Time },
    TOn { last_event: Time },
    On { last_event: Time, hyst_end: Time },
    TOff { last_event: Time },
}

/// The time of the last event recorded in a state.
pub open spec fn last_event_of(s: SwitchState) -> int {
    match s {
        SwitchState::Off { last_event } => last_event.0 as int,
        SwitchState::TOn { last_event } => last_event.0 as int,
        SwitchState::On { last_event, .. } => last_event.0 as int,
        SwitchState::TOff { last_event } => last_event.0 as int,
    }
}

/// The status tag of a state.
pub open spec fn status_of(s: SwitchState) -> Status {
    match s {
        SwitchState::Off { .. } => Status::Off,
        SwitchState::TOn { .. } => Status::TOn,
        SwitchState::On { .. } => Status::On,
        SwitchState::TOff { .. } => Status::TOff,
    }
}

/// The later of two times.
pub open spec fn later_of(a: int, b: int) -> int {
    if a >= b {
        a
    } else {
        b
    }
}

/// Transmission time of a packet in nanoseconds: its size in bytes times
/// the per-byte time in picoseconds, rounded to the nearest nanosecond.
pub open spec fn spec_tx_time(byte_time_ps: int, size: int) -> int {
    (size * byte_time_ps + 500) / 1000
}

/// The time at which the step taken from this switch state at `now` is
/// emitted, state by state as in `advance_post`.
pub open spec fn step_time(sw: Switch, now: Time) -> int {
    match sw.state {
        SwitchState::Off { last_event } => later_of(
            sw.queue@[0].arrival.0 + sw.idle.0,
            last_event.0 as int,
        ),
        SwitchState::TOn { last_event } => last_event.0 + sw.t_w.0,
        SwitchState::On { last_event, hyst_end } => {
            if sw.queue@[0].arrival.0 > now.0 {
                if sw.queue@[0].arrival.0 > hyst_end.0 {
                    hyst_end.0 as int
                } else {
                    sw.queue@[0].arrival.0 as int
                }
            } else {
                last_event.0 + spec_tx_time(sw.byte_time_ps as int, sw.queue@[0].size as int)
            }
        },
        SwitchState::TOff { last_event } => last_event.0 + sw.t_s.0,
    }
}

/// The packet the step taken from this switch state at `now` transmits:
/// the head of the queue exactly when the port is on and the head has
/// arrived.
pub open spec fn step_packet(sw: Switch, now: Time) -> Option<Packet> {
    match sw.state {
        SwitchState::On { last_event, hyst_end } => {
            if sw.queue@[0].arrival.0 > now.0 {
                None
            } else {
                Some(sw.queue@[0])
            }
        },
        _ => None,
    }
}

/// The state the step taken from this switch state at `now` installs,
/// state by state as in `advance_post`.
pub open spec fn step_state(sw: Switch, now: Time) -> SwitchState {
    match sw.state {
        SwitchState::Off { last_event } => SwitchState::TOn {
            last_event: Time(step_time(sw, now) as u64),
        },
        SwitchState::TOn { last_event } => SwitchState::On {
            last_event: Time(step_time(sw, now) as u64),
            hyst_end: Time(step_time(sw, now) as u64),
        },
        SwitchState::On { last_event, hyst_end } => {
            if sw.queue@[0].arrival.0 > now.0 {
                if sw.queue@[0].arrival.0 > hyst_end.0 {
                    SwitchState::TOff { last_event: hyst_end }
                } else {
                    SwitchState::On { last_event: sw.queue@[0].arrival, hyst_end }
                }
            } else {
                SwitchState::On {
                    last_event: Time(step_time(sw, now) as u64),
                    hyst_end: Time((step_time(sw, now) + sw.hyst.0) as u64),
                }
            }
        },
        SwitchState::TOff { last_event } => SwitchState::Off {
            last_event: Time(step_time(sw, now) as u64),
        },
    }
}

/// An Energy-Efficient-Ethernet port: fixed transition timings, a FIFO
/// queue of not-yet-transmitted packets, and the current power state.
pub struct Switch {
    pub t_s: Time,
    pub t_w: Time,
    pub byte_time_ps: u64,
    pub hyst: Time,
    pub idle: Time,
    pub state: SwitchState,
    pub queue: Vec<Packet>,
}

/// The configuration of two switches is the same.
pub open spec fn same_config(a: Switch, b: Switch) -> bool {
    &&& a.t_s == b.t_s
    &&& a.t_w == b.t_w
    &&& a.byte_time_ps == b.byte_time_ps
    &&& a.hyst == b.hyst
    &&& a.idle == b.idle
}

/// What one call to `advance` needs: the queue must be non-empty unless the
/// port is sleeping down, and the step's time arithmetic must fit in the
/// time representation.
pub open spec fn advance_fits(s: Switch, now: Time) -> bool {
    &&& s.byte_time_ps <= u32::MAX
    &&& match s.state {
        SwitchState::Off { last_event } => {
            &&& s.queue@.len() > 0
            &&& s.queue@[0].arrival.0 + s.idle.0 <= u64::MAX
        },
        SwitchState::TOn { last_event } => {
            &&& s.queue@.len() > 0
            &&& last_event.0 + s.t_w.0 <= u64::MAX
        },
        SwitchState::On { last_event, hyst_end } => {
            &&& s.queue@.len() > 0
            &&& (s.queue@[0].arrival.0 <= now.0 ==> last_event.0 + spec_tx_time(
                s.byte_time_ps as int,
                s.queue@[0].size as int,
            ) + s.hyst.0 <= u64::MAX)
        },
        SwitchState::TOff { last_event } => last_event.0 + s.t_s.0 <= u64::MAX,
    }
}

/// Exactly what one call to `advance` does, state by state:
///
/// - off: jump to the wake-start time (head arrival plus idle delay, or the
///   state's last event, whichever is later) and begin waking up;
/// - waking up: the fixed wake duration elapses, then the port is on with
///   its stay-awake window starting empty;
/// - on, head packet still in the future: if the head arrives after the
///   stay-awake window ends, begin sleeping down at the window's end;
///   otherwise let the clock catch up to the head's arrival and stay on
///   (a synchronization event that changes no state tag);
/// - on, head packet eligible: pop it, charge its transmission time, and
///   extend the stay-awake window past the new time by the hysteresis;
/// - sleeping down: the fixed sleep duration elapses, then the port is off.
pub open spec fn advance_post(pre: Switch, now: Time, post: Switch, ev: SwitchEvent) -> bool {
    &&& same_config(pre, post)
    &&& match pre.state {
        SwitchState::Off { last_event } => {
            &&& ev.time.0 == later_of(pre.queue@[0].arrival.0 + pre.idle.0, last_event.0 as int)
            &&& post.state == (SwitchState::TOn { last_event: ev.time })
            &&& post.queue@ == pre.queue@
            &&& ev.packet is None
            &&& ev.state_change
        },
        SwitchState::TOn { last_event } => {
            &&& ev.time.0 == last_event.0 + pre.t_w.0
            &&& post.state == (SwitchState::On { last_event: ev.time, hyst_end: ev.time })
            &&& post.queue@ == pre.queue@
            &&& ev.packet is None
            &&& ev.state_change
        },
        SwitchState::On { last_event, hyst_end } => {
            if pre.queue@[0].arrival.0 > now.0 {
                if pre.queue@[0].arrival.0 > hyst_end.0 {
                    &&& ev.time == hyst_end
                    &&& post.state == (SwitchState::TOff { last_event: hyst_end })
                    &&& post.queue@ == pre.queue@
                    &&& ev.packet is None
                    &&& ev.state_change
                } else {
                    &&& ev.time == pre.queue@[0].arrival
                    &&& post.state == (SwitchState::On { last_event: ev.time, hyst_end })
                    &&& post.queue@ == pre.queue@
                    &&& ev.packet is None
                    &&& !ev.state_change
                }
            } else {
                &&& ev.time.0 == last_event.0 + spec_tx_time(
                    pre.byte_time_ps as int,
                    pre.queue@[0].size as int,
                )
                &&& (post.state matches SwitchState::On { last_event: le, hyst_end: he }
                    && le == ev.time && he.0 == ev.time.0 + pre.hyst.0)
                &&& post.queue@ == pre.queue@.drop_first()
                &&& ev.packet == Some(pre.queue@[0])
                &&& !ev.state_change
            }
        },
        SwitchState::TOff { last_event } => {
            &&& ev.time.0 == last_event.0 + pre.t_s.0
            &&& post.state == (SwitchState::Off { last_event: ev.time })
            &&& post.queue@ == pre.queue@
            &&& ev.packet is None
            &&& ev.state_change
        },
    }
}

impl Switch {
    /// A switch with the default transition times and link speed.
    pub fn new(hyst: Time, idle: Time) -> (s: Switch)
        ensures
            s.t_s.0 == T_S_DEFAULT,
            s.t_w.0 == T_W_DEFAULT,
            s.byte_time_ps == BYTE_TIME_PS_DEFAULT,
            s.hyst == hyst,
            s.idle == idle,
            s.state == (SwitchState::Off { last_event: Time(0) }),
            s.queue@.len() == 0,
    {
        Switch::new_explicit(hyst, idle, Time(T_S_DEFAULT), Time(T_W_DEFAULT), BYTE_TIME_PS_DEFAULT)
    }

    /// A switch with explicit sleep and wake transition times and per-byte
    /// transmission time (in picoseconds per byte).
    pub fn new_explicit(hyst: Time, idle: Time, ts: Time, tw: Time, byte_time_ps: u64) -> (s:
        Switch)
        requires
            byte_time_ps <= u32::MAX,
        ensures
            s.t_s == ts,
            s.t_w == tw,
            s.byte_time_ps == byte_time_ps,
            s.hyst == hyst,
            s.idle == idle,
            s.state == (SwitchState::Off { last_event: Time(0) }),
            s.queue@.len() == 0,
    {
        Switch {
            t_s: ts,
            t_w: tw,
            byte_time_ps,
            hyst,
            idle,
            state: SwitchState::Off { last_event: Time(0) },
            queue: Vec::new(),
        }
    }

    /// Time to serialize one packet onto the link.
    fn tx_time(&self, packet: &Packet) -> (r: Time)
        requires
            self.byte_time_ps <= u32::MAX,
        ensures
            r.0 == spec_tx_time(self.byte_time_ps as int, packet.size as int),
    {
        assert(packet.size as int * self.byte_time_ps as int <= u32::MAX as int
            * u32::MAX as int) by (nonlinear_arith)
            requires
                packet.size <= u32::MAX,
                self.byte_time_ps <= u32::MAX,
        ;
        let ps = packet.size as u64 * self.byte_time_ps;
        Time((ps + 500) / 1000)
    }

    /// Append a packet at the tail of the FIFO queue.
    pub fn add_packet(&mut self, packet: &Packet)
        ensures
            final(self).queue@ == old(self).queue@.push(*packet),
            final(self).state == old(self).state,
            same_config(*old(self), *final(self)),
    {
        self.queue.push(*packet);
    }

    /// True iff the queue holds no packet.
    pub fn is_empty(&self) -> (r: bool)
        ensures
            r == (self.queue@.len() == 0),
    {
        self.queue.len() == 0
    }

    /// The tag of the current power state.
    pub fn status(&self) -> (r: Status)
        ensures
            r == status_of(self.state),
    {
        match self.state {
            SwitchState::Off { .. } => Status::Off,
            SwitchState::TOn { .. } => Status::TOn,
            SwitchState::On { .. } => Status::On,
            SwitchState::TOff { .. } => Status::TOff,
        }
    }

    /// One step of the state machine: dispatch on the current state,
    /// install the state it leads to, and hand back the resulting event.
    pub fn advance(&mut self, now: Time) -> (ev: SwitchEvent)
        requires
            advance_fits(*old(self), now),
        ensures
            advance_post(*old(self), now, *final(self), ev),
            final(self).state == step_state(*old(self), now),
    {
        let st = self.state;
        match st {
            SwitchState::Off { last_event } => self.advance_off(now, last_event),
            SwitchState::TOn { last_event } => self.advance_t_on(now, last_event),
            SwitchState::On { last_event, hyst_end } => self.advance_on(now, last_event, hyst_end),
            SwitchState::TOff { last_event } => self.advance_t_off(now, last_event),
        }
    }

    /// Off with work pending: jump to the wake-start time and begin waking.
    fn advance_off(&mut self, now: Time, last_event: Time) -> (ev: SwitchEvent)
        requires
            advance_fits(*old(self), now),
            old(self).state == (SwitchState::Off { last_event }),
        ensures
            advance_post(*old(self), now, *final(self), ev),
    {
        let target = self.queue[0].arrival.0 + self.idle.0;
        let next_state = Time(
            if target >= last_event.0 {
                target
            } else {
                last_event.0
            },
        );
        self.state = SwitchState::TOn { last_event: next_state };
        SwitchEvent::new(next_state, None, true)
    }

    /// Waking up: the fixed wake duration elapses, then the port is on.
    fn advance_t_on(&mut self, now: Time, last_event: Time) -> (ev: SwitchEvent)
        requires
            advance_fits(*old(self), now),
            old(self).state == (SwitchState::TOn { last_event }),
        ensures
            advance_post(*old(self), now, *final(self), ev),
    {
        let next_state = Time(last_event.0 + self.t_w.0);
        self.state = SwitchState::On { last_event: next_state, hyst_end: next_state };
        SwitchEvent::new(next_state, None, true)
    }

    /// On: transmit the head packet if it has arrived; otherwise idle
    /// within the stay-awake window or begin sleeping past its end.
    fn advance_on(&mut self, now: Time, last_event: Time, hyst_end: Time) -> (ev: SwitchEvent)
        requires
            advance_fits(*old(self), now),
            old(self).state == (SwitchState::On { last_event, hyst_end }),
        ensures
            advance_post(*old(self), now, *final(self), ev),
    {
        let head = self.queue[0];
        if head.arrival.0 > now.0 {
            if head.arrival.0 > hyst_end.0 {
                self.state = SwitchState::TOff { last_event: hyst_end };
                SwitchEvent::new(hyst_end, None, true)
            } else {
                self.state = SwitchState::On { last_event: head.arrival, hyst_end };
                SwitchEvent::new(head.arrival, None, false)
            }
        } else {
            let packet = self.queue.remove(0);
            let tx = self.tx_time(&packet);
            let next_event = Time(last_event.0 + tx.0);
            let he = Time(next_event.0 + self.hyst.0);
            self.state = SwitchState::On { last_event: next_event, hyst_end: he };
            assert(self.queue@ =~= old(self).queue@.drop_first());
            SwitchEvent::new(next_event, Some(packet), false)
        }
    }

    /// Sleeping down: the fixed sleep duration elapses, then the port is
    /// off.
    fn advance_t_off(&mut self, now: Time, last_event: Time) -> (ev: SwitchEvent)
        requires
            advance_fits(*old(self), now),
            old(self).state == (SwitchState::TOff { last_event }),
        ensures
            advance_post(*old(self), now, *final(self), ev),
    {
        let next_state = Time(last_event.0 + self.t_s.0);
        self.state = SwitchState::Off { last_event: next_state };
        SwitchEvent::new(next_state, None, true)
    }
}

/// What one call to `advance` produced: the new simulated time, the packet
/// transmitted at that time if any, and whether the power state changed.
pub struct SwitchEvent {
    pub time: Time,
    pub packet: Option<Packet>,
    pub state_change: bool,
}

impl SwitchEvent {
    fn new(time: Time, packet: Option<Packet>, state_change: bool) -> (e: SwitchEvent)
        ensures
            e.time == time,
            e.packet == packet,
            e.state_change == state_change,
    {
        SwitchEvent { time, packet, state_change }
    }

    pub fn time(&self) -> (r: Time)
        ensures
            r == self.time,
    {
        self.time
    }

    pub fn packet(&self) -> (r: Option<Packet>)
        ensures
            r == self.packet,
    {
        self.packet
    }

    pub fn state_change(&self) -> (r: bool)
        ensures
            r == self.state_change,
    {
        self.state_change
    }
}

} // verus!
