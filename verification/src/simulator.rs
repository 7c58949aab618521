mod time;

pub use self::time::{
    all_decimal_digits, digit_val, digits_value, is_decimal_digit, valid_time_str, Time,
    TimeParseError,
};

use crate::switch::{
    advance_fits, advance_post, last_event_of, later_of, same_config, spec_tx_time, step_packet,
    step_state, step_time, Packet, Status, Switch, SwitchEvent, SwitchState,
    BYTE_TIME_PS_DEFAULT, T_S_DEFAULT, T_W_DEFAULT,
};
use vstd::prelude::*;

verus! {

/// The largest arrival time among a trace of packets (0 when it is empty).
pub open spec fn max_arrival(s: Seq<Packet>) -> int
    decreases s.len(),
{
    if s.len() == 0 {
        0
    } else {
        later_of(s[0].arrival.0 as int, max_arrival(s.drop_first()))
    }
}

/// The largest amount of simulated time the machine can spend on one
/// packet beyond the arrival-driven ceiling: its transmission time plus
/// one wake transition, one sleep transition and one hysteresis window.
pub open spec fn pkt_budget(byte_time_ps: int, tw: int, ts: int, hy: int, p: Packet) -> int {
    spec_tx_time(byte_time_ps, p.size as int) + tw + ts + hy
}

/// The summed budgets of a trace of packets.
pub open spec fn sum_budget(byte_time_ps: int, tw: int, ts: int, hy: int, s: Seq<Packet>) -> int
    decreases s.len(),
{
    if s.len() == 0 {
        0
    } else {
        pkt_budget(byte_time_ps, tw, ts, hy, s[0]) + sum_budget(
            byte_time_ps,
            tw,
            ts,
            hy,
            s.drop_first(),
        )
    }
}

/// Every simulated time of a run over `input` stays below this bound, so
/// the run's arithmetic fits in the time representation.
pub open spec fn sim_fits(
    input: Seq<Packet>,
    hyst: Time,
    idle: Time,
    ts: Time,
    tw: Time,
    byte_time_ps: u64,
) -> bool {
    max_arrival(input) + idle.0 + sum_budget(
        byte_time_ps as int,
        tw.0 as int,
        ts.0 as int,
        hyst.0 as int,
        input,
    ) + tw.0 + hyst.0 <= u64::MAX
}

/// Composes an arrival trace with a switch and drives the switch event by
/// event: packets are pulled from the trace one at a time (a one-packet
/// lookahead) and pushed into the switch's queue at the right moment.
pub struct Simulator {
    pub input: Vec<Packet>,
    pub next_idx: usize,
    pub switch: Switch,
    pub current_time: Time,
    pub next_packet: Option<Packet>,
}

impl Simulator {
    /// How many input packets have been transmitted so far: the pulled
    /// ones no longer waiting in the queue.
    pub open spec fn txd_count(self) -> int {
        self.next_idx - self.switch.queue@.len()
    }

    /// Largest arrival among the whole input, plus the idle delay: the
    /// ceiling of every arrival-driven jump of the clock.
    pub open spec fn arrival_cap(self) -> int {
        max_arrival(self.input@) + self.switch.idle.0
    }

    /// Summed budgets of the already-transmitted prefix of the input.
    pub open spec fn spent(self) -> int {
        sum_budget(
            self.switch.byte_time_ps as int,
            self.switch.t_w.0 as int,
            self.switch.t_s.0 as int,
            self.switch.hyst.0 as int,
            self.input@.subrange(0, self.txd_count()),
        )
    }

    /// The bound no simulated time of this run ever exceeds.
    pub open spec fn horizon(self) -> int {
        self.arrival_cap() + sum_budget(
            self.switch.byte_time_ps as int,
            self.switch.t_w.0 as int,
            self.switch.t_s.0 as int,
            self.switch.hyst.0 as int,
            self.input@,
        ) + self.switch.t_w.0 + self.switch.hyst.0
    }
}

/// The driver-loop invariant tying the switch to the input trace:
///
/// - the queue is exactly the pulled-but-untransmitted slice of the input,
///   in input order;
/// - the state's last event is the simulator's current time;
/// - the port only wakes towards the arrival of the queue's head, so that
///   by the time it is on, the head is eligible;
/// - the current time stays below the ceiling `arrival_cap + spent` plus a
///   state-dependent slack, which keeps all time arithmetic in bounds.
pub open spec fn wf_core(s: Simulator) -> bool {
    let t = s.txd_count();
    let cap = s.arrival_cap();
    let d = s.spent();
    let ts = s.switch.t_s.0 as int;
    let tw = s.switch.t_w.0 as int;
    let hy = s.switch.hyst.0 as int;
    &&& s.switch.byte_time_ps <= u32::MAX
    &&& s.next_idx <= s.input@.len()
    &&& s.switch.queue@.len() <= s.next_idx
    &&& s.switch.queue@ == s.input@.subrange(t, s.next_idx as int)
    &&& last_event_of(s.switch.state) == s.current_time.0
    &&& s.horizon() <= u64::MAX
    &&& match s.switch.state {
        SwitchState::Off { last_event } => s.current_time.0 <= cap + d,
        SwitchState::TOn { last_event } => {
            &&& s.current_time.0 <= cap + d
            &&& s.switch.queue@.len() > 0
            &&& s.switch.queue@[0].arrival.0 <= last_event.0
        },
        SwitchState::On { last_event, hyst_end } => {
            &&& last_event.0 <= hyst_end.0
            &&& {
                ||| {
                    // freshly awake: woken towards the head, nothing sent yet
                    &&& hyst_end == last_event
                    &&& s.switch.queue@.len() > 0
                    &&& s.switch.queue@[0].arrival.0 <= last_event.0
                    &&& s.current_time.0 <= cap + d + tw
                }
                ||| {
                    // at least one packet sent: its budget covers the exit
                    &&& hyst_end.0 <= last_event.0 + hy
                    &&& t >= 1
                    &&& s.current_time.0 + ts + hy <= cap + d
                }
            }
        },
        SwitchState::TOff { last_event } => s.current_time.0 + ts <= cap + d,
    }
}

/// The one-packet lookahead is the most recently pulled input packet, and
/// it still waits in the queue; once the input is exhausted the lookahead
/// is empty.
pub open spec fn look_inv(s: Simulator) -> bool {
    match s.next_packet {
        Some(p) => {
            &&& s.next_idx >= 1
            &&& p == s.input@[s.next_idx - 1]
            &&& s.switch.queue@.len() > 0
        },
        None => s.next_idx == s.input@.len(),
    }
}

/// Well-formed running simulator.
pub open spec fn wf_sim(s: Simulator) -> bool {
    &&& wf_core(s)
    &&& look_inv(s)
}

/// The status a step started from this switch state surfaces, if any.
pub open spec fn event_status(sw: Switch, now: Time) -> Option<Status> {
    match sw.state {
        SwitchState::Off { .. } => Some(Status::TOn),
        SwitchState::TOn { .. } => Some(Status::On),
        SwitchState::On { last_event, hyst_end } => {
            if sw.queue@[0].arrival.0 > now.0 {
                if sw.queue@[0].arrival.0 > hyst_end.0 {
                    Some(Status::TOff)
                } else {
                    None
                }
            } else {
                None
            }
        },
        SwitchState::TOff { .. } => Some(Status::Off),
    }
}

/// How one driver step moves the cursor, the lookahead and the queue:
/// after the switch step (which pops the head exactly when it transmits),
/// the next input packet is pulled into the queue and becomes the
/// lookahead precisely when a lookahead was held and the new time has
/// reached its arrival; once the input is exhausted the lookahead empties;
/// otherwise cursor and lookahead are untouched.
pub open spec fn step_pull(
    pre: Simulator,
    post: Simulator,
    ev: (Time, Option<Packet>, Option<Status>),
) -> bool {
    let qa = if step_packet(pre.switch, pre.current_time) is Some {
        pre.switch.queue@.drop_first()
    } else {
        pre.switch.queue@
    };
    match pre.next_packet {
        Some(p) => {
            if ev.0.0 >= p.arrival.0 {
                if pre.next_idx < pre.input@.len() {
                    &&& post.next_idx == pre.next_idx + 1
                    &&& post.next_packet == Some(pre.input@[pre.next_idx as int])
                    &&& post.switch.queue@ == qa.push(pre.input@[pre.next_idx as int])
                } else {
                    &&& post.next_idx == pre.next_idx
                    &&& post.next_packet is None
                    &&& post.switch.queue@ == qa
                }
            } else {
                &&& post.next_idx == pre.next_idx
                &&& post.next_packet == pre.next_packet
                &&& post.switch.queue@ == qa
            }
        },
        None => {
            &&& post.next_idx == pre.next_idx
            &&& post.next_packet == pre.next_packet
            &&& post.switch.queue@ == qa
        },
    }
}

/// How close the machine is to its next transmission: lowest when the head
/// is eligible, counting down through the wake cycle.
pub open spec fn rank_of(s: Simulator) -> int {
    match s.switch.state {
        SwitchState::On { last_event, .. } => {
            if s.switch.queue@.len() > 0 && s.switch.queue@[0].arrival.0 <= last_event.0 {
                1
            } else {
                5
            }
        },
        SwitchState::TOn { .. } => 2,
        SwitchState::Off { .. } => 3,
        SwitchState::TOff { .. } => 4,
    }
}

/// Termination measure of the driver loop: it strictly decreases with
/// every emitted event.
pub open spec fn measure_of(s: Simulator) -> int {
    6 * (s.input@.len() - s.txd_count()) + rank_of(s)
}

/// The packets of the `Some(packet)` events of a trace, in emission order.
pub open spec fn transmitted(evs: Seq<(Time, Option<Packet>, Option<Status>)>) -> Seq<Packet>
    decreases evs.len(),
{
    if evs.len() == 0 {
        Seq::empty()
    } else {
        let rest = transmitted(evs.drop_first());
        match evs[0].1 {
            Some(p) => seq![p] + rest,
            None => rest,
        }
    }
}

proof fn lemma_max_arrival_nonneg(s: Seq<Packet>)
    ensures
        max_arrival(s) >= 0,
    decreases s.len(),
{
    if s.len() > 0 {
        lemma_max_arrival_nonneg(s.drop_first());
    }
}

proof fn lemma_max_arrival_ge(s: Seq<Packet>, i: int)
    requires
        0 <= i < s.len(),
    ensures
        s[i].arrival.0 <= max_arrival(s),
    decreases s.len(),
{
    if i > 0 {
        lemma_max_arrival_ge(s.drop_first(), i - 1);
    } else {
        lemma_max_arrival_nonneg(s.drop_first());
    }
}

proof fn lemma_tx_time_nonneg(byte_time_ps: int, size: int)
    requires
        byte_time_ps >= 0,
        size >= 0,
    ensures
        spec_tx_time(byte_time_ps, size) >= 0,
{
    assert(size * byte_time_ps >= 0) by (nonlinear_arith)
        requires
            byte_time_ps >= 0,
            size >= 0,
    ;
}

proof fn lemma_sum_budget_nonneg(byte_time_ps: int, tw: int, ts: int, hy: int, s: Seq<Packet>)
    requires
        byte_time_ps >= 0,
        tw >= 0,
        ts >= 0,
        hy >= 0,
    ensures
        sum_budget(byte_time_ps, tw, ts, hy, s) >= 0,
    decreases s.len(),
{
    if s.len() > 0 {
        lemma_tx_time_nonneg(byte_time_ps, s[0].size as int);
        lemma_sum_budget_nonneg(byte_time_ps, tw, ts, hy, s.drop_first());
    }
}

/// Extending the summed prefix by one packet adds that packet's budget.
proof fn lemma_sum_budget_prefix(byte_time_ps: int, tw: int, ts: int, hy: int, s: Seq<Packet>, i: int)
    requires
        0 <= i < s.len(),
    ensures
        sum_budget(byte_time_ps, tw, ts, hy, s.subrange(0, i + 1)) == sum_budget(
            byte_time_ps,
            tw,
            ts,
            hy,
            s.subrange(0, i),
        ) + pkt_budget(byte_time_ps, tw, ts, hy, s[i]),
    decreases i,
{
    if i == 0 {
        assert(s.subrange(0, 0) =~= Seq::<Packet>::empty());
        assert(s.subrange(0, 1).drop_first() =~= Seq::<Packet>::empty());
        assert(s.subrange(0, 1)[0] == s[0]);
    } else {
        lemma_sum_budget_prefix(byte_time_ps, tw, ts, hy, s.drop_first(), i - 1);
        assert(s.subrange(0, i + 1).drop_first() =~= s.drop_first().subrange(0, i));
        assert(s.subrange(0, i).drop_first() =~= s.drop_first().subrange(0, i - 1));
        assert(s.subrange(0, i + 1)[0] == s[0]);
        assert(s.subrange(0, i)[0] == s[0]);
        assert(s.drop_first()[i - 1] == s[i]);
    }
}

/// A prefix never sums to more than the whole trace.
proof fn lemma_sum_budget_prefix_le(
    byte_time_ps: int,
    tw: int,
    ts: int,
    hy: int,
    s: Seq<Packet>,
    i: int,
)
    requires
        byte_time_ps >= 0,
        tw >= 0,
        ts >= 0,
        hy >= 0,
        0 <= i <= s.len(),
    ensures
        sum_budget(byte_time_ps, tw, ts, hy, s.subrange(0, i)) <= sum_budget(
            byte_time_ps,
            tw,
            ts,
            hy,
            s,
        ),
    decreases s.len() - i,
{
    if i == s.len() {
        assert(s.subrange(0, i) =~= s);
    } else {
        lemma_sum_budget_prefix(byte_time_ps, tw, ts, hy, s, i);
        lemma_tx_time_nonneg(byte_time_ps, s[i].size as int);
        lemma_sum_budget_prefix_le(byte_time_ps, tw, ts, hy, s, i + 1);
    }
}

/// A non-empty transmitted prefix covers at least one sleep transition and
/// one hysteresis window.
proof fn lemma_spent_covers_exit(s: Simulator)
    requires
        s.txd_count() >= 1,
        s.txd_count() <= s.input@.len(),
    ensures
        s.spent() >= s.switch.t_s.0 + s.switch.hyst.0,
{
    let bt = s.switch.byte_time_ps as int;
    let tw = s.switch.t_w.0 as int;
    let ts = s.switch.t_s.0 as int;
    let hy = s.switch.hyst.0 as int;
    let pre = s.input@.subrange(0, s.txd_count());
    assert(pre.len() >= 1);
    lemma_tx_time_nonneg(bt, pre[0].size as int);
    lemma_sum_budget_nonneg(bt, tw, ts, hy, pre.drop_first());
    assert(s.spent() == pkt_budget(bt, tw, ts, hy, pre[0]) + sum_budget(bt, tw, ts, hy, pre.drop_first()));
}

/// A well-formed simulator with a queued packet may always advance the
/// switch: its step arithmetic stays within the time representation.
proof fn lemma_advance_fits(s: Simulator)
    requires
        wf_core(s),
        s.switch.queue@.len() > 0,
    ensures
        advance_fits(s.switch, s.current_time),
{
    let bt = s.switch.byte_time_ps as int;
    let tw = s.switch.t_w.0 as int;
    let ts = s.switch.t_s.0 as int;
    let hy = s.switch.hyst.0 as int;
    let t = s.txd_count();
    assert(s.switch.queue@[0] == s.input@[t]);
    lemma_max_arrival_ge(s.input@, t);
    lemma_max_arrival_nonneg(s.input@);
    lemma_sum_budget_nonneg(bt, tw, ts, hy, s.input@);
    lemma_sum_budget_nonneg(bt, tw, ts, hy, s.input@.subrange(0, t));
    lemma_sum_budget_prefix_le(bt, tw, ts, hy, s.input@, t);
    lemma_sum_budget_prefix(bt, tw, ts, hy, s.input@, t);
    lemma_sum_budget_prefix_le(bt, tw, ts, hy, s.input@, t + 1);
    lemma_tx_time_nonneg(bt, s.input@[t].size as int);
}

/// One switch step out of a well-formed simulator preserves the driver
/// invariant and moves time and the transmitted count as the event says.
proof fn lemma_step_preserves(pre: Simulator, post: Simulator, ev: SwitchEvent)
    requires
        wf_core(pre),
        pre.switch.queue@.len() > 0,
        advance_post(pre.switch, pre.current_time, post.switch, ev),
        post.input == pre.input,
        post.next_idx == pre.next_idx,
        post.next_packet == pre.next_packet,
        post.current_time == ev.time,
    ensures
        wf_core(post),
        pre.current_time.0 <= ev.time.0,
        ev.packet matches Some(p) ==> post.txd_count() == pre.txd_count() + 1 && p
            == pre.input@[pre.txd_count()] && post.switch.queue@ == pre.switch.queue@.drop_first(),
        ev.packet is None ==> post.txd_count() == pre.txd_count() && post.switch.queue@
            == pre.switch.queue@,
{
    let bt = pre.switch.byte_time_ps as int;
    let tw = pre.switch.t_w.0 as int;
    let ts = pre.switch.t_s.0 as int;
    let hy = pre.switch.hyst.0 as int;
    let t = pre.txd_count();
    let idx = pre.next_idx as int;
    assert(pre.switch.queue@[0] == pre.input@[t]);
    lemma_max_arrival_ge(pre.input@, t);
    lemma_max_arrival_nonneg(pre.input@);
    lemma_sum_budget_nonneg(bt, tw, ts, hy, pre.input@);
    lemma_sum_budget_nonneg(bt, tw, ts, hy, pre.input@.subrange(0, t));
    lemma_sum_budget_prefix_le(bt, tw, ts, hy, pre.input@, t);
    lemma_sum_budget_prefix(bt, tw, ts, hy, pre.input@, t);
    lemma_sum_budget_prefix_le(bt, tw, ts, hy, pre.input@, t + 1);
    lemma_tx_time_nonneg(bt, pre.input@[t].size as int);
    match pre.switch.state {
        SwitchState::Off { last_event } => {
            assert(post.switch.queue@ == pre.switch.queue@);
            assert(post.txd_count() == t);
            assert(post.input@.subrange(post.txd_count(), post.next_idx as int)
                =~= pre.input@.subrange(t, idx));
        },
        SwitchState::TOn { last_event } => {
            assert(post.txd_count() == t);
            assert(post.input@.subrange(post.txd_count(), post.next_idx as int)
                =~= pre.input@.subrange(t, idx));
        },
        SwitchState::On { last_event, hyst_end } => {
            if pre.switch.queue@[0].arrival.0 > pre.current_time.0 {
                assert(post.txd_count() == t);
                assert(post.input@.subrange(post.txd_count(), post.next_idx as int)
                    =~= pre.input@.subrange(t, idx));
                if pre.switch.queue@[0].arrival.0 > hyst_end.0 {
                    // entering sleep: the port had transmitted in this
                    // on-period, whose budget covers the exit costs
                    assert(hyst_end.0 <= last_event.0 + hy);
                } else {
                    lemma_spent_covers_exit(pre);
                }
            } else {
                // transmission of the head packet
                assert(post.switch.queue@ =~= pre.input@.subrange(t + 1, idx));
                assert(post.txd_count() == t + 1);
                assert(post.spent() == pre.spent() + pkt_budget(bt, tw, ts, hy, pre.input@[t]));
            }
        },
        SwitchState::TOff { last_event } => {
            assert(post.txd_count() == t);
            assert(post.input@.subrange(post.txd_count(), post.next_idx as int)
                =~= pre.input@.subrange(t, idx));
        },
    }
}

impl Simulator {
    /// A simulator over `input` with a default-configuration switch.
    pub fn new(hyst: Time, idle: Time, input: Vec<Packet>) -> (s: Simulator)
        requires
            sim_fits(
                input@,
                hyst,
                idle,
                Time(T_S_DEFAULT),
                Time(T_W_DEFAULT),
                BYTE_TIME_PS_DEFAULT,
            ),
        ensures
            wf_sim(s),
            s.input == input,
            s.txd_count() == 0,
            s.current_time.0 == 0,
            s.switch.hyst == hyst,
            s.switch.idle == idle,
            s.switch.t_s.0 == T_S_DEFAULT,
            s.switch.t_w.0 == T_W_DEFAULT,
            s.switch.state == (SwitchState::Off { last_event: Time(0) }),
            input@.len() == 0 ==> s.next_idx == 0 && s.next_packet is None
                && s.switch.queue@ == Seq::<Packet>::empty(),
            input@.len() > 0 ==> s.next_idx == 1 && s.next_packet == Some(input@[0])
                && s.switch.queue@ == seq![input@[0]],
            s.switch.byte_time_ps == BYTE_TIME_PS_DEFAULT,
    {
        let switch = Switch::new(hyst, idle);
        Simulator::new_internal(input, switch)
    }

    /// A simulator over `input` with explicit switch timings.
    pub fn new_explicit(
        hyst: Time,
        idle: Time,
        input: Vec<Packet>,
        ts: Time,
        tw: Time,
        byte_time_ps: u64,
    ) -> (s: Simulator)
        requires
            byte_time_ps <= u32::MAX,
            sim_fits(input@, hyst, idle, ts, tw, byte_time_ps),
        ensures
            wf_sim(s),
            s.input == input,
            s.txd_count() == 0,
            s.current_time.0 == 0,
            s.switch.hyst == hyst,
            s.switch.idle == idle,
            s.switch.t_s == ts,
            s.switch.t_w == tw,
            s.switch.state == (SwitchState::Off { last_event: Time(0) }),
            input@.len() == 0 ==> s.next_idx == 0 && s.next_packet is None
                && s.switch.queue@ == Seq::<Packet>::empty(),
            input@.len() > 0 ==> s.next_idx == 1 && s.next_packet == Some(input@[0])
                && s.switch.queue@ == seq![input@[0]],
            s.switch.byte_time_ps == byte_time_ps,
    {
        let switch = Switch::new_explicit(hyst, idle, ts, tw, byte_time_ps);
        Simulator::new_internal(input, switch)
    }

    /// Prime the queue with the first packet, if any, so that the first
    /// `advance` call finds work.
    fn new_internal(input: Vec<Packet>, switch: Switch) -> (s: Simulator)
        requires
            switch.byte_time_ps <= u32::MAX,
            switch.state == (SwitchState::Off { last_event: Time(0) }),
            switch.queue@.len() == 0,
            sim_fits(input@, switch.hyst, switch.idle, switch.t_s, switch.t_w, switch.byte_time_ps),
        ensures
            wf_sim(s),
            s.input == input,
            s.txd_count() == 0,
            s.current_time.0 == 0,
            same_config(s.switch, switch),
            s.switch.state == (SwitchState::Off { last_event: Time(0) }),
            input@.len() == 0 ==> s.next_idx == 0 && s.next_packet is None
                && s.switch.queue@ == Seq::<Packet>::empty(),
            input@.len() > 0 ==> s.next_idx == 1 && s.next_packet == Some(input@[0])
                && s.switch.queue@ == seq![input@[0]],
    {
        let mut s = Simulator {
            input,
            next_idx: 0,
            switch,
            current_time: Time(0),
            next_packet: None,
        };
        proof {
            lemma_max_arrival_nonneg(s.input@);
            assert(s.input@.subrange(0, 0) =~= Seq::<Packet>::empty());
            assert(s.switch.queue@ =~= s.input@.subrange(0, 0));
        }
        if s.input.len() > 0 {
            let p = s.input[0];
            s.next_packet = Some(p);
            s.switch.add_packet(&p);
            s.next_idx = 1;
            proof {
                assert(s.switch.queue@ =~= s.input@.subrange(0, 1));
                assert(s.switch.queue@ =~= seq![s.input@[0]]);
                assert(s.input@.subrange(0, 0) =~= Seq::<Packet>::empty());
            }
        }
        s
    }

    /// One switch step: advance at the current time, adopt the event's
    /// time, and surface the new status when the power state changed.
    fn process(&mut self) -> (r: (Time, Option<Packet>, Option<Status>))
        requires
            wf_core(*old(self)),
            old(self).switch.queue@.len() > 0,
        ensures
            wf_core(*final(self)),
            final(self).input == old(self).input,
            final(self).next_idx == old(self).next_idx,
            final(self).next_packet == old(self).next_packet,
            same_config(old(self).switch, final(self).switch),
            advance_post(
                old(self).switch,
                old(self).current_time,
                final(self).switch,
                (SwitchEvent { time: r.0, packet: r.1, state_change: r.2 is Some }),
            ),
            r.0 == final(self).current_time,
            old(self).current_time.0 <= r.0.0,
            r.2 == event_status(old(self).switch, old(self).current_time),
            r.1 matches Some(p) ==> final(self).txd_count() == old(self).txd_count() + 1 && p
                == old(self).input@[old(self).txd_count()],
            r.1 is None ==> final(self).txd_count() == old(self).txd_count()
                && final(self).switch.queue@ == old(self).switch.queue@,
            final(self).switch.state == step_state(old(self).switch, old(self).current_time),
    {
        proof {
            lemma_advance_fits(*self);
        }
        let res = self.switch.advance(self.current_time);
        self.current_time = res.time();
        let status = if res.state_change() {
            Some(self.switch.status())
        } else {
            None
        };
        proof {
            let ghost gev = SwitchEvent {
                time: res.time,
                packet: res.packet,
                state_change: res.state_change,
            };
            lemma_step_preserves(*old(self), *self, gev);
        }
        (res.time(), res.packet(), status)
    }

    /// One step of the driver loop.
    ///
    /// Yields the next simulation event, or nothing once every input
    /// packet has been pulled and transmitted.  Each emitted event carries
    /// a time no earlier than the previous one, and carries the k-th input
    /// packet exactly when it is the k-th transmission.
    pub fn next(&mut self) -> (r: Option<(Time, Option<Packet>, Option<Status>)>)
        requires
            wf_sim(*old(self)),
        ensures
            wf_sim(*final(self)),
            final(self).input == old(self).input,
            same_config(old(self).switch, final(self).switch),
            match r {
                None => {
                    &&& *final(self) == *old(self)
                    &&& old(self).next_packet is None
                    &&& old(self).switch.queue@.len() == 0
                    &&& old(self).txd_count() == old(self).input@.len()
                },
                Some(ev) => {
                    &&& old(self).next_packet is Some || old(self).switch.queue@.len() > 0
                    &&& ev.0.0 == step_time(old(self).switch, old(self).current_time)
                    &&& ev.1 == step_packet(old(self).switch, old(self).current_time)
                    &&& ev.2 == event_status(old(self).switch, old(self).current_time)
                    &&& ev.0 == final(self).current_time
                    &&& old(self).current_time.0 <= ev.0.0
                    &&& ev.1 matches Some(p) ==> final(self).txd_count() == old(self).txd_count()
                        + 1 && p == old(self).input@[old(self).txd_count()]
                    &&& ev.1 is None ==> final(self).txd_count() == old(self).txd_count()
                    &&& final(self).switch.state == step_state(
                        old(self).switch,
                        old(self).current_time,
                    )
                    &&& step_pull(*old(self), *final(self), ev)
                    &&& measure_of(*final(self)) < measure_of(*old(self))
                },
            },
    {
        match self.next_packet {
            Some(packet) => {
                let arrival_time = packet.arrival();
                let res = self.process();
                if self.current_time.0 >= arrival_time.0 {
                    if self.next_idx < self.input.len() {
                        let q = self.input[self.next_idx];
                        self.switch.add_packet(&q);
                        self.next_idx = self.next_idx + 1;
                        self.next_packet = Some(q);
                        proof {
                            assert(self.switch.queue@ =~= self.input@.subrange(
                                self.txd_count(),
                                self.next_idx as int,
                            ));
                            assert(self.input@.subrange(0, self.txd_count()) =~= old(
                                self,
                            ).input@.subrange(0, self.txd_count()));
                        }
                    } else {
                        self.next_packet = None;
                    }
                } else {
                    proof {
                        // the lookahead is still queued: had it been the
                        // packet just transmitted, the clock would have
                        // reached its arrival
                        if self.switch.queue@.len() == 0 {
                            assert(res.1 matches Some(p) && p == packet);
                            assert(false);
                        }
                    }
                }
                Some(res)
            },
            None => {
                if self.switch.is_empty() {
                    None
                } else {
                    Some(self.process())
                }
            },
        }
    }

    /// Drive the simulation to completion and collect every emitted event.
    ///
    /// The contract states the run-level guarantees:
    /// - monotonicity: the emitted times are non-decreasing;
    /// - order preservation and completeness: the transmitted packets are
    ///   exactly the not-yet-transmitted part of the input, each exactly
    ///   once, in input order.
    pub fn run(&mut self) -> (events: Vec<(Time, Option<Packet>, Option<Status>)>)
        requires
            wf_sim(*old(self)),
        ensures
            wf_sim(*final(self)),
            forall|i: int, j: int|
                0 <= i <= j < events@.len() ==> (#[trigger] events@[i]).0.0 <= (
                #[trigger] events@[j]).0.0,
            transmitted(events@) == old(self).input@.subrange(
                old(self).txd_count(),
                old(self).input@.len() as int,
            ),
            final(self).txd_count() == final(self).input@.len(),
            final(self).input == old(self).input,
            events@.len() > 0 ==> old(self).current_time.0 <= events@[0].0.0,
    {
        let mut events: Vec<(Time, Option<Packet>, Option<Status>)> = Vec::new();
        let mut done = false;
        proof {
            assert(transmitted(events@) =~= self.input@.subrange(
                old(self).txd_count(),
                self.txd_count(),
            ));
        }
        while !done
            invariant
                wf_sim(*self),
                self.input == old(self).input,
                0 <= old(self).txd_count() <= self.txd_count() <= self.input@.len(),
                transmitted(events@) == self.input@.subrange(
                    old(self).txd_count(),
                    self.txd_count(),
                ),
                forall|i: int, j: int|
                    0 <= i <= j < events@.len() ==> (#[trigger] events@[i]).0.0 <= (
                    #[trigger] events@[j]).0.0,
                forall|k: int|
                    0 <= k < events@.len() ==> (#[trigger] events@[k]).0.0
                        <= self.current_time.0,
                events@.len() > 0 ==> old(self).current_time.0 <= events@[0].0.0,
                old(self).current_time.0 <= self.current_time.0,
                done ==> self.txd_count() == self.input@.len(),
            decreases run_measure(*self, done),
        {
            match self.next() {
                Some(ev) => {
                    proof {
                        lemma_transmitted_push(events@, ev);
                        if ev.1 is Some {
                            assert(self.input@.subrange(old(self).txd_count(), self.txd_count())
                                =~= self.input@.subrange(
                                old(self).txd_count(),
                                self.txd_count() - 1,
                            ).push(self.input@[self.txd_count() - 1]));
                            assert(transmitted(events@.push(ev)) =~= transmitted(events@).push(
                                self.input@[self.txd_count() - 1],
                            ));
                        } else {
                            assert(transmitted(events@.push(ev)) =~= transmitted(events@));
                        }
                    }
                    events.push(ev);
                },
                None => {
                    done = true;
                },
            }
        }
        events
    }
}

/// Measure of the driver loop: stops decreasing only once `done` is set.
pub open spec fn run_measure(s: Simulator, done: bool) -> int {
    measure_of(s) + if done {
        0int
    } else {
        1int
    }
}

/// Appending an event appends its packet, if it carries one, to the
/// transmitted sequence.
proof fn lemma_transmitted_push(
    evs: Seq<(Time, Option<Packet>, Option<Status>)>,
    e: (Time, Option<Packet>, Option<Status>),
)
    ensures
        transmitted(evs.push(e)) == transmitted(evs) + (match e.1 {
            Some(p) => seq![p],
            None => Seq::<Packet>::empty(),
        }),
    decreases evs.len(),
{
    if evs.len() == 0 {
        assert(evs.push(e).drop_first() =~= Seq::<(Time, Option<Packet>, Option<Status>)>::empty());
        assert(evs.push(e)[0] == e);
        assert(transmitted(Seq::<(Time, Option<Packet>, Option<Status>)>::empty()) =~= Seq::<
            Packet,
        >::empty());
        match e.1 {
            Some(p) => {
                assert(transmitted(evs.push(e)) =~= seq![p]);
                assert(transmitted(evs) + seq![p] =~= seq![p]);
            },
            None => {
                assert(transmitted(evs.push(e)) =~= Seq::<Packet>::empty());
                assert(transmitted(evs) + Seq::<Packet>::empty() =~= Seq::<Packet>::empty());
            },
        }
    } else {
        lemma_transmitted_push(evs.drop_first(), e);
        assert(evs.push(e).drop_first() =~= evs.drop_first().push(e));
        assert(evs.push(e)[0] == evs[0]);
        match evs[0].1 {
            Some(p) => {
                assert(transmitted(evs.push(e)) == seq![p] + transmitted(evs.drop_first().push(e)));
                match e.1 {
                    Some(q) => {
                        assert(seq![p] + (transmitted(evs.drop_first()) + seq![q]) =~= (seq![p]
                            + transmitted(evs.drop_first())) + seq![q]);
                    },
                    None => {
                        assert(seq![p] + (transmitted(evs.drop_first()) + Seq::<
                            Packet,
                        >::empty()) =~= (seq![p] + transmitted(evs.drop_first())) + Seq::<
                            Packet,
                        >::empty());
                    },
                }
            },
            None => {
            },
        }
    }
}

} // verus!
