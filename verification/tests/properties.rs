use eee_hyst::simulator::{Simulator, Time, TimeParseError};
use eee_hyst::stats::Stats;
use eee_hyst::switch::{Packet, Status, Switch};

fn setup(input: &[(u64, u32)], hyst: Time, idle: Time) -> Simulator {
    let packets: Vec<Packet> = input.iter().map(|entry| Packet::new(Time(entry.0), entry.1)).collect();

    Simulator::new(hyst, idle, packets)
}

#[test]
fn run_times_are_monotone() {
    let mut sim = setup(&[(100, 1000), (6000, 1001), (6100, 64), (20000, 1500)], Time(500), Time(250));
    let events = sim.run();

    assert!(!events.is_empty());
    for pair in events.windows(2) {
        assert!(pair[0].0 .0 <= pair[1].0 .0);
    }
}

#[test]
fn run_transmits_input_in_order_exactly_once() {
    let input = [(100, 1000), (6000, 1001), (6100, 64), (20000, 1500)];
    let mut sim = setup(&input, Time(500), Time(250));
    let events = sim.run();

    let transmitted: Vec<(u64, u32)> = events
        .iter()
        .filter_map(|ev| ev.1.map(|p| (p.arrival().0, p.size())))
        .collect();
    assert_eq!(transmitted, input.to_vec());
}

#[test]
fn single_packet_run_terminates_after_one_transmission() {
    let mut sim = setup(&[(100, 1000)], Time(0), Time(0));

    let mut transmissions = 0;
    let mut last_time = 0;
    while let Some((time, packet, _)) = sim.next() {
        if let Some(p) = packet {
            transmissions += 1;
            assert_eq!(time.0, 5380);
            assert_eq!(p.size(), 1000);
        }
        last_time = time.0;
    }
    assert_eq!(transmissions, 1);
    assert_eq!(last_time, 5380);
    // once exhausted, the sequence stays exhausted
    assert!(sim.next().is_none());
    assert!(sim.next().is_none());
}

#[test]
fn empty_input_yields_no_events() {
    let mut sim = Simulator::new(Time(0), Time(0), Vec::new());
    assert!(sim.next().is_none());
}

#[test]
fn stats_roundtrip_covers_whole_run() {
    let mut sim = setup(&[(100, 1000), (6000, 1001)], Time(0), Time(0));
    let events = sim.run();

    let mut stats = Stats::new();
    for ev in &events {
        if let (time, _, Some(status)) = ev {
            stats.update((*time, *status));
        }
    }
    // every status change up to the last one is accounted for
    assert_eq!(stats.get_total_time().0, 12740);
    let folded = stats.get(Status::Off).0
        + stats.get(Status::TOn).0
        + stats.get(Status::On).0
        + stats.get(Status::TOff).0;
    assert_eq!(folded, stats.get_total_time().0);

    // flushing the final event closes the accounting at the run's end
    let last = events.last().unwrap();
    stats.update((last.0, sim.switch.status()));
    let total = stats.get(Status::Off).0
        + stats.get(Status::TOn).0
        + stats.get(Status::On).0
        + stats.get(Status::TOff).0;
    assert_eq!(total, last.0 .0);
    assert_eq!(total, 13541);
}

#[test]
fn stats_per_status_dwell_times() {
    let mut sim = setup(&[(100, 1000), (6000, 1001)], Time(0), Time(0));
    let events = sim.run();

    let mut stats = Stats::new();
    for ev in &events {
        if let (time, _, Some(status)) = ev {
            stats.update((*time, *status));
        }
    }
    assert_eq!(stats.get(Status::Off).0, 100);
    assert_eq!(stats.get(Status::TOn).0, 8960);
    assert_eq!(stats.get(Status::On).0, 800);
    assert_eq!(stats.get(Status::TOff).0, 2880);
}

#[test]
fn status_names_are_stable() {
    assert_eq!(Status::Off.name(), "OFF");
    assert_eq!(Status::On.name(), "ON");
    assert_eq!(Status::TOff.name(), "T_OFF");
    assert_eq!(Status::TOn.name(), "T_ON");
}

#[test]
fn time_add_and_sub_are_exact() {
    assert_eq!(Time(100).add(Time(250)).0, 350);
    assert_eq!(Time(350).sub(Time(250)).0, 100);
    assert_eq!(Time(0).add(Time(0)).0, 0);
}

#[test]
fn transmission_time_rounds_to_nearest_nanosecond() {
    // at the default 10 Gb/s: 1000 B take 800 ns, 1001 B take 800.8 ns,
    // rounded to 801 ns
    let mut sim = setup(&[(0, 1001)], Time(0), Time(0));
    let events = sim.run();
    let tx: Vec<u64> = events.iter().filter(|ev| ev.1.is_some()).map(|ev| ev.0 .0).collect();
    assert_eq!(tx, vec![4480 + 801]);
}

#[test]
fn within_hysteresis_idle_event_changes_no_state() {
    // second packet arrives inside the stay-awake window: the port stays
    // on, emitting one synchronization event with no packet and no status
    let mut sim = setup(&[(100, 1000), (5500, 1001)], Time(500), Time(0));
    let events = sim.run();

    // wake at 100, on at 4580, first transmission at 5380, window to 5880;
    // the head arrived at 5500 <= 5880, so the clock catches up to 5500,
    // then the second transmission ends at 5500 + 801
    let sync = events.iter().find(|ev| ev.0 .0 == 5500).unwrap();
    assert!(sync.1.is_none());
    assert!(sync.2.is_none());
    let tx: Vec<u64> = events.iter().filter(|ev| ev.1.is_some()).map(|ev| ev.0 .0).collect();
    assert_eq!(tx, vec![5380, 6301]);
}

#[test]
fn switch_statuses_through_a_wake_cycle() {
    let mut switch = Switch::new(Time(0), Time(0));
    assert_eq!(switch.status(), Status::Off);
    assert!(switch.is_empty());

    switch.add_packet(&Packet::new(Time(100), 1000));
    assert!(!switch.is_empty());

    let ev = switch.advance(Time(0));
    assert_eq!(ev.time().0, 100);
    assert!(ev.packet().is_none());
    assert!(ev.state_change());
    assert_eq!(switch.status(), Status::TOn);

    let ev = switch.advance(Time(100));
    assert_eq!(ev.time().0, 4580);
    assert!(ev.packet().is_none());
    assert!(ev.state_change());
    assert_eq!(switch.status(), Status::On);

    let ev = switch.advance(Time(4580));
    assert_eq!(ev.time().0, 5380);
    assert_eq!(ev.packet().map(|p| p.size()), Some(1000));
    assert!(!ev.state_change());
    assert_eq!(switch.status(), Status::On);
    assert!(switch.is_empty());
}

#[test]
fn time_from_str_parses_decimal_nanoseconds() {
    assert_eq!(Time::from_str("12345"), Ok(Time(12345)));
    assert_eq!(Time::from_str("0"), Ok(Time(0)));
    assert_eq!(Time::from_str("007"), Ok(Time(7)));
    assert_eq!(Time::from_str("18446744073709551615"), Ok(Time(u64::MAX)));
}

#[test]
fn time_from_str_rejects_invalid_input() {
    assert_eq!(Time::from_str(""), Err(TimeParseError::InvalidFormat));
    assert_eq!(Time::from_str("12a"), Err(TimeParseError::InvalidFormat));
    assert_eq!(Time::from_str("-5"), Err(TimeParseError::InvalidFormat));
    assert_eq!(Time::from_str("1.5"), Err(TimeParseError::InvalidFormat));
    assert_eq!(Time::from_str(" 5"), Err(TimeParseError::InvalidFormat));
    assert_eq!(Time::from_str("18446744073709551616"), Err(TimeParseError::InvalidFormat));
}
