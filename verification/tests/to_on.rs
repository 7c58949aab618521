use eee_hyst::simulator::{Simulator, Time};
use eee_hyst::switch::Packet;

fn setup(input: &[(u64, u32)], hyst: Time, idle: Time) -> Simulator {
    let packets: Vec<Packet> = input.iter().map(|entry| Packet::new(Time(entry.0), entry.1)).collect();

    Simulator::new(hyst, idle, packets)
}

fn transmissions(sim: &mut Simulator) -> Vec<Packet> {
    let mut txd = Vec::new();

    while let Some(ev) = sim.next() {
        if let (time, Some(packet), _) = ev {
            txd.push(Packet::new(time, packet.size()));
        }
    }

    txd
}

fn compare(sim: &mut Simulator, expected: Vec<Packet>) -> Result<u32, (usize, Packet)> {
    for pair in transmissions(sim).into_iter().zip(expected.into_iter()).enumerate() {
        match pair {
            (_, (packet_sim, packet_res)) if packet_sim == packet_res => continue,
            (i, (packet_sim, _)) => return Err((i + 1, packet_sim)),
        }
    }

    Ok(0)
}

#[test]
fn from_off() {
    let input = vec![(100, 1000)];
    let expected = vec![Packet::new(Time(5380), 1000)];
    let mut sim = setup(&input, Time(0), Time(0));

    if let Err((i, packet)) = compare(&mut sim, expected) {
        panic!("{}th packets yielded {:?}", i, packet);
    }
}

#[test]
fn from_off_delay() {
    let input = vec![(100, 1000)];
    let expected = vec![Packet::new(Time(5880), 1000)];
    let mut sim = setup(&input, Time(0), Time(500));

    if let Err((i, packet)) = compare(&mut sim, expected) {
        panic!("{}th packets yielded {:?}", i, packet);
    }
}
