use json_rpc_snoop::chaos::{classify_draw, ChaosGate};
use json_rpc_snoop::packet::PacketType;
use rand::rngs::StdRng;
use rand::SeedableRng;

#[test]
fn zero_rate_never_drops() {
    for seed in 0..20u64 {
        let mut gate = ChaosGate::new(StdRng::seed_from_u64(seed), 0, 0, 12000);
        for _ in 0..50 {
            assert_eq!(gate.get_random_packet_type(PacketType::Request), PacketType::Request);
            assert_eq!(gate.get_random_packet_type(PacketType::Response), PacketType::Response);
        }
    }
}

#[test]
fn zero_rate_takes_no_draw() {
    let mut a = ChaosGate::new(StdRng::seed_from_u64(7), 0, 50, 1);
    let mut b = ChaosGate::new(StdRng::seed_from_u64(7), 0, 50, 1);
    for _ in 0..10 {
        a.get_random_packet_type(PacketType::Request);
    }
    for _ in 0..30 {
        assert_eq!(
            a.get_random_packet_type(PacketType::Response),
            b.get_random_packet_type(PacketType::Response)
        );
    }
}

#[test]
fn full_rate_always_drops() {
    let mut gate = ChaosGate::new(StdRng::seed_from_u64(3), 100, 100, 12000);
    for _ in 0..50 {
        assert_eq!(gate.get_random_packet_type(PacketType::Request), PacketType::RequestDropped(12000));
        assert_eq!(gate.get_random_packet_type(PacketType::Response), PacketType::ResponseDropped(12000));
    }
}

#[test]
fn half_rate_drops_some() {
    let mut gate = ChaosGate::new(StdRng::seed_from_u64(11), 50, 50, 5);
    let dropped = (0..1000)
        .filter(|_| gate.get_random_packet_type(PacketType::Request) == PacketType::RequestDropped(5))
        .count();
    assert!(dropped > 350 && dropped < 650);
}

#[test]
fn draw_thresholds() {
    assert_eq!(classify_draw(PacketType::Request, 50, 0, 9), PacketType::RequestDropped(9));
    assert_eq!(classify_draw(PacketType::Request, 50, 2147483647, 9), PacketType::RequestDropped(9));
    assert_eq!(classify_draw(PacketType::Request, 50, 2147483648, 9), PacketType::RequestDropped(9));
    assert_eq!(classify_draw(PacketType::Request, 50, 2147483649, 9), PacketType::Request);
    assert_eq!(classify_draw(PacketType::ResponseDropped(1), 1, 0, 9), PacketType::ResponseDropped(9));
    assert_eq!(classify_draw(PacketType::Response, 0, 1, 9), PacketType::Response);
    assert_eq!(classify_draw(PacketType::Response, 100, u32::MAX, 9), PacketType::ResponseDropped(9));
}
