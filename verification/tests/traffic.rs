use nexlink_lib::traffic::{wrapping_add_u64, TrafficCounter};

#[test]
fn counters_count_and_wrap() {
    let mut c = TrafficCounter::new();
    c.add_sent(10);
    c.add_received(5);
    c.add(7, true);
    c.add(3, false);
    c.inc_connections();
    c.inc_connections();
    c.dec_connections();
    let s = c.snapshot();
    assert_eq!((s.bytes_sent, s.bytes_received, s.active_connections), (17, 8, 1));
    c.add_sent(u64::MAX);
    assert_eq!(c.snapshot().bytes_sent, 16);
    let mut d = TrafficCounter::default();
    d.dec_connections();
    assert_eq!(d.snapshot().active_connections, u32::MAX);
    assert_eq!(wrapping_add_u64(u64::MAX, 2), 1);
}
