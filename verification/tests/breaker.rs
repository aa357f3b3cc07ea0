use silex_ingress::breaker::CircuitBreaker;
use silex_ingress::tables::BackendAddr;

fn v4(a: u8, b: u8, c: u8, d: u8, port: u16) -> BackendAddr {
    BackendAddr::V4 { octets: u32::from_be_bytes([a, b, c, d]), port }
}

#[test]
fn unregistered_backend_is_not_healthy() {
    let cb = CircuitBreaker::new();
    assert!(!cb.is_healthy(&v4(127, 0, 0, 1, 8080)));
}

#[test]
fn registered_backend_is_healthy() {
    let mut cb = CircuitBreaker::new();
    cb.register(v4(127, 0, 0, 1, 8080));
    assert!(cb.is_healthy(&v4(127, 0, 0, 1, 8080)));
    assert!(!cb.is_healthy(&v4(127, 0, 0, 1, 8081)));
}

#[test]
fn quarantine_marks_unhealthy_and_register_restores() {
    let mut cb = CircuitBreaker::new();
    let a = v4(10, 0, 0, 1, 80);
    cb.register(a);
    cb.quarantine(&a);
    assert!(!cb.is_healthy(&a));
    cb.register(a);
    assert!(cb.is_healthy(&a));
}

#[test]
fn quarantine_of_unknown_backend_registers_nothing() {
    let mut cb = CircuitBreaker::new();
    let a = v4(10, 0, 0, 1, 80);
    cb.quarantine(&a);
    assert!(cb.monitored_backends().is_empty());
    cb.record_probe(&a, 0, true);
    assert!(!cb.is_healthy(&a));
}

#[test]
fn probes_set_health() {
    let mut cb = CircuitBreaker::new();
    let a = v4(10, 0, 0, 1, 80);
    let b = BackendAddr::V6 { segments: 1, port: 443, flowinfo: 0, scope_id: 0 };
    cb.register(a);
    cb.register(b);
    let ga = generation_of(&cb, a);
    cb.record_probe(&a, ga, false);
    assert!(!cb.is_healthy(&a));
    assert!(cb.is_healthy(&b));
    cb.record_probe(&a, ga, true);
    assert!(cb.is_healthy(&a));
}

fn generation_of(cb: &CircuitBreaker, addr: BackendAddr) -> u64 {
    cb.monitored_backends().into_iter().find(|(x, _)| *x == addr).unwrap().1
}

#[test]
fn probe_of_an_earlier_registration_is_ignored() {
    let mut cb = CircuitBreaker::new();
    let a = v4(10, 0, 0, 1, 80);
    cb.register(a);
    let stale = generation_of(&cb, a);
    cb.register(a);
    let current = generation_of(&cb, a);
    assert_ne!(stale, current);
    cb.record_probe(&a, stale, false);
    assert!(cb.is_healthy(&a));
    cb.record_probe(&a, current, false);
    assert!(!cb.is_healthy(&a));
}

#[test]
fn quarantine_keeps_the_registration() {
    let mut cb = CircuitBreaker::new();
    let a = v4(10, 0, 0, 1, 80);
    cb.register(a);
    let g = generation_of(&cb, a);
    cb.quarantine(&a);
    assert_eq!(generation_of(&cb, a), g);
    cb.record_probe(&a, g, true);
    assert!(cb.is_healthy(&a));
}

#[test]
fn monitored_backends_lists_each_once() {
    let mut cb = CircuitBreaker::new();
    let a = v4(10, 0, 0, 1, 80);
    let b = v4(10, 0, 0, 2, 80);
    cb.register(a);
    cb.register(b);
    cb.register(a);
    let mut got: Vec<BackendAddr> = cb.monitored_backends().into_iter().map(|(x, _)| x).collect();
    got.sort_by_key(|x| format!("{:?}", x));
    let mut want = vec![a, b];
    want.sort_by_key(|x| format!("{:?}", x));
    assert_eq!(got, want);
}

#[test]
fn v4_and_v6_addresses_differ() {
    let mut cb = CircuitBreaker::new();
    cb.register(v4(0, 0, 0, 1, 80));
    assert!(!cb.is_healthy(&BackendAddr::V6 { segments: 1, port: 80, flowinfo: 0, scope_id: 0 }));
}
