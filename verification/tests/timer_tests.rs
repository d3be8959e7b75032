use chip8_vm::constants::TIMER_DURATION_NANO;
use chip8_vm::timer::Timer;

#[test]
fn timer_scaled_round_trip() {
    for v in [0u8, 1, 8, 59, 60, 255] {
        let mut t = Timer::new();
        t.set_scaled(v);
        assert_eq!(t.get_scaled(), v);
    }
}

#[test]
fn timer_raw_access() {
    let mut t = Timer::new();
    assert_eq!(t.get(), 0);

    t.set_scaled(2);
    assert_eq!(t.get(), 2 * TIMER_DURATION_NANO);

    let raw = t.get_mut();
    *raw = TIMER_DURATION_NANO;
    assert_eq!(t.get_scaled(), 1);
}
