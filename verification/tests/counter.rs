use vcs_core::signed::{byte_to_signed, nibble_to_signed, signed_to_byte};
use vcs_core::tia::counter::{hmove_value, Counter};

#[test]
fn test_clocking() {
    let mut ctr = Counter::new_counter(40, 0);

    assert_eq!(ctr.value(), 0);

    let mut clocked = ctr.clock();
    assert!(!clocked);
    assert_eq!(ctr.value(), 0);

    clocked = ctr.clock();
    assert!(!clocked);
    assert_eq!(ctr.value(), 0);

    clocked = ctr.clock();
    assert!(!clocked);
    assert_eq!(ctr.value(), 0);

    clocked = ctr.clock();
    assert!(clocked);
    assert_eq!(ctr.value(), 1);

    for i in 1..=152 {
        clocked = ctr.clock();

        if i % 4 == 0 {
            assert!(clocked);
        } else {
            assert!(!clocked);
        }
    }

    assert_eq!(ctr.value(), 39);

    ctr.clock();
    assert_eq!(ctr.value(), 39);
    ctr.clock();
    assert_eq!(ctr.value(), 39);
    ctr.clock();
    assert_eq!(ctr.value(), 39);
    let clocked = ctr.clock();

    assert!(clocked);
    assert_eq!(ctr.value(), 0);
}

#[test]
fn test_scanline_counting() {
    // The players, the missiles and the ball use a 40 clock counter, so they are back at 0
    // after a full scanline has been drawn.
    let mut ctr = Counter::new_counter(40, 0);

    assert_eq!(ctr.value(), 0);

    for _ in 0..160 {
        ctr.clock();
    }

    assert_eq!(ctr.value(), 0);
}

#[test]
fn clock_reports_a_change_on_every_fourth_call_only() {
    let mut ctr = Counter::new_counter(40, 0);
    for call in 1..=160u32 {
        let moved = ctr.clock();
        assert_eq!(moved, call % 4 == 0, "call {}", call);
        assert_eq!(u32::from(ctr.value()), (call / 4) % 40);
        assert_eq!(u32::from(ctr.internal_value), call % 160);
    }
    assert_eq!(ctr.value(), 0);
    assert_eq!(ctr.internal_value, 0);
}

#[test]
fn a_second_scanline_repeats_the_first() {
    let mut ctr = Counter::new_counter(40, 0);
    let mut first = Vec::new();
    for _ in 0..160 {
        first.push((ctr.clock(), ctr.value()));
    }
    let mut second = Vec::new();
    for _ in 0..160 {
        second.push((ctr.clock(), ctr.value()));
    }
    assert_eq!(first, second);
}

#[test]
fn a_period_of_160_positions_takes_640_clocks() {
    let mut ctr = Counter::new_counter(160, 0);
    let mut changes = 0;
    for call in 1..=640u32 {
        if ctr.clock() {
            changes += 1;
            assert_eq!(call % 4, 0);
        }
        if call == 639 {
            assert_eq!(ctr.value(), 159);
            assert_eq!(ctr.internal_value, 639);
        }
    }
    assert_eq!(changes, 160);
    assert_eq!(ctr.value(), 0);
}

#[test]
fn a_period_of_255_positions_wraps_at_1020_ticks() {
    let mut ctr = Counter::new_counter(255, 254);
    ctr.reset();
    assert_eq!(ctr.value(), 254);
    assert_eq!(ctr.internal_value, 1016);
    // No clock has reported position 254 yet, so the first one does.
    assert!(ctr.clock());
    assert!(!ctr.clock());
    assert!(!ctr.clock());
    assert_eq!(ctr.internal_value, 1019);
    assert!(ctr.clock());
    assert_eq!(ctr.internal_value, 0);
    assert_eq!(ctr.value(), 0);
}

#[test]
fn a_single_position_never_changes() {
    let mut ctr = Counter::new_counter(1, 0);
    for _ in 0..12 {
        assert!(!ctr.clock());
        assert_eq!(ctr.value(), 0);
    }
    assert_eq!(ctr.internal_value, 0);
}

#[test]
fn reset_goes_to_the_reset_position_from_anywhere() {
    for ticks in [0u32, 1, 3, 4, 77, 159, 160, 161] {
        let mut ctr = Counter::new_counter(40, 17);
        for _ in 0..ticks {
            ctr.clock();
        }
        ctr.reset();
        assert_eq!(ctr.value(), 17);
        assert_eq!(ctr.internal_value, 68);
    }
}

#[test]
fn reset_leaves_the_reported_position_alone() {
    let mut ctr = Counter::new_counter(40, 0);
    for _ in 0..4 {
        ctr.clock();
    }
    assert_eq!(ctr.value(), 1);
    // The last clock reported position 1; after the reset the counter is at
    // the last tick of position 0 again when three clocks have passed.
    ctr.reset();
    assert_eq!(ctr.value(), 0);
    assert!(ctr.clock());
    assert_eq!(ctr.value(), 0);
    assert!(!ctr.clock());
    assert!(!ctr.clock());
    assert!(ctr.clock());
    assert_eq!(ctr.value(), 1);
}

#[test]
fn reset_leaves_queued_motion_alone() {
    let mut ctr = Counter::new_counter(40, 3);
    ctr.start_hmove(0xd0);
    ctr.reset();
    assert!(ctr.apply_hmove());
    assert!(ctr.apply_hmove());
    assert!(!ctr.apply_hmove());
}

#[test]
fn set_value_then_value() {
    let mut ctr = Counter::new_counter(40, 0);
    ctr.set_value(5);
    assert_eq!(ctr.value(), 5);
    assert_eq!(ctr.internal_value, 20);
    for position in 0..40u8 {
        ctr.set_value(position);
        assert_eq!(ctr.value(), position);
    }
}

#[test]
fn set_value_starts_a_position() {
    let mut ctr = Counter::new_counter(40, 0);
    ctr.set_value(39);
    assert!(ctr.clock());
    assert!(!ctr.clock());
    assert!(!ctr.clock());
    assert_eq!(ctr.value(), 39);
    assert!(ctr.clock());
    assert_eq!(ctr.value(), 0);
}

#[test]
fn hmove_with_high_nibble_seven() {
    let mut ctr = Counter::new_counter(40, 0);
    ctr.start_hmove(0x70);
    for _ in 0..7 {
        assert!(ctr.apply_hmove());
    }
    // The motion -7 is queued as its byte pattern, 249 pulses: 248
    // applications say that more are left, 7 of them are behind us.
    let mut more_left = 7;
    while ctr.apply_hmove() {
        more_left += 1;
        assert!(more_left < 1000);
    }
    assert_eq!(more_left, 248);
    for _ in 0..10 {
        assert!(!ctr.apply_hmove());
    }
}

#[test]
fn hmove_with_zero_stops_at_once() {
    let mut ctr = Counter::new_counter(40, 0);
    ctr.start_hmove(0x00);
    assert!(!ctr.apply_hmove());
    assert!(!ctr.apply_hmove());
    ctr.start_hmove(0x0f);
    assert!(!ctr.apply_hmove());
}

#[test]
fn hmove_counts_one_less_than_the_pulses_queued() {
    let expected: [(u8, u32); 16] = [
        (0x00, 0),
        (0x10, 255),
        (0x20, 254),
        (0x30, 253),
        (0x40, 252),
        (0x50, 251),
        (0x60, 250),
        (0x70, 249),
        (0x80, 8),
        (0x90, 7),
        (0xa0, 6),
        (0xb0, 5),
        (0xc0, 4),
        (0xd0, 3),
        (0xe0, 2),
        (0xf0, 1),
    ];
    for (hm_val, pulses) in expected {
        let mut ctr = Counter::new_counter(40, 0);
        ctr.start_hmove(hm_val | 0x05);
        let mut trues = 0;
        while ctr.apply_hmove() {
            trues += 1;
            assert!(trues < 1000);
        }
        assert_eq!(trues, pulses.saturating_sub(1), "register value {:#04x}", hm_val);
        assert!(!ctr.apply_hmove());
    }
}

#[test]
fn hmove_does_not_touch_the_position() {
    let mut ctr = Counter::new_counter(40, 0);
    ctr.set_value(12);
    ctr.start_hmove(0xe0);
    assert!(ctr.apply_hmove());
    assert!(!ctr.apply_hmove());
    assert_eq!(ctr.value(), 12);
    assert_eq!(ctr.internal_value, 48);
}

#[test]
fn start_hmove_replaces_what_was_queued() {
    let mut ctr = Counter::new_counter(40, 0);
    ctr.start_hmove(0x80);
    assert!(ctr.apply_hmove());
    ctr.start_hmove(0xe0);
    assert!(ctr.apply_hmove());
    assert!(!ctr.apply_hmove());
}

#[test]
fn hmove_value_negates_the_high_nibble() {
    assert_eq!(hmove_value(0x00), 0);
    assert_eq!(hmove_value(0x10), -1);
    assert_eq!(hmove_value(0x20), -2);
    assert_eq!(hmove_value(0x30), -3);
    assert_eq!(hmove_value(0x40), -4);
    assert_eq!(hmove_value(0x50), -5);
    assert_eq!(hmove_value(0x60), -6);
    assert_eq!(hmove_value(0x70), -7);
    assert_eq!(hmove_value(0x80), 8);
    assert_eq!(hmove_value(0x90), 7);
    assert_eq!(hmove_value(0xa0), 6);
    assert_eq!(hmove_value(0xb0), 5);
    assert_eq!(hmove_value(0xc0), 4);
    assert_eq!(hmove_value(0xd0), 3);
    assert_eq!(hmove_value(0xe0), 2);
    assert_eq!(hmove_value(0xf0), 1);
}

#[test]
fn hmove_value_ignores_the_low_nibble() {
    for low in 0..16u8 {
        assert_eq!(hmove_value(low), 0);
        assert_eq!(hmove_value(0x70 | low), -7);
        assert_eq!(hmove_value(0x80 | low), 8);
    }
}

#[test]
fn hmove_value_agrees_with_signed_arithmetic_on_every_byte() {
    for v in 0..=255u8 {
        let expected = -1 * ((v & 0xf0) as i8 / 16);
        assert_eq!(hmove_value(v), expected);
    }
}

#[test]
fn byte_to_signed_is_twos_complement() {
    assert_eq!(byte_to_signed(0x00), 0);
    assert_eq!(byte_to_signed(0x01), 1);
    assert_eq!(byte_to_signed(0x7f), 127);
    assert_eq!(byte_to_signed(0x80), -128);
    assert_eq!(byte_to_signed(0xfe), -2);
    assert_eq!(byte_to_signed(0xff), -1);
    for b in 0..=255u8 {
        assert_eq!(byte_to_signed(b), b as i8);
    }
}

#[test]
fn signed_to_byte_is_the_bit_pattern() {
    assert_eq!(signed_to_byte(0), 0x00);
    assert_eq!(signed_to_byte(127), 0x7f);
    assert_eq!(signed_to_byte(-1), 0xff);
    assert_eq!(signed_to_byte(-7), 0xf9);
    assert_eq!(signed_to_byte(-128), 0x80);
    for b in 0..=255u8 {
        assert_eq!(signed_to_byte(byte_to_signed(b)), b);
    }
}

#[test]
fn nibble_to_signed_is_twos_complement() {
    let expected: [i8; 16] = [0, 1, 2, 3, 4, 5, 6, 7, -8, -7, -6, -5, -4, -3, -2, -1];
    for n in 0..16u8 {
        assert_eq!(nibble_to_signed(n), expected[n as usize]);
        assert_eq!(nibble_to_signed(0xa0 | n), expected[n as usize]);
    }
}
