use draco_bf6::physics::regime_fsm::{Regime, RegimeFsm};

#[test]
fn test_regime_from_u8() {
    assert_eq!(Regime::from_u8(1), Regime::One);
    assert_eq!(Regime::from_u8(5), Regime::Five);
    assert_eq!(Regime::from_u8(0), Regime::One); // Clamped low
    assert_eq!(Regime::from_u8(10), Regime::Five); // Clamped high
}

#[test]
fn test_regime_name() {
    assert_eq!(Regime::One.name(), "Regime 1 (Menu/Cutscene)");
    assert_eq!(Regime::Five.name(), "Regime 5 (Thermal)");
}

#[test]
fn test_fsm_initialization() {
    let fsm = RegimeFsm::new();
    assert_eq!(fsm.current(), Regime::One);
    assert_eq!(fsm.previous(), Regime::One);
}

#[test]
fn test_fsm_no_transition_at_low_occupancy() {
    let mut fsm = RegimeFsm::new();
    for frame in 0..10 {
        fsm.update(20, frame);
    }
    assert_eq!(fsm.current(), Regime::One);
}

#[test]
fn test_fsm_transition_up_with_hysteresis() {
    let mut fsm = RegimeFsm::new();
    for frame in 0..3 {
        fsm.update(90, frame);
    }
    assert_eq!(fsm.current(), Regime::One, "Should not transition after 3 frames");
    fsm.update(90, 3);
    assert_eq!(fsm.current(), Regime::Five, "Should transition to Regime 5 after 4 frames");
}

#[test]
fn test_fsm_transition_up_requires_4_frames() {
    let mut fsm = RegimeFsm::new();
    for frame in 0..4 {
        fsm.update(85, frame);
    }
    assert_eq!(fsm.current(), Regime::Five);
    assert_eq!(fsm.regime_change_frame(), 3);
}

#[test]
fn test_fsm_transition_down_with_hysteresis() {
    let mut fsm = RegimeFsm::new();
    for frame in 0..4 {
        fsm.update(85, frame);
    }
    assert_eq!(fsm.current(), Regime::Five);
    fsm.update(50, 4);
    assert_eq!(fsm.current(), Regime::Five, "Should not transition after 1 frame");
    fsm.update(50, 5);
    assert_eq!(fsm.current(), Regime::One, "Should transition to Regime 1 after 2 frames");
}

#[test]
fn test_fsm_hysteresis_asymmetry() {
    let mut fsm = RegimeFsm::new();
    for frame in 0..4 {
        fsm.update(85, frame);
    }
    assert_eq!(fsm.current(), Regime::Five);
    fsm.update(50, 4);
    fsm.update(50, 5);
    assert_eq!(fsm.current(), Regime::One, "Down transition should require only 2 frames");
}

#[test]
fn test_fsm_bouncing_occupancy_no_flicker() {
    let mut fsm = RegimeFsm::new();
    for frame in 0..4 {
        fsm.update(85, frame);
    }
    assert_eq!(fsm.current(), Regime::Five);
    fsm.update(70, 4);
    assert_eq!(fsm.current(), Regime::Five, "Should stay in Regime 5 after 1 frame low");
    fsm.update(85, 5);
    assert_eq!(fsm.current(), Regime::Five, "Should stay in Regime 5");
    fsm.update(85, 6);
    fsm.update(85, 7);
    assert_eq!(fsm.current(), Regime::Five, "Should remain stable in Regime 5");
}

#[test]
fn test_fsm_occupancy_history() {
    let mut fsm = RegimeFsm::new();
    fsm.update(10, 0);
    fsm.update(20, 1);
    fsm.update(30, 2);
    let history = fsm.occupancy_history();
    assert_eq!(history, vec![10, 20, 30]);
}

#[test]
fn test_fsm_regime_change_frame_tracking() {
    let mut fsm = RegimeFsm::new();
    assert_eq!(fsm.regime_change_frame(), 0);
    for frame in 0..4 {
        fsm.update(85, frame);
    }
    assert_eq!(fsm.regime_change_frame(), 3);
}

#[test]
fn test_fsm_previous_regime_tracking() {
    let mut fsm = RegimeFsm::new();
    assert_eq!(fsm.previous(), Regime::One);
    for frame in 0..4 {
        fsm.update(85, frame);
    }
    assert_eq!(fsm.previous(), Regime::One);
    assert_eq!(fsm.current(), Regime::Five);
}

#[test]
fn test_fsm_middle_zone_stability() {
    let mut fsm = RegimeFsm::new();
    for frame in 0..10 {
        fsm.update(70, frame);
    }
    assert_eq!(fsm.current(), Regime::One);
}

#[test]
fn test_fsm_diagnostic_state() {
    let mut fsm = RegimeFsm::new();
    for frame in 0..2 {
        fsm.update(85, frame);
    }
    let diag = fsm.diagnostic_state();
    assert!(diag.contains("Regime 1"));
    assert!(diag.contains("High: 2/4"));
}

#[test]
fn test_fsm_transition_valid_at_frame() {
    let mut fsm = RegimeFsm::new();
    for frame in 0..4 {
        fsm.update(85, frame);
    }
    assert!(fsm.is_transition_valid_at_frame(3));
    assert!(fsm.is_transition_valid_at_frame(4));
}

#[test]
fn test_fsm_long_session_stability() {
    let mut fsm = RegimeFsm::new();
    for frame in 0..100 {
        let occupancy = if frame < 20 {
            10
        } else if frame < 40 {
            50
        } else if frame < 60 {
            85
        } else {
            20
        };
        fsm.update(occupancy as u32, frame as u64);
    }
    assert_eq!(fsm.current(), Regime::One);
}

// ---------------------------------------------------------------------------
// Further cases of the library's own.
// ---------------------------------------------------------------------------

#[test]
fn fsm_to_u8_and_clamping_of_every_value() {
    for v in 0u8..=255 {
        let r = Regime::from_u8(v);
        let expected = if v < 1 { 1 } else if v > 5 { 5 } else { v };
        assert_eq!(r.to_u8(), expected);
    }
    assert_eq!(Regime::Two.name(), "Regime 2 (Light)");
    assert_eq!(Regime::Three.name(), "Regime 3 (Medium)");
    assert_eq!(Regime::Four.name(), "Regime 4 (Heavy)");
}

#[test]
fn fsm_diagnostic_state_exact_text() {
    let mut fsm = RegimeFsm::new();
    assert_eq!(
        fsm.diagnostic_state(),
        "Regime: Regime 1 (Menu/Cutscene) | High: 0/4 | Low: 0/2 | Avg Occupancy: 0.0"
    );
    fsm.update(85, 0);
    fsm.update(85, 1);
    assert_eq!(
        fsm.diagnostic_state(),
        "Regime: Regime 1 (Menu/Cutscene) | High: 2/4 | Low: 0/2 | Avg Occupancy: 85.0"
    );
}

#[test]
fn fsm_diagnostic_average_uses_last_five_and_rounds_half_to_even() {
    let mut fsm = RegimeFsm::new();
    // Middle-zone values keep the counters at zero.
    for (frame, occ) in [61u32, 61, 62, 62].iter().enumerate() {
        fsm.update(*occ, frame as u64);
    }
    // (61 + 61 + 62 + 62) / 4 = 61.5 exactly: one decimal, no tie.
    assert!(fsm.diagnostic_state().ends_with("Avg Occupancy: 61.5"));
    let mut fsm = RegimeFsm::new();
    for (frame, occ) in [61u32, 61, 61, 62].iter().enumerate() {
        fsm.update(*occ, frame as u64);
    }
    // 245 / 4 = 61.25, a tie at one decimal: rounds to the even digit.
    assert!(fsm.diagnostic_state().ends_with("Avg Occupancy: 61.2"));
    assert_eq!(format!("{:.1}", 245f32 / 4f32), "61.2");
    let mut fsm = RegimeFsm::new();
    for (frame, occ) in [70u32, 70, 70, 70, 70, 62, 63, 64, 65, 66, 67].iter().enumerate() {
        fsm.update(*occ, frame as u64);
    }
    // Last five: 63..=67, mean 65.0; history holds the last ten samples.
    assert!(fsm.diagnostic_state().ends_with("Avg Occupancy: 65.0"));
    assert_eq!(fsm.occupancy_history(), vec![70, 70, 70, 70, 62, 63, 64, 65, 66, 67]);
    let mut fsm = RegimeFsm::new();
    for (frame, occ) in [61u32, 62, 62].iter().enumerate() {
        fsm.update(*occ, frame as u64);
    }
    // 185 / 3 = 61.666..
    assert!(fsm.diagnostic_state().ends_with("Avg Occupancy: 61.7"));
}

#[test]
fn fsm_low_frame_resets_up_count() {
    let mut fsm = RegimeFsm::new();
    for frame in 0..3 {
        fsm.update(90, frame);
    }
    fsm.update(10, 3);
    for frame in 4..7 {
        fsm.update(90, frame);
    }
    assert_eq!(fsm.current(), Regime::One);
    fsm.update(90, 7);
    assert_eq!(fsm.current(), Regime::Five);
    assert_eq!(fsm.regime_change_frame(), 7);
}

#[test]
fn fsm_thresholds_are_inclusive() {
    let mut fsm = RegimeFsm::new();
    for frame in 0..4 {
        fsm.update(80, frame);
    }
    assert_eq!(fsm.current(), Regime::Five);
    fsm.update(60, 4);
    fsm.update(60, 5);
    assert_eq!(fsm.current(), Regime::One);
    assert_eq!(fsm.previous(), Regime::Five);
    assert_eq!(fsm.regime_change_frame(), 5);
    let mut fsm = RegimeFsm::new();
    for frame in 0..10 {
        fsm.update(79, frame);
    }
    assert_eq!(fsm.current(), Regime::One);
}

#[test]
fn fsm_transition_validity_before_change_frame() {
    let mut fsm = RegimeFsm::new();
    assert!(fsm.is_transition_valid_at_frame(0));
    for frame in 10..14 {
        fsm.update(85, frame);
    }
    assert_eq!(fsm.regime_change_frame(), 13);
    assert!(!fsm.is_transition_valid_at_frame(12));
    assert!(fsm.is_transition_valid_at_frame(13));
}

#[test]
fn fsm_default_is_new() {
    let fsm = RegimeFsm::default();
    assert_eq!(fsm.current(), Regime::One);
    assert!(fsm.occupancy_history().is_empty());
}

#[test]
fn fsm_middle_zone_frame_breaks_the_up_run() {
    let mut fsm = RegimeFsm::new();
    fsm.update(85, 0);
    fsm.update(85, 1);
    fsm.update(85, 2);
    assert_eq!(fsm.high_frames(), 3);
    fsm.update(70, 3);
    assert_eq!(fsm.high_frames(), 0);
    fsm.update(85, 4);
    assert_eq!(fsm.current(), Regime::One);
    fsm.update(85, 5);
    fsm.update(85, 6);
    fsm.update(85, 7);
    assert_eq!(fsm.current(), Regime::Five);
    assert_eq!(fsm.regime_change_frame(), 7);
}

#[test]
fn fsm_middle_zone_keeps_the_down_count() {
    let mut fsm = RegimeFsm::new();
    for frame in 0..4 {
        fsm.update(85, frame);
    }
    fsm.update(50, 4);
    assert_eq!(fsm.low_frames(), 1);
    fsm.update(70, 5);
    assert_eq!(fsm.low_frames(), 1);
    assert_eq!(fsm.current(), Regime::Five);
    fsm.update(50, 6);
    assert_eq!(fsm.current(), Regime::One);
}

#[test]
fn fsm_can_update_while_counters_are_small() {
    let mut fsm = RegimeFsm::new();
    assert!(fsm.can_update(10));
    assert!(fsm.can_update(85));
    for frame in 0..50 {
        assert!(fsm.can_update(10));
        fsm.update(10, frame);
    }
    assert_eq!(fsm.low_frames(), 50);
    assert_eq!(fsm.high_frames(), 0);
}
