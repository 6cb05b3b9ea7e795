use draco_bf6::overlay::hud_text::{hud_hash_line, hud_regime_label, hud_regime_line};
use draco_bf6::overlay::metrics_log::{p99_rank_index, MetricsLog};
use draco_bf6::overlay::watermark::AuthorizationStatus;

#[test]
fn test_metrics_tracker_regime_transition() {
    let mut log = MetricsLog::new();
    assert!(!log.push_regime_transition(100, 1));
    assert!(log.push_regime_transition(200, 3));
    assert!(!log.push_regime_transition(300, 3));
    assert_eq!(log.regime_transition_count(), 1);
    assert_eq!(log.current_regime(), 3);
}

#[test]
fn test_metrics_tracker_hash_tracking() {
    let mut log = MetricsLog::new();
    log.push_hash(10, 0xDEADBEEF);
    log.push_hash(11, 0xDEADBEEF);
    log.push_hash(12, 0xCAFEBABE);
    assert_eq!(log.current_hash(), 0xCAFEBABE);
}

#[test]
fn metrics_log_divergence_and_reset() {
    let mut log = MetricsLog::new();
    assert!(!log.push_hash(10, 0xDEADBEEF));
    assert!(!log.push_hash(11, 0xDEADBEEF));
    assert!(log.push_hash(12, 0xCAFEBABE));
    for f in 0..30 {
        log.push_hash(f, 7);
    }
    assert_eq!(log.current_hash(), 7);
    log.reset();
    assert_eq!(log.regime_transition_count(), 0);
    assert_eq!(log.current_hash(), 7);
    assert!(!log.push_hash(40, 8));
}

#[test]
fn hud_lines() {
    assert_eq!(hud_hash_line(0xDEADBEEF_CAFE_BABE), "H_session: 0xDEADBEEFCAFEBABE");
    assert_eq!(hud_hash_line(0xAB), "H_session: 0x00000000000000AB");
    assert_eq!(hud_hash_line(0xDEADBEEF_CAFE_BABE), format!("H_session: 0x{:016X}", 0xDEADBEEF_CAFE_BABEu64));
    assert_eq!(hud_regime_line(2), "Regime: 2/5 (High Fidelity)");
    assert_eq!(hud_regime_line(5), "Regime: 5/5 (Phase Shedding)");
    assert_eq!(hud_regime_line(17), "Regime: 17/5 (Unknown)");
    assert_eq!(hud_regime_label(1), "Full Fidelity");
    assert_eq!(hud_regime_label(3), "Balanced");
    assert_eq!(hud_regime_label(4), "Reduced");
    assert_eq!(hud_regime_label(0), "Unknown");
}

#[test]
fn authorization_labels() {
    assert_eq!(AuthorizationStatus::Pending.label(), "PENDING");
    assert_eq!(AuthorizationStatus::UnderReview.label(), "UNDER_REVIEW");
    assert_eq!(AuthorizationStatus::Approved.label(), "APPROVED");
    assert_eq!(AuthorizationStatus::Rejected.label(), "REJECTED");
}

#[test]
fn p99_rank_index_values() {
    assert_eq!(p99_rank_index(1), 0);
    assert_eq!(p99_rank_index(60), 59);
    assert_eq!(p99_rank_index(100), 99);
    assert_eq!(p99_rank_index(200), 198);
}
