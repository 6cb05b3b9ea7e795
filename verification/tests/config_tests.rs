use draco_bf6::physics::fixed_point::QuantMode;
use draco_bf6::ObserverConfig;

#[test]
fn test_observer_config_defaults() {
    let config = ObserverConfig::default();
    assert_eq!(config.polling_interval_us, 8_333);
    assert_eq!(config.max_frame_budget_us, 30_700);
}

#[test]
fn observer_config_default_fields_and_clone() {
    let config = ObserverConfig::default();
    assert_eq!(config.shared_handle_name, "BF6_Destruction_Global_0");
    assert!(config.enable_overlay);
    assert_eq!(config.overlay_position, (10, 10));
    let copy = config.clone();
    assert_eq!(copy.shared_handle_name, config.shared_handle_name);
    assert_eq!(copy.overlay_position, config.overlay_position);
}

#[test]
fn quant_mode_descriptions() {
    assert_eq!(QuantMode::Q31.description(), "Q31 (high precision, normal destruction)");
    assert_eq!(QuantMode::Q16.description(), "Q16 (overflow handling)");
    assert_eq!(QuantMode::Q64_64.description(), "Q64.64 (extended range)");
}
