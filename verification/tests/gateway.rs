use nexus::domain::SafetyState;
use nexus::gateway::{Gateway, GatewayError, GatewayState};

#[test]
fn gateway_retains_safety_when_central_connection_drops() {
    let mut gateway = Gateway::default();
    for _ in 0..4 {
        gateway.advance();
    }
    assert!(gateway.accept_new_operation().is_ok());
    gateway.central_connection_lost();
    assert_eq!(gateway.accept_new_operation(), Err(GatewayError::Offline));
    assert!(!gateway.drain_telemetry().is_empty());
    gateway.emergency_stop();
    assert_eq!(gateway.safety, SafetyState::EmergencyStop);
}

#[test]
fn gateway_reaches_ready_in_four_steps_and_refuses_before() {
    let mut gateway = Gateway::default();
    assert_eq!(gateway.state, GatewayState::Discovered);
    gateway.advance();
    assert_eq!(gateway.state, GatewayState::Connecting);
    assert!(gateway.accept_new_operation().is_err());
    gateway.advance();
    gateway.advance();
    gateway.advance();
    assert_eq!(gateway.state, GatewayState::Ready);
}

#[test]
fn emergency_stop_blocks_new_operations() {
    let mut gateway = Gateway::default();
    for _ in 0..4 {
        gateway.advance();
    }
    gateway.emergency_stop();
    assert!(gateway.accept_new_operation().is_err());
}

#[test]
fn telemetry_drains_in_order_once() {
    let mut gateway = Gateway::default();
    gateway.queue_telemetry("a");
    gateway.queue_telemetry("b");
    assert_eq!(gateway.drain_telemetry(), vec!["a".to_string(), "b".to_string()]);
    assert!(gateway.drain_telemetry().is_empty());
}
