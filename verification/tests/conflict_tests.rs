use edge_agent::conflict::{ConflictDetector, ConflictResult};

#[test]
fn test_no_conflict_single_script() {
    let mut detector = ConflictDetector::new();

    let result = detector.check_gpio_write("script1", 17, true);
    assert!(matches!(result, ConflictResult::NoConflict));

    // Same script can update same pin
    let result = detector.check_gpio_write("script1", 17, false);
    assert!(matches!(result, ConflictResult::NoConflict));
}

#[test]
fn test_conflict_different_scripts_different_values() {
    let mut detector = ConflictDetector::new();

    // Script1 sets pin 17 to HIGH
    let result = detector.check_gpio_write("script1", 17, true);
    assert!(matches!(result, ConflictResult::NoConflict));

    // Script2 tries to set pin 17 to LOW - CONFLICT!
    let result = detector.check_gpio_write("script2", 17, false);
    assert!(matches!(result, ConflictResult::Conflict { .. }));
}

#[test]
fn test_duplicate_same_value() {
    let mut detector = ConflictDetector::new();

    // Script1 sets pin 17 to HIGH
    detector.check_gpio_write("script1", 17, true);

    // Script2 also wants to set pin 17 to HIGH - duplicate, not conflict
    let result = detector.check_gpio_write("script2", 17, true);
    assert!(matches!(result, ConflictResult::Duplicate));
}

#[test]
fn test_modbus_conflict() {
    let mut detector = ConflictDetector::new();

    detector.check_modbus_write("script1", "PLC-1", 100, 1234);

    let result = detector.check_modbus_write("script2", "PLC-1", 100, 5678);
    assert!(matches!(result, ConflictResult::Conflict { .. }));
}

#[test]
fn test_reset_clears_state() {
    let mut detector = ConflictDetector::new();

    detector.check_gpio_write("script1", 17, true);
    detector.reset();

    // After reset, no conflict should exist
    let result = detector.check_gpio_write("script2", 17, false);
    assert!(matches!(result, ConflictResult::NoConflict));
}

#[test]
fn test_conflict_message_wording() {
    let mut detector = ConflictDetector::new();
    detector.check_gpio_write("a", 7, true);
    let result = detector.check_gpio_write("b", 7, false);
    match result {
        ConflictResult::Conflict { message } => {
            assert_eq!(
                message,
                "GPIO CONFLICT: Pin 7 - Script 'b' wants LOW, but 'a' already set HIGH"
            );
        }
        _ => panic!("expected a conflict"),
    }
}

#[test]
fn test_coil_conflict_and_duplicate() {
    let mut detector = ConflictDetector::new();
    let r = detector.check_coil_write("a", "plc", 3, true);
    assert!(matches!(r, ConflictResult::NoConflict));
    let r = detector.check_coil_write("b", "plc", 3, true);
    assert!(matches!(r, ConflictResult::Duplicate));
    let r = detector.check_coil_write("b", "plc", 3, false);
    assert!(matches!(r, ConflictResult::Conflict { .. }));
}

#[test]
fn test_pending_summary_wording() {
    let mut detector = ConflictDetector::new();
    detector.check_gpio_write("a", 1, true);
    detector.check_gpio_write("a", 2, true);
    detector.check_modbus_write("a", "plc", 10, 42);
    assert_eq!(
        detector.get_pending_summary(),
        "Pending writes: 2 GPIO, 1 Modbus registers, 0 coils"
    );
}
