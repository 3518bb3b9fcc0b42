use linear_cli::priority::priority_to_string;

#[test]
fn test_priority_none() {
    assert_eq!(priority_to_string(None), "-");
}

#[test]
fn test_priority_zero() {
    assert_eq!(priority_to_string(Some(0)), "-");
}

#[test]
fn test_priority_urgent() {
    let result = priority_to_string(Some(1));
    assert!(result.contains("Urgent"));
}

#[test]
fn test_priority_high() {
    let result = priority_to_string(Some(2));
    assert!(result.contains("High"));
}

#[test]
fn test_priority_normal() {
    assert_eq!(priority_to_string(Some(3)), "Normal");
}

#[test]
fn test_priority_low() {
    let result = priority_to_string(Some(4));
    assert!(result.contains("Low"));
}

#[test]
fn test_priority_invalid() {
    assert_eq!(priority_to_string(Some(5)), "-");
    assert_eq!(priority_to_string(Some(-1)), "-");
}
