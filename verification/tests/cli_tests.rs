use kbd_backlight::monitors::IdleMonitor;
use kbd_backlight::rules::parse_time_of_day;

#[test]
fn test_time_parsing_valid() {
    let time = parse_time_of_day("09:30").unwrap();
    assert_eq!(time.hour, 9);
    assert_eq!(time.minute, 30);
}

#[test]
fn test_time_parsing_with_leading_zeros() {
    let time = parse_time_of_day("00:00").unwrap();
    assert_eq!(time.hour, 0);
    assert_eq!(time.minute, 0);
}

#[test]
fn test_time_parsing_invalid_format() {
    assert!(parse_time_of_day("09-30").is_err());
    assert!(parse_time_of_day("0930").is_err());
    assert!(parse_time_of_day("9:3:0").is_err());
    assert!(parse_time_of_day(":30").is_err());
    assert!(parse_time_of_day("9:").is_err());
    assert!(parse_time_of_day("").is_err());
    assert!(parse_time_of_day("a:b").is_err());
}

#[test]
fn test_time_validation_hour_boundary() {
    assert!(parse_time_of_day("23:00").is_ok());
    assert!(parse_time_of_day("24:00").is_err());
}

#[test]
fn test_time_validation_minute_boundary() {
    assert!(parse_time_of_day("00:59").is_ok());
    assert!(parse_time_of_day("00:60").is_err());
}

#[test]
fn test_idle_monitor_creation() {
    let monitor = IdleMonitor::new(10);
    assert_eq!(monitor.timeout_seconds, 10);
}

#[test]
fn test_idle_monitor_configurable_timeout() {
    let monitor1 = IdleMonitor::new(5);
    let monitor2 = IdleMonitor::new(30);
    let monitor3 = IdleMonitor::new(120);

    assert_eq!(monitor1.timeout_seconds, 5);
    assert_eq!(monitor2.timeout_seconds, 30);
    assert_eq!(monitor3.timeout_seconds, 120);
}

#[test]
fn test_idle_monitor_is_idle_comparison() {
    // With a 1000-second timeout, shorter idle samples are not idle and the
    // boundary sample is.
    let monitor = IdleMonitor::new(1000);
    assert!(!monitor.is_idle(0));
    assert!(!monitor.is_idle(999));
    assert!(monitor.is_idle(1000));
    assert!(monitor.is_idle(5000));
}

#[test]
fn test_idle_monitor_zero_timeout() {
    // With zero timeout, any idle time counts as idle.
    let monitor = IdleMonitor::new(0);
    assert!(monitor.is_idle(0));
    assert!(monitor.is_idle(1));
}
