use kbd_backlight::config::{Config, LocationProfile, TimeSchedule};
use kbd_backlight::rules::{BrightnessDecision, RuleEngine, SystemContext, TimeOfDay};

fn create_test_config() -> Config {
    Config {
        profiles: vec![LocationProfile {
            name: "test".to_string(),
            idle_timeout: 10,
            time_schedules: vec![
                TimeSchedule { hour: 9, minute: 0, brightness: 2 },
                TimeSchedule { hour: 14, minute: 30, brightness: 3 },
                TimeSchedule { hour: 22, minute: 0, brightness: 1 },
            ],
            video_detection_enabled: true,
            wifi_networks: vec![],
            ac_always_on: false,
        }],
        active_profile: "test".to_string(),
        auto_switch_location: false,
    }
}

fn create_context(is_idle: bool, is_fullscreen: bool, hour: u8, minute: u8) -> SystemContext {
    SystemContext {
        is_idle,
        is_fullscreen,
        current_time: TimeOfDay { hour, minute },
        previous_brightness: 2,
    }
}

#[test]
fn test_manual_override_highest_priority() {
    let config = create_test_config();
    let mut engine = RuleEngine::new(config);
    engine.set_manual_override(Some(3));

    // Manual override should take precedence over everything
    let context = create_context(true, true, 10, 0);
    let decision = engine.evaluate(&context);
    assert_eq!(decision, BrightnessDecision::SetBrightness(3));
}

#[test]
fn test_fullscreen_priority() {
    let config = create_test_config();
    let engine = RuleEngine::new(config);

    // Fullscreen should set brightness to 0
    let context = create_context(false, true, 10, 0);
    let decision = engine.evaluate(&context);
    assert_eq!(decision, BrightnessDecision::SetBrightness(0));
}

#[test]
fn test_idle_priority() {
    let config = create_test_config();
    let engine = RuleEngine::new(config);

    // Idle should set brightness to 0
    let context = create_context(true, false, 10, 0);
    let decision = engine.evaluate(&context);
    assert_eq!(decision, BrightnessDecision::SetBrightness(0));
}

#[test]
fn test_time_schedule_rule() {
    let config = create_test_config();
    let engine = RuleEngine::new(config);

    // At 10:00, should use the 9:00 rule (brightness 2)
    let context = create_context(false, false, 10, 0);
    let decision = engine.evaluate(&context);
    assert_eq!(decision, BrightnessDecision::SetBrightness(2));

    // At 15:00, should use the 14:30 rule (brightness 3)
    let context = create_context(false, false, 15, 0);
    let decision = engine.evaluate(&context);
    assert_eq!(decision, BrightnessDecision::SetBrightness(3));

    // At 23:00, should use the 22:00 rule (brightness 1)
    let context = create_context(false, false, 23, 0);
    let decision = engine.evaluate(&context);
    assert_eq!(decision, BrightnessDecision::SetBrightness(1));
}

#[test]
fn test_most_recent_time_rule() {
    let config = create_test_config();
    let engine = RuleEngine::new(config);

    // At 14:30 exactly, should use the 14:30 rule (brightness 3)
    let context = create_context(false, false, 14, 30);
    let decision = engine.evaluate(&context);
    assert_eq!(decision, BrightnessDecision::SetBrightness(3));

    // At 14:29, should use the 9:00 rule (brightness 2)
    let context = create_context(false, false, 14, 29);
    let decision = engine.evaluate(&context);
    assert_eq!(decision, BrightnessDecision::SetBrightness(2));
}

#[test]
fn test_no_applicable_time_rule() {
    let config = create_test_config();
    let engine = RuleEngine::new(config);

    // At 8:00 (before any schedule), should use default (0)
    let context = create_context(false, false, 8, 0);
    let decision = engine.evaluate(&context);
    assert_eq!(decision, BrightnessDecision::SetBrightness(0));
}

#[test]
fn test_rule_priority_order() {
    let config = create_test_config();
    let mut engine = RuleEngine::new(config);

    // Test that manual override beats fullscreen
    engine.set_manual_override(Some(2));
    let context = create_context(false, true, 10, 0);
    let decision = engine.evaluate(&context);
    assert_eq!(decision, BrightnessDecision::SetBrightness(2));

    // Clear manual override, fullscreen should now apply
    engine.set_manual_override(None);
    let decision = engine.evaluate(&context);
    assert_eq!(decision, BrightnessDecision::SetBrightness(0));

    // Test that fullscreen beats idle
    let context = create_context(true, true, 10, 0);
    let decision = engine.evaluate(&context);
    assert_eq!(decision, BrightnessDecision::SetBrightness(0));

    // Test that idle beats time schedule
    let context = create_context(true, false, 10, 0);
    let decision = engine.evaluate(&context);
    assert_eq!(decision, BrightnessDecision::SetBrightness(0));
}

#[test]
fn test_set_manual_override() {
    let config = create_test_config();
    let mut engine = RuleEngine::new(config);

    // Set manual override
    engine.set_manual_override(Some(3));
    let context = create_context(false, false, 10, 0);
    let decision = engine.evaluate(&context);
    assert_eq!(decision, BrightnessDecision::SetBrightness(3));

    // Clear manual override
    engine.set_manual_override(None);
    let decision = engine.evaluate(&context);
    assert_eq!(decision, BrightnessDecision::SetBrightness(2));
}

#[test]
fn test_empty_time_schedules() {
    let config = Config {
        profiles: vec![LocationProfile {
            name: "empty".to_string(),
            idle_timeout: 10,
            time_schedules: vec![],
            video_detection_enabled: true,
            wifi_networks: vec![],
            ac_always_on: false,
        }],
        active_profile: "empty".to_string(),
        auto_switch_location: false,
    };

    let engine = RuleEngine::new(config);
    let context = create_context(false, false, 10, 0);
    let decision = engine.evaluate(&context);
    assert_eq!(decision, BrightnessDecision::SetBrightness(0));
}

#[test]
fn test_profile_specific_rules() {
    let profiles = vec![
        LocationProfile {
            name: "home".to_string(),
            idle_timeout: 10,
            time_schedules: vec![TimeSchedule { hour: 9, minute: 0, brightness: 2 }],
            video_detection_enabled: true,
            wifi_networks: vec![],
            ac_always_on: false,
        },
        LocationProfile {
            name: "office".to_string(),
            idle_timeout: 5,
            time_schedules: vec![TimeSchedule { hour: 9, minute: 0, brightness: 3 }],
            video_detection_enabled: true,
            wifi_networks: vec![],
            ac_always_on: false,
        },
    ];

    let config = Config {
        profiles,
        active_profile: "home".to_string(),
        auto_switch_location: false,
    };

    let mut engine = RuleEngine::new(config);

    // At 10:00 with home profile, should get brightness 2
    let context = create_context(false, false, 10, 0);
    let decision = engine.evaluate(&context);
    assert_eq!(decision, BrightnessDecision::SetBrightness(2));

    // Switch to office profile
    engine.config.active_profile = "office".to_string();

    // At 10:00 with office profile, should get brightness 3
    let context = create_context(false, false, 10, 0);
    let decision = engine.evaluate(&context);
    assert_eq!(decision, BrightnessDecision::SetBrightness(3));
}

#[test]
fn test_multiple_independent_profiles() {
    let profiles = vec![
        LocationProfile {
            name: "home".to_string(),
            idle_timeout: 10,
            time_schedules: vec![TimeSchedule { hour: 9, minute: 0, brightness: 1 }],
            video_detection_enabled: true,
            wifi_networks: vec![],
            ac_always_on: false,
        },
        LocationProfile {
            name: "office".to_string(),
            idle_timeout: 5,
            time_schedules: vec![TimeSchedule { hour: 9, minute: 0, brightness: 2 }],
            video_detection_enabled: true,
            wifi_networks: vec![],
            ac_always_on: false,
        },
        LocationProfile {
            name: "travel".to_string(),
            idle_timeout: 15,
            time_schedules: vec![TimeSchedule { hour: 9, minute: 0, brightness: 3 }],
            video_detection_enabled: true,
            wifi_networks: vec![],
            ac_always_on: false,
        },
    ];

    let config = Config {
        profiles,
        active_profile: "home".to_string(),
        auto_switch_location: false,
    };

    let mut engine = RuleEngine::new(config);
    let context = create_context(false, false, 10, 0);

    // Test home profile
    engine.config.active_profile = "home".to_string();
    let decision = engine.evaluate(&context);
    assert_eq!(decision, BrightnessDecision::SetBrightness(1));

    // Test office profile
    engine.config.active_profile = "office".to_string();
    let decision = engine.evaluate(&context);
    assert_eq!(decision, BrightnessDecision::SetBrightness(2));

    // Test travel profile
    engine.config.active_profile = "travel".to_string();
    let decision = engine.evaluate(&context);
    assert_eq!(decision, BrightnessDecision::SetBrightness(3));

    // Verify switching back to home still works
    engine.config.active_profile = "home".to_string();
    let decision = engine.evaluate(&context);
    assert_eq!(decision, BrightnessDecision::SetBrightness(1));
}

#[test]
fn test_schedule_scenario_home_day() {
    // Profile "home" with (9:00 -> 1) and (22:00 -> 0): at 10:00, not idle,
    // not fullscreen, no override, the decision is 1; at 23:00 it is 0; at
    // 8:00 no schedule has happened yet and the decision is 0.
    let config = Config {
        profiles: vec![LocationProfile {
            name: "home".to_string(),
            idle_timeout: 30,
            time_schedules: vec![
                TimeSchedule { hour: 9, minute: 0, brightness: 1 },
                TimeSchedule { hour: 22, minute: 0, brightness: 0 },
            ],
            video_detection_enabled: true,
            wifi_networks: vec![],
            ac_always_on: false,
        }],
        active_profile: "home".to_string(),
        auto_switch_location: false,
    };
    let engine = RuleEngine::new(config);

    let at_ten = create_context(false, false, 10, 0);
    assert_eq!(engine.evaluate(&at_ten), BrightnessDecision::SetBrightness(1));

    let at_eleven_pm = create_context(false, false, 23, 0);
    assert_eq!(engine.evaluate(&at_eleven_pm), BrightnessDecision::SetBrightness(0));

    let at_eight = create_context(false, false, 8, 0);
    assert_eq!(engine.evaluate(&at_eight), BrightnessDecision::SetBrightness(0));
}

#[test]
fn test_override_scenario_idle_and_fullscreen() {
    // Manual override 3 set; the snapshot says idle and fullscreen; the
    // decision is still 3.
    let config = create_test_config();
    let mut engine = RuleEngine::new(config);
    engine.set_manual_override(Some(3));
    let context = create_context(true, true, 12, 0);
    assert_eq!(engine.evaluate(&context), BrightnessDecision::SetBrightness(3));
}

#[test]
fn test_schedule_boundary_times() {
    // 23:59 and 0:00 are both valid schedule times and both take effect.
    let config = Config {
        profiles: vec![LocationProfile {
            name: "edges".to_string(),
            idle_timeout: 10,
            time_schedules: vec![
                TimeSchedule { hour: 0, minute: 0, brightness: 2 },
                TimeSchedule { hour: 23, minute: 59, brightness: 3 },
            ],
            video_detection_enabled: true,
            wifi_networks: vec![],
            ac_always_on: false,
        }],
        active_profile: "edges".to_string(),
        auto_switch_location: false,
    };
    assert!(config.validate().is_ok());
    let engine = RuleEngine::new(config);

    // Just after midnight only the 0:00 entry applies.
    let context = create_context(false, false, 0, 0);
    assert_eq!(engine.evaluate(&context), BrightnessDecision::SetBrightness(2));

    // At 23:59 the 23:59 entry is the latest qualifying one.
    let context = create_context(false, false, 23, 59);
    assert_eq!(engine.evaluate(&context), BrightnessDecision::SetBrightness(3));
}

#[test]
fn test_duplicate_schedule_times_last_wins() {
    // Two entries at the same time of day: the later one in list order
    // decides.
    let config = Config {
        profiles: vec![LocationProfile {
            name: "dup".to_string(),
            idle_timeout: 10,
            time_schedules: vec![
                TimeSchedule { hour: 9, minute: 0, brightness: 1 },
                TimeSchedule { hour: 9, minute: 0, brightness: 2 },
            ],
            video_detection_enabled: true,
            wifi_networks: vec![],
            ac_always_on: false,
        }],
        active_profile: "dup".to_string(),
        auto_switch_location: false,
    };
    let engine = RuleEngine::new(config);
    let context = create_context(false, false, 9, 30);
    assert_eq!(engine.evaluate(&context), BrightnessDecision::SetBrightness(2));
}
