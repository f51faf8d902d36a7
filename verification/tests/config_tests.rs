use kbd_backlight::config::{Config, LocationProfile, TimeSchedule};

fn profile(name: &str, idle_timeout: u64, schedules: Vec<TimeSchedule>) -> LocationProfile {
    LocationProfile {
        name: name.to_string(),
        idle_timeout,
        time_schedules: schedules,
        video_detection_enabled: true,
        wifi_networks: vec![],
        ac_always_on: false,
    }
}

#[test]
fn test_default_config_creation() {
    let config = Config::default();
    assert_eq!(config.active_profile, "home");
    assert!(config.find_profile("home").is_some());
    assert!(config.validate().is_ok());
}

#[test]
fn test_config_validation_invalid_profile() {
    let config = Config { active_profile: "nonexistent".to_string(), ..Default::default() };

    let result = config.validate();
    assert!(result.is_err());
    assert!(result.unwrap_err().message().contains("not found in profiles"));
}

#[test]
fn test_config_validation_invalid_hour() {
    let mut config = Config::default();
    config.profiles[0].time_schedules.push(TimeSchedule { hour: 25, minute: 0, brightness: 2 });

    let result = config.validate();
    assert!(result.is_err());
    assert!(result.unwrap_err().message().contains("Invalid hour"));
}

#[test]
fn test_config_validation_invalid_minute() {
    let mut config = Config::default();
    config.profiles[0].time_schedules.push(TimeSchedule { hour: 12, minute: 60, brightness: 2 });

    let result = config.validate();
    assert!(result.is_err());
    assert!(result.unwrap_err().message().contains("Invalid minute"));
}

#[test]
fn test_multiple_profiles() {
    let mut config = Config::default();

    config.profiles.push(profile(
        "office",
        5,
        vec![TimeSchedule { hour: 8, minute: 0, brightness: 3 }],
    ));

    assert!(config.validate().is_ok());
    assert_eq!(config.profiles.len(), 2);
}

#[test]
fn test_profile_independence() {
    let mut config = Config::default();

    // Add a second profile with different settings
    config.profiles.push(profile(
        "office",
        5,
        vec![TimeSchedule { hour: 8, minute: 0, brightness: 3 }],
    ));

    // Verify home profile is unchanged
    let home = config.find_profile("home").unwrap();
    assert_eq!(home.idle_timeout, 30);
    assert_eq!(home.time_schedules.len(), 2);

    // Verify office profile has its own settings
    let office = config.find_profile("office").unwrap();
    assert_eq!(office.idle_timeout, 5);
    assert_eq!(office.time_schedules.len(), 1);
    assert_eq!(office.time_schedules[0].brightness, 3);
}

#[test]
fn test_profile_switching() {
    let mut config = Config::default();

    // Add office profile
    config.profiles.push(profile("office", 5, vec![]));

    // Initially on home profile
    assert_eq!(config.active_profile, "home");

    // Switch to office profile
    config.active_profile = "office".to_string();
    assert_eq!(config.active_profile, "office");
    assert!(config.validate().is_ok());

    // Verify we can access the active profile's settings
    let active = config.find_profile(&config.active_profile).unwrap();
    assert_eq!(active.idle_timeout, 5);
}

#[test]
fn test_validation_rejects_empty_profile_list() {
    let config = Config {
        profiles: vec![],
        active_profile: "home".to_string(),
        auto_switch_location: false,
    };
    assert!(config.validate().is_err());
}

#[test]
fn test_validation_rejects_zero_idle_timeout() {
    let config = Config {
        profiles: vec![profile("home", 0, vec![])],
        active_profile: "home".to_string(),
        auto_switch_location: false,
    };
    let result = config.validate();
    assert!(result.is_err());
    assert!(result.unwrap_err().message().contains("idle_timeout"));
}

#[test]
fn test_validation_rejects_duplicate_names() {
    let config = Config {
        profiles: vec![profile("home", 10, vec![]), profile("home", 20, vec![])],
        active_profile: "home".to_string(),
        auto_switch_location: false,
    };
    let result = config.validate();
    assert!(result.is_err());
    assert!(result.unwrap_err().message().contains("Duplicate profile name"));
}

#[test]
fn test_validation_rejects_shared_wifi_network() {
    let mut first = profile("home", 10, vec![]);
    first.wifi_networks = vec!["HomeNet".to_string()];
    let mut second = profile("office", 10, vec![]);
    second.wifi_networks = vec!["HomeNet".to_string()];
    let config = Config {
        profiles: vec![first, second],
        active_profile: "home".to_string(),
        auto_switch_location: true,
    };
    let result = config.validate();
    assert!(result.is_err());
    assert!(result.unwrap_err().message().contains("multiple profiles"));
}

#[test]
fn test_validation_accepts_boundary_schedule_times() {
    // hour=23,minute=59 and hour=0,minute=0 are both valid.
    let config = Config {
        profiles: vec![profile(
            "home",
            10,
            vec![
                TimeSchedule { hour: 23, minute: 59, brightness: 1 },
                TimeSchedule { hour: 0, minute: 0, brightness: 2 },
            ],
        )],
        active_profile: "home".to_string(),
        auto_switch_location: false,
    };
    assert!(config.validate().is_ok());
}

#[test]
fn test_location_mappings_and_lookup() {
    let mut home = profile("home", 10, vec![]);
    home.wifi_networks = vec!["HomeNet".to_string()];
    let mut office = profile("office", 10, vec![]);
    office.wifi_networks = vec!["OfficeNet".to_string(), "OfficeGuest".to_string()];
    let config = Config {
        profiles: vec![home, office],
        active_profile: "home".to_string(),
        auto_switch_location: true,
    };

    let mappings = config.build_location_mappings();
    assert_eq!(mappings.len(), 3);
    assert_eq!(mappings[0], ("HomeNet".to_string(), "home".to_string()));
    assert_eq!(mappings[1], ("OfficeNet".to_string(), "office".to_string()));
    assert_eq!(mappings[2], ("OfficeGuest".to_string(), "office".to_string()));

    assert_eq!(config.profile_for_ssid("OfficeGuest"), Some("office".to_string()));
    assert_eq!(config.profile_for_ssid("Elsewhere"), None);
}

#[test]
fn test_push_schedule_appends_to_named_profile() {
    let mut config = Config::default();
    let before = config.profiles[0].time_schedules.len();
    assert!(config.push_schedule("home", TimeSchedule { hour: 12, minute: 30, brightness: 2 }));
    assert_eq!(config.profiles[0].time_schedules.len(), before + 1);
    assert_eq!(
        config.profiles[0].time_schedules[before],
        TimeSchedule { hour: 12, minute: 30, brightness: 2 }
    );

    // An unknown profile changes nothing.
    assert!(!config.push_schedule("missing", TimeSchedule { hour: 1, minute: 0, brightness: 0 }));
    assert_eq!(config.profiles[0].time_schedules.len(), before + 1);
}

#[test]
fn test_profile_name_list_order() {
    let config = Config {
        profiles: vec![profile("home", 10, vec![]), profile("office", 10, vec![])],
        active_profile: "home".to_string(),
        auto_switch_location: false,
    };
    assert_eq!(config.profile_name_list(), vec!["home".to_string(), "office".to_string()]);
}
