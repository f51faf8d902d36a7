use kbd_backlight::config::{Config, LocationProfile, TimeSchedule};
use kbd_backlight::daemon::{
    apply_ac_adjustment, schedule_persist_response, DaemonState, IpcStep, TickInputs,
};
use kbd_backlight::ipc::{IpcMessage, IpcResponse};
use kbd_backlight::power::PowerState;
use kbd_backlight::rules::TimeOfDay;

fn profile(name: &str, idle_timeout: u64, schedules: Vec<TimeSchedule>) -> LocationProfile {
    LocationProfile {
        name: name.to_string(),
        idle_timeout,
        time_schedules: schedules,
        video_detection_enabled: true,
        wifi_networks: vec![],
        ac_always_on: false,
    }
}

fn two_profile_state() -> DaemonState {
    let mut home = profile("home", 30, vec![
        TimeSchedule { hour: 9, minute: 0, brightness: 1 },
        TimeSchedule { hour: 22, minute: 0, brightness: 0 },
    ]);
    home.wifi_networks = vec!["HomeNet".to_string()];
    let mut office = profile("office", 5, vec![TimeSchedule { hour: 8, minute: 0, brightness: 3 }]);
    office.wifi_networks = vec!["OfficeNet".to_string()];
    let config = Config {
        profiles: vec![home, office],
        active_profile: "home".to_string(),
        auto_switch_location: true,
    };
    assert!(config.validate().is_ok());
    DaemonState::new(config, 0, 3)
}

fn inputs(power: PowerState, is_idle: bool, video: bool, hour: u8, minute: u8) -> TickInputs {
    TickInputs {
        power,
        is_idle,
        is_video_or_fullscreen: video,
        time: TimeOfDay { hour, minute },
    }
}

#[test]
fn test_set_profile_unknown_is_rejected_without_persistence() {
    // SetProfile("lab") when "lab" does not exist: an Error reply, the
    // active profile unchanged, and no persistence step requested.
    let mut state = two_profile_state();
    let step = state.handle_ipc_message(
        &IpcMessage::SetProfile("lab".to_string()),
        false,
        false,
    );
    match step {
        IpcStep::Reply(IpcResponse::Error(msg)) => assert!(msg.contains("not found")),
        other => panic!("expected an Error reply, got {:?}", other),
    }
    assert_eq!(state.engine.config.active_profile, "home");
}

#[test]
fn test_set_profile_known_switches_and_persists() {
    let mut state = two_profile_state();
    let step = state.handle_ipc_message(
        &IpcMessage::SetProfile("office".to_string()),
        false,
        false,
    );
    match step {
        IpcStep::PersistActive { previous } => assert_eq!(previous, "home"),
        other => panic!("expected PersistActive, got {:?}", other),
    }
    assert_eq!(state.engine.config.active_profile, "office");
    assert_eq!(state.current_idle_timeout, 5);

    // Successful persistence completes the switch.
    let resp = state.finish_profile_persist("home".to_string(), true, String::new());
    assert!(matches!(resp, IpcResponse::ProfileChanged));
    assert_eq!(state.engine.config.active_profile, "office");
}

#[test]
fn test_set_profile_persist_failure_rolls_back() {
    let mut state = two_profile_state();
    let step = state.handle_ipc_message(
        &IpcMessage::SetProfile("office".to_string()),
        false,
        false,
    );
    assert!(matches!(step, IpcStep::PersistActive { .. }));
    assert_eq!(state.engine.config.active_profile, "office");

    let resp = state.finish_profile_persist("home".to_string(), false, "disk full".to_string());
    match resp {
        IpcResponse::Error(msg) => assert!(msg.contains("disk full")),
        other => panic!("expected an Error reply, got {:?}", other),
    }
    assert_eq!(state.engine.config.active_profile, "home");
    assert_eq!(state.current_idle_timeout, 30);
}

#[test]
fn test_ac_exception_raises_zero_to_one() {
    // ac_always_on with AC power, no video, no override: a decision of 0
    // from the idle rule is raised to 1 by the post-processing step.
    assert_eq!(apply_ac_adjustment(0, true, PowerState::AC, false, false), 1);
    // Outside the exception the decision passes through.
    assert_eq!(apply_ac_adjustment(0, false, PowerState::AC, false, false), 0);
    assert_eq!(apply_ac_adjustment(0, true, PowerState::Battery, false, false), 0);
    assert_eq!(apply_ac_adjustment(0, true, PowerState::Unknown, false, false), 0);
    assert_eq!(apply_ac_adjustment(0, true, PowerState::AC, true, false), 0);
    assert_eq!(apply_ac_adjustment(0, true, PowerState::AC, false, true), 0);
    assert_eq!(apply_ac_adjustment(2, true, PowerState::AC, false, false), 1);
}

#[test]
fn test_tick_applies_ac_exception_after_engine() {
    let mut home = profile("home", 30, vec![]);
    home.ac_always_on = true;
    let config = Config {
        profiles: vec![home],
        active_profile: "home".to_string(),
        auto_switch_location: false,
    };
    let mut state = DaemonState::new(config, 0, 3);
    state.pre_tick(None);
    // Idle would decide 0, but on AC with the flag set the tick plans 1.
    let plan = state.plan_tick(&inputs(PowerState::AC, true, false, 12, 0));
    assert_eq!(plan, Some(1));
}

#[test]
fn test_tick_write_only_on_change() {
    // The tick plans a write exactly when the decision differs from the
    // applied value, so an unchanged decision causes no second write.
    let mut state = two_profile_state();
    let tick = inputs(PowerState::Battery, false, false, 10, 0);

    // At 10:00 the 9:00 schedule entry decides 1; applied is 0.
    let plan = state.plan_tick(&tick);
    assert_eq!(plan, Some(1));
    state.commit_brightness(1);

    // Same signals again: the decision is unchanged, no write is planned.
    assert_eq!(state.plan_tick(&tick), None);
}

#[test]
fn test_pre_tick_switches_profile_on_known_ssid() {
    let mut state = two_profile_state();
    let prep = state.pre_tick(Some("OfficeNet"));
    assert!(prep.switched_profile);
    assert_eq!(state.engine.config.active_profile, "office");
    assert_eq!(state.last_ssid, Some("OfficeNet".to_string()));
    // The office profile has a different idle timeout, so the probe must be
    // rebuilt.
    assert!(prep.reconfigure_idle);
    assert_eq!(prep.idle_timeout, 5);
}

#[test]
fn test_pre_tick_ignores_unchanged_or_unknown_ssid() {
    let mut state = two_profile_state();

    // An unknown SSID records the observation but switches nothing.
    let prep = state.pre_tick(Some("CafeNet"));
    assert!(!prep.switched_profile);
    assert_eq!(state.engine.config.active_profile, "home");
    assert_eq!(state.last_ssid, Some("CafeNet".to_string()));

    // The same SSID again is not re-examined.
    let prep = state.pre_tick(Some("CafeNet"));
    assert!(!prep.switched_profile);
    assert_eq!(state.engine.config.active_profile, "home");

    // With location switching off nothing changes either.
    state.engine.config.auto_switch_location = false;
    let prep = state.pre_tick(Some("OfficeNet"));
    assert!(!prep.switched_profile);
    assert_eq!(state.engine.config.active_profile, "home");
}

#[test]
fn test_set_manual_brightness_flow() {
    let mut state = two_profile_state();

    // Over the hardware maximum: rejected, nothing changes.
    let step = state.handle_ipc_message(&IpcMessage::SetManualBrightness(4), false, false);
    assert!(matches!(step, IpcStep::Reply(IpcResponse::Error(_))));
    assert_eq!(state.engine.manual_override, None);

    // Within range: the override is set and a write is requested.
    let step = state.handle_ipc_message(&IpcMessage::SetManualBrightness(3), false, false);
    assert!(matches!(step, IpcStep::WriteBrightness(3)));
    assert_eq!(state.engine.manual_override, Some(3));

    // A successful write records the value.
    let resp = state.finish_brightness_write(3, true, String::new());
    assert!(matches!(resp, IpcResponse::BrightnessSet));
    assert_eq!(state.current_brightness, 3);

    // A failed write keeps the previous value so the next tick retries.
    let resp = state.finish_brightness_write(2, false, "io error".to_string());
    assert!(matches!(resp, IpcResponse::Error(_)));
    assert_eq!(state.current_brightness, 3);
}

#[test]
fn test_clear_manual_override_flow() {
    let mut state = two_profile_state();
    state.handle_ipc_message(&IpcMessage::SetManualBrightness(2), false, false);
    assert_eq!(state.engine.manual_override, Some(2));

    let step = state.handle_ipc_message(&IpcMessage::ClearManualOverride, false, false);
    assert!(matches!(step, IpcStep::Reply(IpcResponse::Okay)));
    assert_eq!(state.engine.manual_override, None);
}

#[test]
fn test_get_status_reports_state() {
    let mut state = two_profile_state();
    state.commit_brightness(2);
    state.handle_ipc_message(&IpcMessage::SetManualBrightness(3), false, false);
    let step = state.handle_ipc_message(&IpcMessage::GetStatus, true, false);
    match step {
        IpcStep::Reply(IpcResponse::Status(info)) => {
            assert_eq!(info.active_profile, "home");
            assert_eq!(info.current_brightness, 2);
            assert!(info.is_idle);
            assert!(!info.is_fullscreen);
            assert_eq!(info.manual_override, Some(3));
        },
        other => panic!("expected a Status reply, got {:?}", other),
    }
}

#[test]
fn test_list_profiles_reports_names() {
    let mut state = two_profile_state();
    let step = state.handle_ipc_message(&IpcMessage::ListProfiles, false, false);
    match step {
        IpcStep::Reply(IpcResponse::ProfileList(names)) => {
            assert_eq!(names, vec!["home".to_string(), "office".to_string()]);
        },
        other => panic!("expected a ProfileList reply, got {:?}", other),
    }
}

#[test]
fn test_add_time_schedule_flow() {
    let mut state = two_profile_state();

    // hour=24 is rejected by validation before anything changes.
    let step = state.handle_ipc_message(
        &IpcMessage::AddTimeSchedule {
            profile: "home".to_string(),
            hour: 24,
            minute: 0,
            brightness: 1,
        },
        false,
        false,
    );
    assert!(matches!(step, IpcStep::Reply(IpcResponse::Error(_))));

    // minute=60 likewise.
    let step = state.handle_ipc_message(
        &IpcMessage::AddTimeSchedule {
            profile: "home".to_string(),
            hour: 0,
            minute: 60,
            brightness: 1,
        },
        false,
        false,
    );
    assert!(matches!(step, IpcStep::Reply(IpcResponse::Error(_))));

    // An unknown profile is rejected.
    let step = state.handle_ipc_message(
        &IpcMessage::AddTimeSchedule {
            profile: "lab".to_string(),
            hour: 10,
            minute: 0,
            brightness: 1,
        },
        false,
        false,
    );
    assert!(matches!(step, IpcStep::Reply(IpcResponse::Error(_))));

    // A valid request appends the entry and asks for persistence.
    let before = state.engine.config.profiles[0].time_schedules.len();
    let step = state.handle_ipc_message(
        &IpcMessage::AddTimeSchedule {
            profile: "home".to_string(),
            hour: 23,
            minute: 59,
            brightness: 2,
        },
        false,
        false,
    );
    match step {
        IpcStep::PersistProfile(name) => assert_eq!(name, "home"),
        other => panic!("expected PersistProfile, got {:?}", other),
    }
    assert_eq!(state.engine.config.profiles[0].time_schedules.len(), before + 1);
    assert_eq!(
        state.engine.config.profiles[0].time_schedules[before],
        TimeSchedule { hour: 23, minute: 59, brightness: 2 }
    );

    assert!(matches!(schedule_persist_response(true, String::new()), IpcResponse::ScheduleAdded));
    assert!(matches!(
        schedule_persist_response(false, "disk full".to_string()),
        IpcResponse::Error(_)
    ));
}

#[test]
fn test_shutdown_request() {
    let mut state = two_profile_state();
    let step = state.handle_ipc_message(&IpcMessage::Shutdown, false, false);
    assert!(matches!(step, IpcStep::ShutdownRequested));
}

#[test]
fn test_forced_evaluation_follows_engine() {
    let mut state = two_profile_state();
    // Not idle, not fullscreen, 10:00: the 9:00 entry decides 1.
    assert_eq!(state.plan_forced(false, false, TimeOfDay { hour: 10, minute: 0 }), 1);
    // Idle darkens to 0.
    assert_eq!(state.plan_forced(true, false, TimeOfDay { hour: 10, minute: 0 }), 0);
    // An override wins.
    state.handle_ipc_message(&IpcMessage::SetManualBrightness(3), false, false);
    assert_eq!(state.plan_forced(true, true, TimeOfDay { hour: 10, minute: 0 }), 3);
}
