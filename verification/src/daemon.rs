//! The daemon's state machine: the long-lived mutable state (active
//! configuration, manual override, applied brightness, idle-timeout cache,
//! last observed SSID) and the decisions of one polling tick and of one
//! control-channel request. Everything effectful — sampling, the hardware
//! write, persistence — happens outside; the loop hands in sampled plain
//! values, carries out the steps these methods return, and reports their
//! outcome back.

use vstd::prelude::*;
use vstd::string::StringExecFns;
use crate::config::{Config, TimeSchedule, find_in};
use crate::ipc::{IpcMessage, IpcResponse, StatusInfo, RespView};
use crate::power::PowerState;
use crate::rules::{RuleEngine, SystemContext, TimeOfDay, BrightnessDecision};

verus! {

/// What the event loop must do after a control request was handled.
#[derive(Debug)]
pub enum IpcStep {
    /// Nothing left to do: send this response.
    Reply(IpcResponse),
    /// The active-profile selection changed: persist it, then call
    /// `finish_profile_persist` with the outcome; on success force an
    /// immediate re-evaluation.
    PersistActive { previous: String },
    /// A manual brightness was set: write it to the hardware, then call
    /// `finish_brightness_write` with the outcome.
    WriteBrightness(u32),
    /// A schedule was appended: persist the named profile, then reply with
    /// `schedule_persist_response`.
    PersistProfile(String),
    /// The client asked the daemon to exit.
    ShutdownRequested,
}

/// The sampled signals of one tick, after the idle probe was brought up to
/// date.
#[derive(Debug, Clone, Copy, PartialEq, Eq, Structural)]
pub struct TickInputs {
    pub power: PowerState,
    pub is_idle: bool,
    pub is_video_or_fullscreen: bool,
    pub time: TimeOfDay,
}

/// What `pre_tick` decided: whether the active profile switched (the
/// selection must then be persisted, best-effort), and the active profile's
/// settings for the rest of the tick.
#[derive(Debug, Clone, PartialEq, Eq)]
pub struct TickPrep {
    pub switched_profile: bool,
    pub idle_timeout: u64,
    pub reconfigure_idle: bool,
    pub video_detection_enabled: bool,
    pub ac_always_on: bool,
}

/// The AC exception, applied after the engine: on mains with the profile's
/// flag set, no video playing and no override, the backlight stays at 1.
pub open spec fn spec_adjusted(
    decided: u32,
    ac_always_on: bool,
    power: PowerState,
    is_video_playing: bool,
    has_override: bool,
) -> u32 {
    if ac_always_on && power == PowerState::AC && !is_video_playing && !has_override {
        1
    } else {
        decided
    }
}

/// Apply the AC exception to what the engine decided. This runs after the
/// engine, never inside it, because it depends on the power signal.
pub fn apply_ac_adjustment(
    decided: u32,
    ac_always_on: bool,
    power: PowerState,
    is_video_playing: bool,
    has_override: bool,
) -> (r: u32)
    ensures
        r == spec_adjusted(decided, ac_always_on, power, is_video_playing, has_override),
{
    if ac_always_on && matches!(power, PowerState::AC) && !is_video_playing && !has_override {
        1
    } else {
        decided
    }
}

/// Whether the observed SSID differs from the last observed one.
pub open spec fn ssid_changed(last: Option<Seq<char>>, ssid: Seq<char>) -> bool {
    match last {
        Option::Some(l) => l != ssid,
        Option::None => true,
    }
}

/// The long-lived daemon state shared between the polling path and the
/// control path.
#[derive(Debug)]
pub struct DaemonState {
    pub engine: RuleEngine,
    pub current_brightness: u32,
    pub current_idle_timeout: u64,
    pub last_ssid: Option<String>,
    pub max_brightness: u32,
}

impl DaemonState {
    /// The state's invariant: the configuration stays valid, so the active
    /// name is always bound.
    pub open spec fn wf(self) -> bool {
        self.engine.config.spec_valid()
    }

    /// The profile name a changed SSID switches to: the profile owning the
    /// SSID, provided it exists and is not already active.
    pub open spec fn spec_switch_target(self, ssid: Seq<char>) -> Option<Seq<char>> {
        match crate::config::spec_profile_for_ssid(self.engine.config.profiles@, ssid) {
            Option::Some(name) => {
                if name != self.engine.config.active_profile@ && find_in(
                    self.engine.config.profiles@,
                    name,
                ) is Some {
                    Some(name)
                } else {
                    None
                }
            },
            Option::None => None,
        }
    }

    /// The active profile's AC flag; no flag when the active name is
    /// unbound.
    pub open spec fn spec_ac_flag(self) -> bool {
        match self.engine.config.spec_active() {
            Option::Some(p) => p.ac_always_on,
            Option::None => false,
        }
    }

    /// The brightness one tick decides: the engine's rule table, then the
    /// AC exception.
    pub open spec fn spec_decide(self, inputs: TickInputs) -> u32 {
        let ctx = SystemContext {
            is_idle: inputs.is_idle,
            is_fullscreen: inputs.is_video_or_fullscreen,
            current_time: inputs.time,
            previous_brightness: self.current_brightness,
        };
        spec_adjusted(
            self.engine.spec_evaluate(ctx),
            self.spec_ac_flag(),
            inputs.power,
            inputs.is_video_or_fullscreen,
            self.engine.manual_override is Some,
        )
    }

    /// The hardware write one tick plans: the decided value exactly when it
    /// differs from what is already applied.
    pub open spec fn spec_plan_tick(self, inputs: TickInputs) -> Option<u32> {
        if self.spec_decide(inputs) != self.current_brightness {
            Some(self.spec_decide(inputs))
        } else {
            None
        }
    }

    /// Assemble the daemon state at startup from the validated
    /// configuration, the brightness read from the hardware, and the
    /// hardware maximum.
    pub fn new(config: Config, initial_brightness: u32, max_brightness: u32) -> (r: DaemonState)
        requires
            config.spec_valid(),
        ensures
            r.wf(),
            r.engine.config == config,
            r.engine.manual_override is None,
            r.current_brightness == initial_brightness,
            r.max_brightness == max_brightness,
            r.last_ssid is None,
            Some(r.current_idle_timeout) == (match find_in(
                config.profiles@,
                config.active_profile@,
            ) {
                Option::Some(p) => Some(p.idle_timeout),
                Option::None => None,
            }),
    {
        let engine = RuleEngine::new(config);
        let timeout: u64 = match engine.config.active() {
            Some(p) => p.idle_timeout,
            None => 0,
        };
        DaemonState {
            engine,
            current_brightness: initial_brightness,
            current_idle_timeout: timeout,
            last_ssid: None,
            max_brightness,
        }
    }

    /// The first phase of a tick: location-based profile switching and the
    /// idle-timeout cache. Hand in the sampled SSID (if any); the returned
    /// preparation says whether the selection must be persisted, whether
    /// the idle probe must be rebuilt, and the active profile's settings.
    pub fn pre_tick(&mut self, ssid: Option<&str>) -> (r: TickPrep)
        requires
            old(self).wf(),
        ensures
            final(self).wf(),
            final(self).engine.manual_override == old(self).engine.manual_override,
            final(self).current_brightness == old(self).current_brightness,
            final(self).max_brightness == old(self).max_brightness,
            final(self).engine.config.profiles == old(self).engine.config.profiles,
            final(self).engine.config.auto_switch_location == old(
                self,
            ).engine.config.auto_switch_location,
            ({
                let cfg = old(self).engine.config;
                match ssid {
                    Option::Some(s) => {
                        if cfg.auto_switch_location && ssid_changed(
                            match old(self).last_ssid {
                                Option::Some(l) => Some(l@),
                                Option::None => None,
                            },
                            s@,
                        ) {
                            match old(self).spec_switch_target(s@) {
                                Option::Some(t) => {
                                    &&& final(self).engine.config.active_profile@ == t
                                    &&& final(self).last_ssid matches Some(l2) && l2@ == s@
                                    &&& r.switched_profile
                                },
                                Option::None => {
                                    &&& final(self).engine.config.active_profile == cfg.active_profile
                                    &&& final(self).last_ssid matches Some(l2) && l2@ == s@
                                    &&& !r.switched_profile
                                },
                            }
                        } else {
                            &&& final(self).engine.config.active_profile == cfg.active_profile
                            &&& final(self).last_ssid == old(self).last_ssid
                            &&& !r.switched_profile
                        }
                    },
                    Option::None => {
                        &&& final(self).engine.config.active_profile == cfg.active_profile
                        &&& final(self).last_ssid == old(self).last_ssid
                        &&& !r.switched_profile
                    },
                }
            }),
            ({
                let active = final(self).engine.config.spec_active();
                &&& active is Some
                &&& r.idle_timeout == active->0.idle_timeout
                &&& r.video_detection_enabled == active->0.video_detection_enabled
                &&& r.ac_always_on == active->0.ac_always_on
                &&& r.reconfigure_idle == (active->0.idle_timeout != old(
                    self,
                ).current_idle_timeout)
                &&& final(self).current_idle_timeout == active->0.idle_timeout
            }),
    {
        let mut switched: bool = false;
        if self.engine.config.auto_switch_location {
            if let Some(s) = ssid {
                let changed: bool = match &self.last_ssid {
                    Some(l) => !crate::text::str_eq(l.as_str(), s),
                    None => true,
                };
                if changed {
                    match self.engine.config.profile_for_ssid(s) {
                        Some(target) => {
                            let differs = !crate::text::str_eq(
                                target.as_str(),
                                self.engine.config.active_profile.as_str(),
                            );
                            let exists = self.engine.config.find_profile(
                                target.as_str(),
                            ).is_some();
                            if differs && exists {
                                self.engine.config.active_profile = target;
                                switched = true;
                            }
                        },
                        None => {},
                    }
                    self.last_ssid = Some(s.to_owned());
                }
            }
        }
        let (timeout, video_enabled, ac_on): (u64, bool, bool) = match self.engine.config.active() {
            Some(p) => (p.idle_timeout, p.video_detection_enabled, p.ac_always_on),
            None => (self.current_idle_timeout, false, false),
        };
        let reconfigure = timeout != self.current_idle_timeout;
        self.current_idle_timeout = timeout;
        TickPrep {
            switched_profile: switched,
            idle_timeout: timeout,
            reconfigure_idle: reconfigure,
            video_detection_enabled: video_enabled,
            ac_always_on: ac_on,
        }
    }

    /// The second phase of a tick: decide the brightness for the sampled
    /// signals and plan a hardware write exactly when the decision differs
    /// from what is already applied.
    pub fn plan_tick(&self, inputs: &TickInputs) -> (r: Option<u32>)
        ensures
            r == self.spec_plan_tick(*inputs),
    {
        let ctx = SystemContext {
            is_idle: inputs.is_idle,
            is_fullscreen: inputs.is_video_or_fullscreen,
            current_time: inputs.time,
            previous_brightness: self.current_brightness,
        };
        let decision = self.engine.evaluate(&ctx);
        let base: u32 = match decision {
            BrightnessDecision::SetBrightness(v) => v,
            BrightnessDecision::NoChange => self.current_brightness,
        };
        let ac_flag: bool = match self.engine.config.active() {
            Some(p) => p.ac_always_on,
            None => false,
        };
        let decided = apply_ac_adjustment(
            base,
            ac_flag,
            inputs.power,
            inputs.is_video_or_fullscreen,
            self.engine.manual_override.is_some(),
        );
        if decided != self.current_brightness {
            Some(decided)
        } else {
            None
        }
    }

    /// Record that a planned brightness write reached the hardware.
    pub fn commit_brightness(&mut self, value: u32)
        ensures
            final(self).current_brightness == value,
            final(self).engine == old(self).engine,
            final(self).current_idle_timeout == old(self).current_idle_timeout,
            final(self).last_ssid == old(self).last_ssid,
            final(self).max_brightness == old(self).max_brightness,
    {
        self.current_brightness = value;
    }

    /// A forced re-evaluation, as after a profile switch: decide from the
    /// engine alone (no AC exception) and apply unconditionally.
    pub fn plan_forced(&self, is_idle: bool, is_fullscreen: bool, time: TimeOfDay) -> (r: u32)
        ensures
            r == self.engine.spec_evaluate(
                (SystemContext {
                    is_idle,
                    is_fullscreen,
                    current_time: time,
                    previous_brightness: self.current_brightness,
                }),
            ),
    {
        let ctx = SystemContext {
            is_idle,
            is_fullscreen,
            current_time: time,
            previous_brightness: self.current_brightness,
        };
        match self.engine.evaluate(&ctx) {
            BrightnessDecision::SetBrightness(v) => v,
            BrightnessDecision::NoChange => self.current_brightness,
        }
    }

    /// Handle one control-channel request: mutate the state as the request
    /// asks and say what the event loop must do next. Rejections leave the
    /// state untouched and carry an `Error` reply; in particular a switch
    /// to an unknown profile changes nothing and persists nothing.
    pub fn handle_ipc_message(&mut self, message: &IpcMessage, is_idle: bool, is_fullscreen: bool)
        -> (r: IpcStep)
        requires
            old(self).wf(),
        ensures
            final(self).wf(),
            final(self).current_brightness == old(self).current_brightness,
            final(self).max_brightness == old(self).max_brightness,
            final(self).last_ssid == old(self).last_ssid,
            match *message {
                IpcMessage::GetStatus => {
                    &&& *final(self) == *old(self)
                    &&& r matches IpcStep::Reply(resp) && resp@ == (RespView::Status(
                        crate::ipc::StatusView {
                            active_profile: old(self).engine.config.active_profile@,
                            current_brightness: old(self).current_brightness,
                            is_idle: is_idle,
                            is_fullscreen: is_fullscreen,
                            manual_override: old(self).engine.manual_override,
                        },
                    ))
                },
                IpcMessage::SetProfile(ref name) => {
                    if find_in(old(self).engine.config.profiles@, name@) is Some {
                        &&& final(self).engine.config.active_profile@ == name@
                        &&& final(self).engine.config.profiles == old(self).engine.config.profiles
                        &&& final(self).engine.manual_override == old(self).engine.manual_override
                        &&& Some(final(self).current_idle_timeout) == (match find_in(
                            old(self).engine.config.profiles@,
                            name@,
                        ) {
                            Option::Some(p) => Some(p.idle_timeout),
                            Option::None => None,
                        })
                        &&& r matches IpcStep::PersistActive { previous } && previous == old(
                            self,
                        ).engine.config.active_profile
                    } else {
                        &&& *final(self) == *old(self)
                        &&& r matches IpcStep::Reply(resp) && resp matches IpcResponse::Error(_)
                    }
                },
                IpcMessage::SetManualBrightness(v) => {
                    if v <= old(self).max_brightness {
                        &&& final(self).engine.manual_override == Some(v)
                        &&& final(self).engine.config == old(self).engine.config
                        &&& final(self).current_idle_timeout == old(self).current_idle_timeout
                        &&& r matches IpcStep::WriteBrightness(w) && w == v
                    } else {
                        &&& *final(self) == *old(self)
                        &&& r matches IpcStep::Reply(resp) && resp matches IpcResponse::Error(_)
                    }
                },
                IpcMessage::ClearManualOverride => {
                    &&& final(self).engine.manual_override is None
                    &&& final(self).engine.config == old(self).engine.config
                    &&& final(self).current_idle_timeout == old(self).current_idle_timeout
                    &&& r matches IpcStep::Reply(resp) && resp@ == RespView::Okay
                },
                IpcMessage::ListProfiles => {
                    &&& *final(self) == *old(self)
                    &&& r matches IpcStep::Reply(resp) && resp@ == RespView::ProfileList(
                        crate::config::profile_names(old(self).engine.config.profiles@),
                    )
                },
                IpcMessage::AddTimeSchedule { ref profile, hour, minute, brightness } => {
                    if hour > 23 || minute > 59 || find_in(
                        old(self).engine.config.profiles@,
                        profile@,
                    ) is None {
                        &&& *final(self) == *old(self)
                        &&& r matches IpcStep::Reply(resp) && resp matches IpcResponse::Error(_)
                    } else {
                        &&& final(self).engine.config.active_profile == old(
                            self,
                        ).engine.config.active_profile
                        &&& final(self).engine.manual_override == old(self).engine.manual_override
                        &&& final(self).current_idle_timeout == old(self).current_idle_timeout
                        &&& exists|i: int|
                            {
                                &&& 0 <= i < old(self).engine.config.profiles@.len()
                                &&& find_in(old(self).engine.config.profiles@, profile@) == Some(
                                    old(self).engine.config.profiles@[i],
                                )
                                &&& Config::schedule_added_at(
                                    old(self).engine.config.profiles@,
                                    final(self).engine.config.profiles@,
                                    i,
                                    (TimeSchedule { hour, minute, brightness }),
                                )
                            }
                        &&& r matches IpcStep::PersistProfile(p) && p@ == profile@
                    }
                },
                IpcMessage::Shutdown => {
                    &&& *final(self) == *old(self)
                    &&& r matches IpcStep::ShutdownRequested
                },
            },
    {
        match message {
            IpcMessage::GetStatus => {
                let info = StatusInfo {
                    active_profile: self.engine.config.active_profile.clone(),
                    current_brightness: self.current_brightness,
                    is_idle,
                    is_fullscreen,
                    manual_override: self.engine.manual_override,
                };
                let resp = IpcResponse::Status(info);
                proof {
                    assert(*self == *old(self));
                    assert(resp@ == (RespView::Status(crate::ipc::StatusView {
                        active_profile: old(self).engine.config.active_profile@,
                        current_brightness: old(self).current_brightness,
                        is_idle: is_idle,
                        is_fullscreen: is_fullscreen,
                        manual_override: old(self).engine.manual_override,
                    })));
                }
                IpcStep::Reply(resp)
            },
            IpcMessage::SetProfile(name) => {
                let timeout: u64 = match self.engine.config.find_profile(name.as_str()) {
                    Some(p) => p.idle_timeout,
                    None => {
                        let mut m = "Profile '".to_owned();
                        m.append(name.as_str());
                        m.append("' not found");
                        return IpcStep::Reply(IpcResponse::Error(m));
                    },
                };
                let previous = self.engine.config.active_profile.clone();
                self.engine.config.active_profile = name.clone();
                self.current_idle_timeout = timeout;
                IpcStep::PersistActive { previous }
            },
            IpcMessage::SetManualBrightness(v) => {
                if *v > self.max_brightness {
                    let m = "Brightness exceeds hardware maximum".to_owned();
                    return IpcStep::Reply(IpcResponse::Error(m));
                }
                self.engine.set_manual_override(Some(*v));
                IpcStep::WriteBrightness(*v)
            },
            IpcMessage::ClearManualOverride => {
                self.engine.set_manual_override(None);
                IpcStep::Reply(IpcResponse::Okay)
            },
            IpcMessage::ListProfiles => {
                let names = self.engine.config.profile_name_list();
                let resp = IpcResponse::ProfileList(names);
                proof {
                    let pn = crate::config::profile_names(self.engine.config.profiles@);
                    match resp@ {
                        RespView::ProfileList(l) => {
                            assert(l =~= pn);
                        },
                        _ => {},
                    }
                    assert(resp@ == RespView::ProfileList(pn));
                }
                IpcStep::Reply(resp)
            },
            IpcMessage::AddTimeSchedule { profile, hour, minute, brightness } => {
                if *hour > 23 {
                    let m = "Invalid hour (must be 0-23)".to_owned();
                    return IpcStep::Reply(IpcResponse::Error(m));
                }
                if *minute > 59 {
                    let m = "Invalid minute (must be 0-59)".to_owned();
                    return IpcStep::Reply(IpcResponse::Error(m));
                }
                let schedule = TimeSchedule { hour: *hour, minute: *minute, brightness: *brightness };
                if self.engine.config.push_schedule(profile.as_str(), schedule) {
                    proof {
                        let oldc = old(self).engine.config;
                        let newc = self.engine.config;
                        let i = choose|i: int|
                            {
                                &&& 0 <= i < oldc.profiles@.len()
                                &&& find_in(oldc.profiles@, profile@) == Some(oldc.profiles@[i])
                                &&& Config::schedule_added_at(
                                    oldc.profiles@,
                                    newc.profiles@,
                                    i,
                                    schedule,
                                )
                            };
                        crate::config::lemma_schedule_added_keeps_valid(oldc, newc, i, schedule);
                    }
                    IpcStep::PersistProfile(profile.clone())
                } else {
                    let mut m = "Profile '".to_owned();
                    m.append(profile.as_str());
                    m.append("' not found");
                    IpcStep::Reply(IpcResponse::Error(m))
                }
            },
            IpcMessage::Shutdown => IpcStep::ShutdownRequested,
        }
    }

    /// Finish a profile switch once persistence was attempted. On failure
    /// the in-memory selection and the idle-timeout cache are rolled back
    /// to `previous`, so memory and storage never diverge, and the client
    /// sees the error.
    pub fn finish_profile_persist(&mut self, previous: String, persisted: bool, err: String) -> (r:
        IpcResponse)
        requires
            old(self).wf(),
        ensures
            final(self).wf(),
            final(self).engine.config.profiles == old(self).engine.config.profiles,
            final(self).engine.manual_override == old(self).engine.manual_override,
            final(self).current_brightness == old(self).current_brightness,
            final(self).last_ssid == old(self).last_ssid,
            final(self).max_brightness == old(self).max_brightness,
            persisted ==> *final(self) == *old(self) && r@ == RespView::ProfileChanged,
            !persisted ==> {
                &&& (match find_in(old(self).engine.config.profiles@, previous@) {
                    Option::Some(p) => {
                        &&& final(self).engine.config.active_profile@ == previous@
                        &&& final(self).current_idle_timeout == p.idle_timeout
                    },
                    Option::None => *final(self) == *old(self),
                })
                &&& r matches IpcResponse::Error(_)
            },
    {
        if persisted {
            IpcResponse::ProfileChanged
        } else {
            if let Some(p) = self.engine.config.find_profile(previous.as_str()) {
                let timeout: u64 = p.idle_timeout;
                self.engine.config.active_profile = previous;
                self.current_idle_timeout = timeout;
            }
            let mut m = "Failed to save active profile: ".to_owned();
            m.append(err.as_str());
            IpcResponse::Error(m)
        }
    }

    /// Finish a manual brightness change once the hardware write was
    /// attempted: on success the applied value is recorded; on failure the
    /// previous value stays, so the next change retries the write.
    pub fn finish_brightness_write(&mut self, value: u32, ok: bool, err: String) -> (r:
        IpcResponse)
        ensures
            final(self).engine == old(self).engine,
            final(self).current_idle_timeout == old(self).current_idle_timeout,
            final(self).last_ssid == old(self).last_ssid,
            final(self).max_brightness == old(self).max_brightness,
            ok ==> final(self).current_brightness == value && r@ == RespView::BrightnessSet,
            !ok ==> final(self).current_brightness == old(self).current_brightness && (r
                matches IpcResponse::Error(_)),
    {
        if ok {
            self.current_brightness = value;
            IpcResponse::BrightnessSet
        } else {
            let mut m = "Failed to set brightness: ".to_owned();
            m.append(err.as_str());
            IpcResponse::Error(m)
        }
    }
}

/// The reply for an appended schedule once persistence was attempted. The
/// entry stays in memory either way; a persistence failure is reported to
/// the client.
pub fn schedule_persist_response(ok: bool, err: String) -> (r: IpcResponse)
    ensures
        ok ==> r@ == RespView::ScheduleAdded,
        !ok ==> r matches IpcResponse::Error(_),
{
    if ok {
        IpcResponse::ScheduleAdded
    } else {
        let mut m = "Failed to save profile: ".to_owned();
        m.append(err.as_str());
        IpcResponse::Error(m)
    }
}

/// Applying an unchanged decision is idempotent on the hardware: once a
/// tick's write is committed, a second tick whose inputs yield the same
/// decision plans no write at all, so equal decisions cost at most one
/// hardware write.
pub proof fn lemma_write_idempotent(
    s: DaemonState,
    inputs: TickInputs,
    s2: DaemonState,
    inputs2: TickInputs,
    v: u32,
)
    requires
        s.spec_plan_tick(inputs) == Some(v),
        s2 == (DaemonState { current_brightness: v, ..s }),
        s2.spec_decide(inputs2) == s.spec_decide(inputs),
    ensures
        s2.spec_plan_tick(inputs2) is None,
{
}

} // verus!
