//! The decision engine: a pure, priority-ordered rule table from one
//! snapshot of the sampled signals to a brightness value. Priority, highest
//! first: manual override, fullscreen or video playback, idleness, the time
//! schedule of the active profile, and finally the safe default of 0.

use vstd::prelude::*;
use vstd::string::StringSliceAdditionalSpecFns;
use crate::config::{Config, TimeSchedule};
use crate::error::Error;
use crate::wire::{parse_num_lz, parse_num_lz_at};

verus! {

/// The byte separating hour and minute in a time-of-day string.
pub const COLON: u8 = 58;

/// A clock time as hour and minute: all the engine ever reads of the wall
/// clock.
#[derive(Debug, Clone, Copy, PartialEq, Eq, Structural)]
pub struct TimeOfDay {
    pub hour: u8,
    pub minute: u8,
}

impl TimeOfDay {
    /// Minutes since midnight.
    pub open spec fn spec_minute_of_day(self) -> int {
        self.hour * 60 + self.minute
    }

    /// Minutes since midnight.
    pub fn minute_of_day(&self) -> (r: u32)
        ensures
            r == self.spec_minute_of_day(),
    {
        (self.hour as u32) * 60 + (self.minute as u32)
    }
}

/// Parse of a `HH:MM` time-of-day string over its bytes: a digit run, one
/// colon, a digit run covering the rest; leading zeros are fine; the hour
/// must be 0-23 and the minute 0-59.
pub open spec fn spec_parse_hhmm(b: Seq<u8>) -> Option<(u8, u8)> {
    match parse_num_lz(b) {
        Option::Some(p1) => {
            if p1.1.len() >= 1 && p1.1[0] == COLON {
                match parse_num_lz(p1.1.skip(1)) {
                    Option::Some(p2) => {
                        if p2.1.len() == 0 && p1.0 <= 23 && p2.0 <= 59 {
                            Some((p1.0 as u8, p2.0 as u8))
                        } else {
                            None
                        }
                    },
                    Option::None => None,
                }
            } else {
                None
            }
        },
        Option::None => None,
    }
}

/// Parse a `HH:MM` string into a time of day, rejecting anything that is
/// not two decimal numbers around one colon, an hour over 23, or a minute
/// over 59.
pub fn parse_time_of_day(s: &str) -> (r: Result<TimeOfDay, Error>)
    ensures
        match spec_parse_hhmm(s.spec_bytes()) {
            Option::Some(p) => r matches Ok(t) && t.hour == p.0 && t.minute == p.1,
            Option::None => r matches Err(e) && e matches Error::Parse(_),
        },
{
    let data = s.as_bytes();
    let p1 = match parse_num_lz_at(data, 0) {
        Some(p) => p,
        None => {
            proof {
                assert(data@.skip(0) =~= data@);
            }
            return Err(Error::Parse("Invalid time format; expected HH:MM".to_owned()));
        },
    };
    proof {
        assert(data@.skip(0) =~= data@);
    }
    if p1.1 >= data.len() || data[p1.1] != COLON {
        proof {
            if p1.1 < data@.len() {
                assert(data@.skip(p1.1 as int)[0] == data@[p1.1 as int]);
            }
        }
        return Err(Error::Parse("Invalid time format; expected HH:MM".to_owned()));
    }
    proof {
        assert(data@.skip(p1.1 as int)[0] == data@[p1.1 as int]);
        assert(data@.skip(p1.1 as int).skip(1) =~= data@.skip(p1.1 as int + 1));
    }
    let p2 = match parse_num_lz_at(data, p1.1 + 1) {
        Some(p) => p,
        None => {
            return Err(Error::Parse("Invalid time format; expected HH:MM".to_owned()));
        },
    };
    if p2.1 != data.len() {
        return Err(Error::Parse("Invalid time format; expected HH:MM".to_owned()));
    }
    if p1.0 > 23 {
        return Err(Error::Parse("Hour must be 0-23".to_owned()));
    }
    if p2.0 > 59 {
        return Err(Error::Parse("Minute must be 0-59".to_owned()));
    }
    Ok(TimeOfDay { hour: p1.0 as u8, minute: p2.0 as u8 })
}

/// The signals sampled for one evaluation, never retained across ticks.
#[derive(Debug, Clone, Copy, PartialEq, Eq, Structural)]
pub struct SystemContext {
    pub is_idle: bool,
    pub is_fullscreen: bool,
    pub current_time: TimeOfDay,
    pub previous_brightness: u32,
}

/// What the engine decided for this snapshot.
#[derive(Debug, Clone, Copy, PartialEq, Eq, Structural)]
pub enum BrightnessDecision {
    SetBrightness(u32),
    NoChange,
}

/// The best (time of day, brightness) pair among the first `n` schedule
/// entries whose time is at or before `t`. On equal times the later entry
/// in list order wins, so duplicate times resolve deterministically.
pub open spec fn best_upto(s: Seq<TimeSchedule>, t: int, n: int) -> Option<(int, u32)>
    decreases n,
{
    if n <= 0 {
        None
    } else {
        let prev = best_upto(s, t, n - 1);
        let cur = s[n - 1];
        if cur.spec_minute_of_day() <= t {
            match prev {
                Option::None => Some((cur.spec_minute_of_day(), cur.brightness)),
                Option::Some(p) => {
                    if cur.spec_minute_of_day() >= p.0 {
                        Some((cur.spec_minute_of_day(), cur.brightness))
                    } else {
                        Some(p)
                    }
                },
            }
        } else {
            prev
        }
    }
}

/// Brightness of the latest schedule entry at or before `t`, if any entry
/// qualifies.
pub open spec fn spec_schedule_brightness(s: Seq<TimeSchedule>, t: int) -> Option<u32> {
    match best_upto(s, t, s.len() as int) {
        Option::Some(p) => Some(p.1),
        Option::None => None,
    }
}

/// The rule engine: the active configuration plus the operator's manual
/// override, if one is set.
#[derive(Debug, Clone)]
pub struct RuleEngine {
    pub config: Config,
    pub manual_override: Option<u32>,
}

impl RuleEngine {
    /// Make an engine over the given configuration, with no override set.
    pub fn new(config: Config) -> (r: RuleEngine)
        ensures
            r.config == config,
            r.manual_override is None,
    {
        RuleEngine { config, manual_override: None }
    }

    /// Set or clear the manual override; the configuration is untouched.
    pub fn set_manual_override(&mut self, brightness: Option<u32>)
        ensures
            final(self).manual_override == brightness,
            final(self).config == old(self).config,
    {
        self.manual_override = brightness;
    }

    /// The schedule rule's contribution at minute-of-day `t`: the active
    /// profile's latest qualifying entry, or nothing when the active name is
    /// unbound or no entry qualifies.
    pub open spec fn spec_schedule_result(self, t: int) -> Option<u32> {
        match self.config.spec_active() {
            Option::Some(p) => spec_schedule_brightness(p.time_schedules@, t),
            Option::None => None,
        }
    }

    /// The decided brightness for a snapshot: the override when set, else 0
    /// under fullscreen or video playback, else 0 when idle, else the
    /// schedule rule, else 0.
    pub open spec fn spec_evaluate(self, ctx: SystemContext) -> u32 {
        if self.manual_override is Some {
            self.manual_override->0
        } else if ctx.is_fullscreen {
            0
        } else if ctx.is_idle {
            0
        } else {
            match self.spec_schedule_result(ctx.current_time.spec_minute_of_day()) {
                Option::Some(b) => b,
                Option::None => 0,
            }
        }
    }

    /// Evaluate the rule table against one snapshot.
    pub fn evaluate(&self, context: &SystemContext) -> (r: BrightnessDecision)
        ensures
            r == BrightnessDecision::SetBrightness(self.spec_evaluate(*context)),
    {
        if let Some(brightness) = self.manual_override {
            return BrightnessDecision::SetBrightness(brightness);
        }
        if context.is_fullscreen {
            return BrightnessDecision::SetBrightness(0);
        }
        if context.is_idle {
            return BrightnessDecision::SetBrightness(0);
        }
        if let Some(brightness) = self.get_time_based_brightness(context) {
            return BrightnessDecision::SetBrightness(brightness);
        }
        BrightnessDecision::SetBrightness(0)
    }

    /// The schedule rule: scan the active profile's entries and keep the
    /// latest one at or before the snapshot's time.
    fn get_time_based_brightness(&self, context: &SystemContext) -> (r: Option<u32>)
        ensures
            r == self.spec_schedule_result(context.current_time.spec_minute_of_day()),
    {
        let profile = match self.config.active() {
            Some(p) => p,
            None => {
                return None;
            },
        };
        let current_minutes = context.current_time.minute_of_day();
        let ghost t: int = context.current_time.spec_minute_of_day();
        let n: usize = profile.time_schedules.len();
        let mut best: Option<(u32, u32)> = None;
        let mut i: usize = 0;
        while i < n
            invariant
                n == profile.time_schedules@.len(),
                i <= n,
                current_minutes == t,
                match best_upto(profile.time_schedules@, t, i as int) {
                    Option::None => best is None,
                    Option::Some(p) => best matches Some(q) && q.0 == p.0 && q.1 == p.1,
                },
            decreases n - i,
        {
            let s = profile.time_schedules[i];
            let sm = s.minute_of_day();
            if sm <= current_minutes {
                match best {
                    None => {
                        best = Some((sm, s.brightness));
                    },
                    Some(b) => {
                        if sm >= b.0 {
                            best = Some((sm, s.brightness));
                        }
                    },
                }
            }
            i = i + 1;
        }
        match best {
            Some(b) => Some(b.1),
            None => None,
        }
    }
}

/// A set manual override decides the outcome alone: whatever the snapshot
/// says about idleness, fullscreen state or the time, the engine returns the
/// override value.
pub proof fn lemma_manual_override_wins(e: RuleEngine, ctx: SystemContext, v: u32)
    requires
        e.manual_override == Some(v),
    ensures
        e.spec_evaluate(ctx) == v,
{
}

/// With no override set, fullscreen or video playback darkens the backlight
/// to 0, even when the snapshot is idle or a schedule entry would apply.
pub proof fn lemma_fullscreen_darkens(e: RuleEngine, ctx: SystemContext)
    requires
        e.manual_override is None,
        ctx.is_fullscreen,
    ensures
        e.spec_evaluate(ctx) == 0,
{
}

/// Characterization of `best_upto` over the first `n` entries: it is empty
/// exactly when no entry qualifies, and otherwise names a qualifying entry
/// of greatest time of day.
pub proof fn lemma_best_upto(s: Seq<TimeSchedule>, t: int, n: int)
    requires
        0 <= n <= s.len(),
    ensures
        (best_upto(s, t, n) is None) <==> (forall|i: int|
            0 <= i < n ==> (#[trigger] s[i]).spec_minute_of_day() > t),
        best_upto(s, t, n) matches Some(p) ==> {
            &&& exists|i: int|
                {
                    &&& 0 <= i < n
                    &&& (#[trigger] s[i]).spec_minute_of_day() == p.0
                    &&& s[i].brightness == p.1
                    &&& s[i].spec_minute_of_day() <= t
                }
            &&& forall|j: int|
                0 <= j < n && (#[trigger] s[j]).spec_minute_of_day() <= t
                    ==> s[j].spec_minute_of_day() <= p.0
        },
    decreases n,
{
    if n > 0 {
        lemma_best_upto(s, t, n - 1);
    }
}

/// The schedule rule selects the brightness of the schedule entry with the
/// greatest time of day at or before the query time, and yields nothing
/// exactly when no entry has happened yet.
pub proof fn lemma_schedule_selection(s: Seq<TimeSchedule>, t: int)
    ensures
        (spec_schedule_brightness(s, t) is None) <==> (forall|i: int|
            0 <= i < s.len() ==> (#[trigger] s[i]).spec_minute_of_day() > t),
        spec_schedule_brightness(s, t) matches Some(b) ==> exists|i: int|
            {
                &&& 0 <= i < s.len()
                &&& (#[trigger] s[i]).spec_minute_of_day() <= t
                &&& s[i].brightness == b
                &&& forall|j: int|
                    0 <= j < s.len() && (#[trigger] s[j]).spec_minute_of_day() <= t
                        ==> s[j].spec_minute_of_day() <= s[i].spec_minute_of_day()
            },
{
    lemma_best_upto(s, t, s.len() as int);
}

/// With no override, not fullscreen and not idle, the engine's result is the
/// schedule selection: the latest qualifying entry's brightness, or 0 when
/// none has happened yet.
pub proof fn lemma_time_rule(e: RuleEngine, ctx: SystemContext)
    requires
        e.manual_override is None,
        !ctx.is_fullscreen,
        !ctx.is_idle,
        e.config.spec_active() is Some,
    ensures
        ({
            let s = e.config.spec_active()->0.time_schedules@;
            let t = ctx.current_time.spec_minute_of_day();
            &&& ((forall|i: int| 0 <= i < s.len() ==> (#[trigger] s[i]).spec_minute_of_day() > t)
                ==> e.spec_evaluate(ctx) == 0)
            &&& ((exists|i: int|
                0 <= i < s.len() && (#[trigger] s[i]).spec_minute_of_day() <= t) ==> exists|i: int|
                {
                    &&& 0 <= i < s.len()
                    &&& (#[trigger] s[i]).spec_minute_of_day() <= t
                    &&& s[i].brightness == e.spec_evaluate(ctx)
                    &&& forall|j: int|
                        0 <= j < s.len() && (#[trigger] s[j]).spec_minute_of_day() <= t
                            ==> s[j].spec_minute_of_day() <= s[i].spec_minute_of_day()
                })
        }),
{
    let s = e.config.spec_active()->0.time_schedules@;
    let t = ctx.current_time.spec_minute_of_day();
    lemma_schedule_selection(s, t);
}

} // verus!
