//! Configuration model: named profiles with time schedules, WiFi bindings
//! and flags, plus the validation rules that every configuration must meet
//! before the daemon acts on it. Profiles are kept in a vector ordered as
//! loaded; validation guarantees that profile names are unique, so the
//! vector behaves as a map keyed by name.

use vstd::prelude::*;
use vstd::string::StringExecFns;
use crate::error::Error;
use crate::text::str_eq;

verus! {

/// One schedule entry: from this time of day on, use this brightness.
#[derive(Debug, Clone, Copy, PartialEq, Eq, Structural)]
pub struct TimeSchedule {
    pub hour: u8,
    pub minute: u8,
    pub brightness: u32,
}

impl TimeSchedule {
    /// Minutes since midnight of this entry.
    pub open spec fn spec_minute_of_day(self) -> int {
        self.hour * 60 + self.minute
    }

    /// A schedule entry is valid when it names a real time of day.
    pub open spec fn spec_valid(self) -> bool {
        self.hour <= 23 && self.minute <= 59
    }

    /// Minutes since midnight of this entry.
    pub fn minute_of_day(&self) -> (r: u32)
        ensures
            r == self.spec_minute_of_day(),
    {
        (self.hour as u32) * 60 + (self.minute as u32)
    }
}

/// A named bundle of automation rules, selectable by location or by command.
#[derive(Debug, Clone)]
pub struct LocationProfile {
    pub name: String,
    pub idle_timeout: u64,
    pub time_schedules: Vec<TimeSchedule>,
    pub video_detection_enabled: bool,
    pub wifi_networks: Vec<String>,
    pub ac_always_on: bool,
}

impl LocationProfile {
    /// A profile is valid when its idle timeout is positive and every
    /// schedule entry names a real time of day.
    pub open spec fn spec_valid(self) -> bool {
        &&& self.idle_timeout > 0
        &&& forall|i: int|
            0 <= i < self.time_schedules@.len() ==> (#[trigger] self.time_schedules@[i]).spec_valid()
    }
}

/// The names of the profiles, in list order.
pub open spec fn profile_names(s: Seq<LocationProfile>) -> Seq<Seq<char>> {
    Seq::new(s.len(), |i: int| s[i].name@)
}

/// No two entries of the sequence are equal.
pub open spec fn distinct_seq<A>(s: Seq<A>) -> bool {
    forall|i: int, j: int| 0 <= i < j < s.len() ==> s[i] != s[j]
}

/// First profile with the given name, searching from index `i`.
pub open spec fn find_from(s: Seq<LocationProfile>, name: Seq<char>, i: int) -> Option<
    LocationProfile,
>
    decreases s.len() - i,
{
    if i < 0 || i >= s.len() {
        None
    } else if s[i].name@ == name {
        Some(s[i])
    } else {
        find_from(s, name, i + 1)
    }
}

/// First profile with the given name.
pub open spec fn find_in(s: Seq<LocationProfile>, name: Seq<char>) -> Option<LocationProfile> {
    find_from(s, name, 0)
}

/// The (SSID, profile name) pairs of one profile, in list order.
pub open spec fn profile_mappings(p: LocationProfile) -> Seq<(String, String)> {
    Seq::new(p.wifi_networks@.len(), |k: int| (p.wifi_networks@[k], p.name))
}

/// The (SSID, profile name) pairs of the first `n` profiles, in list order.
pub open spec fn mappings_upto(s: Seq<LocationProfile>, n: int) -> Seq<(String, String)>
    decreases n,
{
    if n <= 0 {
        Seq::empty()
    } else {
        mappings_upto(s, n - 1) + profile_mappings(s[n - 1])
    }
}

/// All (SSID, profile name) pairs of the configuration, in list order.
pub open spec fn all_mappings(s: Seq<LocationProfile>) -> Seq<(String, String)> {
    mappings_upto(s, s.len() as int)
}

/// All SSIDs bound by any profile, in list order.
pub open spec fn all_wifi(s: Seq<LocationProfile>) -> Seq<Seq<char>> {
    Seq::new(all_mappings(s).len(), |i: int| all_mappings(s)[i].0@)
}

/// First mapping for the given SSID, searching from index `i`.
pub open spec fn lookup_from(m: Seq<(String, String)>, ssid: Seq<char>, i: int) -> Option<
    Seq<char>,
>
    decreases m.len() - i,
{
    if i < 0 || i >= m.len() {
        None
    } else if m[i].0@ == ssid {
        Some(m[i].1@)
    } else {
        lookup_from(m, ssid, i + 1)
    }
}

/// The profile name bound to the given SSID, if any.
pub open spec fn spec_profile_for_ssid(s: Seq<LocationProfile>, ssid: Seq<char>) -> Option<
    Seq<char>,
> {
    lookup_from(all_mappings(s), ssid, 0)
}

/// Two profile lists with pointwise equal names agree on which names can be
/// found.
pub proof fn lemma_find_from_same_names(
    a: Seq<LocationProfile>,
    b: Seq<LocationProfile>,
    name: Seq<char>,
    k: int,
)
    requires
        a.len() == b.len(),
        forall|j: int| 0 <= j < a.len() ==> (#[trigger] a[j]).name == b[j].name,
    ensures
        (find_from(a, name, k) is Some) == (find_from(b, name, k) is Some),
    decreases a.len() - k,
{
    if 0 <= k < a.len() {
        lemma_find_from_same_names(a, b, name, k + 1);
    }
}

/// Two profile lists with pointwise equal names and WiFi bindings have the
/// same location mappings.
pub proof fn lemma_mappings_upto_same_bindings(
    a: Seq<LocationProfile>,
    b: Seq<LocationProfile>,
    n: int,
)
    requires
        a.len() == b.len(),
        0 <= n <= a.len(),
        forall|j: int|
            0 <= j < a.len() ==> (#[trigger] a[j]).name == b[j].name && a[j].wifi_networks
                == b[j].wifi_networks,
    ensures
        mappings_upto(a, n) =~= mappings_upto(b, n),
    decreases n,
{
    if n > 0 {
        lemma_mappings_upto_same_bindings(a, b, n - 1);
        assert(profile_mappings(a[n - 1]) =~= profile_mappings(b[n - 1]));
    }
}

/// The whole configuration: all profiles, the active selection, and whether
/// location-based switching is on.
#[derive(Debug, Clone)]
pub struct Config {
    pub profiles: Vec<LocationProfile>,
    pub active_profile: String,
    pub auto_switch_location: bool,
}

impl Config {
    /// A configuration is valid when there is at least one profile, the
    /// active name refers to one of them, profile names are unique, no SSID
    /// is bound by two entries, and every profile is itself valid.
    pub open spec fn spec_valid(self) -> bool {
        &&& self.profiles@.len() > 0
        &&& find_in(self.profiles@, self.active_profile@) is Some
        &&& distinct_seq(profile_names(self.profiles@))
        &&& distinct_seq(all_wifi(self.profiles@))
        &&& forall|i: int|
            0 <= i < self.profiles@.len() ==> (#[trigger] self.profiles@[i]).spec_valid()
    }

    /// The profile the active name refers to, when present.
    pub open spec fn spec_active(self) -> Option<LocationProfile> {
        find_in(self.profiles@, self.active_profile@)
    }

    /// Look a profile up by name; returns the first (under a valid
    /// configuration, the only) profile of that name.
    pub fn find_profile<'a>(&'a self, name: &str) -> (r: Option<&'a LocationProfile>)
        ensures
            match r {
                Some(p) => find_in(self.profiles@, name@) == Some(*p),
                None => find_in(self.profiles@, name@) is None,
            },
    {
        let n: usize = self.profiles.len();
        let mut i: usize = 0;
        while i < n
            invariant
                n == self.profiles@.len(),
                i <= n,
                find_in(self.profiles@, name@) == find_from(self.profiles@, name@, i as int),
            decreases n - i,
        {
            if str_eq(self.profiles[i].name.as_str(), name) {
                return Some(&self.profiles[i]);
            }
            i = i + 1;
        }
        None
    }

    /// The active profile's data, when the active name is bound.
    pub fn active(&self) -> (r: Option<&LocationProfile>)
        ensures
            match r {
                Some(p) => self.spec_active() == Some(*p),
                None => self.spec_active() is None,
            },
    {
        self.find_profile(self.active_profile.as_str())
    }

    /// All profile names, in list order.
    pub fn profile_name_list(&self) -> (r: Vec<String>)
        ensures
            r@.len() == self.profiles@.len(),
            forall|j: int| 0 <= j < r@.len() ==> (#[trigger] r@[j])@ == self.profiles@[j].name@,
    {
        let n: usize = self.profiles.len();
        let mut out: Vec<String> = Vec::new();
        let mut i: usize = 0;
        while i < n
            invariant
                n == self.profiles@.len(),
                i <= n,
                out@.len() == i,
                forall|j: int| 0 <= j < i ==> out@[j]@ == self.profiles@[j].name@,
            decreases n - i,
        {
            out.push(self.profiles[i].name.clone());
            i = i + 1;
        }
        out
    }

    /// All (SSID, profile name) pairs, in list order.
    pub fn build_location_mappings(&self) -> (r: Vec<(String, String)>)
        ensures
            r@ =~= all_mappings(self.profiles@),
    {
        let n: usize = self.profiles.len();
        let mut out: Vec<(String, String)> = Vec::new();
        let mut i: usize = 0;
        while i < n
            invariant
                n == self.profiles@.len(),
                i <= n,
                out@ =~= mappings_upto(self.profiles@, i as int),
            decreases n - i,
        {
            let m: usize = self.profiles[i].wifi_networks.len();
            let mut k: usize = 0;
            while k < m
                invariant
                    n == self.profiles@.len(),
                    i < n,
                    m == self.profiles@[i as int].wifi_networks@.len(),
                    k <= m,
                    out@ =~= mappings_upto(self.profiles@, i as int) + profile_mappings(
                        self.profiles@[i as int],
                    ).take(k as int),
                decreases m - k,
            {
                let ssid = self.profiles[i].wifi_networks[k].clone();
                let pname = self.profiles[i].name.clone();
                out.push((ssid, pname));
                proof {
                    assert(profile_mappings(self.profiles@[i as int]).take(k as int + 1)
                        =~= profile_mappings(self.profiles@[i as int]).take(k as int).push(
                        (ssid, pname),
                    ));
                    assert(out@ =~= mappings_upto(self.profiles@, i as int) + profile_mappings(
                        self.profiles@[i as int],
                    ).take(k as int + 1));
                }
                k = k + 1;
            }
            proof {
                assert(profile_mappings(self.profiles@[i as int]).take(m as int)
                    =~= profile_mappings(self.profiles@[i as int]));
                assert(out@ =~= mappings_upto(self.profiles@, i as int + 1));
            }
            i = i + 1;
        }
        out
    }

    /// The profile name bound to the given SSID, if any.
    pub fn profile_for_ssid(&self, ssid: &str) -> (r: Option<String>)
        ensures
            match r {
                Some(name) => spec_profile_for_ssid(self.profiles@, ssid@) == Some(name@),
                None => spec_profile_for_ssid(self.profiles@, ssid@) is None,
            },
    {
        let maps = self.build_location_mappings();
        let ghost sm = all_mappings(self.profiles@);
        let n: usize = maps.len();
        let mut i: usize = 0;
        while i < n
            invariant
                n == maps@.len(),
                i <= n,
                maps@ =~= sm,
                sm == all_mappings(self.profiles@),
                lookup_from(sm, ssid@, 0) == lookup_from(sm, ssid@, i as int),
            decreases n - i,
        {
            if str_eq(maps[i].0.as_str(), ssid) {
                return Some(maps[i].1.clone());
            }
            i = i + 1;
        }
        None
    }

    /// What it means for the new profile list to be the old one with one
    /// schedule entry appended to the profile at index `i`.
    pub open spec fn schedule_added_at(
        old_profiles: Seq<LocationProfile>,
        new_profiles: Seq<LocationProfile>,
        i: int,
        schedule: TimeSchedule,
    ) -> bool {
        &&& new_profiles.len() == old_profiles.len()
        &&& new_profiles[i].name == old_profiles[i].name
        &&& new_profiles[i].idle_timeout == old_profiles[i].idle_timeout
        &&& new_profiles[i].video_detection_enabled == old_profiles[i].video_detection_enabled
        &&& new_profiles[i].wifi_networks == old_profiles[i].wifi_networks
        &&& new_profiles[i].ac_always_on == old_profiles[i].ac_always_on
        &&& new_profiles[i].time_schedules@ == old_profiles[i].time_schedules@.push(schedule)
        &&& forall|j: int|
            0 <= j < old_profiles.len() && j != i ==> new_profiles[j] == old_profiles[j]
    }

    /// Append a schedule entry to the named profile. Returns whether the
    /// profile exists; nothing changes when it does not.
    pub fn push_schedule(&mut self, name: &str, schedule: TimeSchedule) -> (r: bool)
        ensures
            old(self).active_profile == final(self).active_profile,
            old(self).auto_switch_location == final(self).auto_switch_location,
            r == (find_in(old(self).profiles@, name@) is Some),
            !r ==> *final(self) == *old(self),
            r ==> exists|i: int|
                {
                    &&& 0 <= i < old(self).profiles@.len()
                    &&& find_in(old(self).profiles@, name@) == Some(old(self).profiles@[i])
                    &&& Config::schedule_added_at(
                        old(self).profiles@,
                        final(self).profiles@,
                        i,
                        schedule,
                    )
                },
    {
        let n: usize = self.profiles.len();
        let mut i: usize = 0;
        while i < n
            invariant
                n == self.profiles@.len(),
                i <= n,
                *self == *old(self),
                find_in(self.profiles@, name@) == find_from(self.profiles@, name@, i as int),
            decreases n - i,
        {
            if str_eq(self.profiles[i].name.as_str(), name) {
                let ghost idx: int = i as int;
                let target: &mut LocationProfile = &mut self.profiles[i];
                target.time_schedules.push(schedule);
                proof {
                    assert(self.profiles@[idx].time_schedules@ == old(
                        self,
                    ).profiles@[idx].time_schedules@.push(schedule));
                    assert(Config::schedule_added_at(
                        old(self).profiles@,
                        self.profiles@,
                        idx,
                        schedule,
                    ));
                }
                return true;
            }
            i = i + 1;
        }
        false
    }

    /// Check the whole configuration; `Ok` exactly when it is valid.
    pub fn validate(&self) -> (r: Result<(), Error>)
        ensures
            r is Ok <==> self.spec_valid(),
            r is Err ==> r->Err_0 matches Error::ConfigValidation(_),
    {
        if self.profiles.len() == 0 {
            return Err(Error::ConfigValidation(
                "Configuration must have at least one profile".to_owned(),
            ));
        }
        if self.find_profile(self.active_profile.as_str()).is_none() {
            let mut m = "Active profile '".to_owned();
            m.append(self.active_profile.as_str());
            m.append("' not found in profiles");
            return Err(Error::ConfigValidation(m));
        }
        if let Some(dup) = self.first_duplicate_name() {
            let mut m = "Duplicate profile name '".to_owned();
            m.append(dup.as_str());
            m.append("'");
            return Err(Error::ConfigValidation(m));
        }
        if let Some(dup) = self.first_duplicate_wifi() {
            let mut m = "WiFi network '".to_owned();
            m.append(dup.as_str());
            m.append("' is assigned to multiple profiles");
            return Err(Error::ConfigValidation(m));
        }
        let n: usize = self.profiles.len();
        let mut i: usize = 0;
        while i < n
            invariant
                n == self.profiles@.len(),
                i <= n,
                forall|j: int| 0 <= j < i ==> (#[trigger] self.profiles@[j]).spec_valid(),
            decreases n - i,
        {
            let p = &self.profiles[i];
            if p.idle_timeout == 0 {
                let mut m = "Profile '".to_owned();
                m.append(p.name.as_str());
                m.append("' has idle_timeout of 0; use a positive value");
                return Err(Error::ConfigValidation(m));
            }
            let sn: usize = p.time_schedules.len();
            let mut k: usize = 0;
            while k < sn
                invariant
                    n == self.profiles@.len(),
                    i < n,
                    sn == self.profiles@[i as int].time_schedules@.len(),
                    k <= sn,
                    forall|l: int|
                        0 <= l < k ==> (#[trigger] self.profiles@[i as int].time_schedules@[l]).spec_valid(),
                decreases sn - k,
            {
                let s = self.profiles[i].time_schedules[k];
                if s.hour > 23 {
                    let mut m = "Profile '".to_owned();
                    m.append(self.profiles[i].name.as_str());
                    m.append("': Invalid hour (must be 0-23)");
                    return Err(Error::ConfigValidation(m));
                }
                if s.minute > 59 {
                    let mut m = "Profile '".to_owned();
                    m.append(self.profiles[i].name.as_str());
                    m.append("': Invalid minute (must be 0-59)");
                    return Err(Error::ConfigValidation(m));
                }
                k = k + 1;
            }
            i = i + 1;
        }
        Ok(())
    }

    /// The name of some profile that occurs twice, if any.
    fn first_duplicate_name(&self) -> (r: Option<String>)
        ensures
            r is None <==> distinct_seq(profile_names(self.profiles@)),
    {
        let n: usize = self.profiles.len();
        let mut i: usize = 0;
        while i < n
            invariant
                n == self.profiles@.len(),
                i <= n,
                forall|a: int, b: int|
                    0 <= a < b < i ==> profile_names(self.profiles@)[a] != profile_names(
                        self.profiles@,
                    )[b],
            decreases n - i,
        {
            let mut j: usize = 0;
            while j < i
                invariant
                    n == self.profiles@.len(),
                    i < n,
                    j <= i,
                    forall|b: int|
                        0 <= b < j ==> profile_names(self.profiles@)[b] != profile_names(
                            self.profiles@,
                        )[i as int],
                decreases i - j,
            {
                if str_eq(self.profiles[j].name.as_str(), self.profiles[i].name.as_str()) {
                    proof {
                        let names = profile_names(self.profiles@);
                        assert(names[j as int] == names[i as int]);
                        assert(!distinct_seq(names));
                    }
                    return Some(self.profiles[i].name.clone());
                }
                j = j + 1;
            }
            i = i + 1;
        }
        None
    }

    /// Some SSID bound by two entries, if any.
    fn first_duplicate_wifi(&self) -> (r: Option<String>)
        ensures
            r is None <==> distinct_seq(all_wifi(self.profiles@)),
    {
        let maps = self.build_location_mappings();
        let ghost w = all_wifi(self.profiles@);
        proof {
            assert(maps@.len() == w.len());
            assert(forall|a: int| 0 <= a < w.len() ==> maps@[a].0@ == w[a]);
        }
        let n: usize = maps.len();
        let mut i: usize = 0;
        while i < n
            invariant
                n == maps@.len(),
                n == w.len(),
                w == all_wifi(self.profiles@),
                forall|a: int| 0 <= a < w.len() ==> maps@[a].0@ == w[a],
                i <= n,
                forall|a: int, b: int| 0 <= a < b < i ==> w[a] != w[b],
            decreases n - i,
        {
            let mut j: usize = 0;
            while j < i
                invariant
                    n == maps@.len(),
                    n == w.len(),
                    w == all_wifi(self.profiles@),
                    forall|a: int| 0 <= a < w.len() ==> maps@[a].0@ == w[a],
                    i < n,
                    j <= i,
                    forall|b: int| 0 <= b < j ==> w[b] != w[i as int],
                decreases i - j,
            {
                if str_eq(maps[j].0.as_str(), maps[i].0.as_str()) {
                    proof {
                        assert(w[j as int] == w[i as int]);
                        assert(!distinct_seq(w));
                    }
                    return Some(maps[i].0.clone());
                }
                j = j + 1;
            }
            i = i + 1;
        }
        None
    }
}

/// Appending a valid schedule entry to one profile keeps the whole
/// configuration valid: names, WiFi bindings and the active selection are
/// untouched, and the new entry names a real time of day.
pub proof fn lemma_schedule_added_keeps_valid(
    old_cfg: Config,
    new_cfg: Config,
    i: int,
    s: TimeSchedule,
)
    requires
        old_cfg.spec_valid(),
        s.spec_valid(),
        0 <= i < old_cfg.profiles@.len(),
        Config::schedule_added_at(old_cfg.profiles@, new_cfg.profiles@, i, s),
        new_cfg.active_profile == old_cfg.active_profile,
    ensures
        new_cfg.spec_valid(),
{
    let a = old_cfg.profiles@;
    let b = new_cfg.profiles@;
    assert forall|j: int|
        0 <= j < a.len() implies (#[trigger] a[j]).name == b[j].name && a[j].wifi_networks
        == b[j].wifi_networks by {
        if j != i {
            assert(b[j] == a[j]);
        }
    }
    lemma_find_from_same_names(a, b, old_cfg.active_profile@, 0);
    lemma_mappings_upto_same_bindings(a, b, a.len() as int);
    assert(profile_names(b) =~= profile_names(a));
    assert(all_wifi(b) =~= all_wifi(a));
    assert forall|j: int| 0 <= j < b.len() implies (#[trigger] b[j]).spec_valid() by {
        if j != i {
            assert(b[j] == a[j]);
            assert(a[j].spec_valid());
        } else {
            assert(a[j].spec_valid());
            assert(b[j].idle_timeout == a[j].idle_timeout);
            assert(b[j].time_schedules@ == a[j].time_schedules@.push(s));
            assert forall|k: int|
                0 <= k < b[j].time_schedules@.len() implies (#[trigger] b[j].time_schedules@[k]).spec_valid() by {
                if k < a[j].time_schedules@.len() {
                    assert(b[j].time_schedules@[k] == a[j].time_schedules@[k]);
                    assert(a[j].time_schedules@[k].spec_valid());
                } else {
                    assert(b[j].time_schedules@[k] == s);
                }
            }
        }
    }
}

impl Default for Config {
    /// The built-in starting configuration: one "home" profile with a
    /// morning and an evening schedule, selected as active.
    fn default() -> (r: Config)
        ensures
            r.spec_valid(),
            r.active_profile@ == "home"@,
            r.auto_switch_location == false,
            r.profiles@.len() == 1,
            r.profiles@[0].name@ == "home"@,
            r.profiles@[0].idle_timeout == 30,
            r.profiles@[0].video_detection_enabled == true,
            r.profiles@[0].ac_always_on == false,
            r.profiles@[0].wifi_networks@.len() == 0,
            r.profiles@[0].time_schedules@ =~= seq![
                (TimeSchedule { hour: 9, minute: 0, brightness: 1 }),
                (TimeSchedule { hour: 22, minute: 0, brightness: 0 }),
            ],
    {
        let mut schedules: Vec<TimeSchedule> = Vec::new();
        schedules.push(TimeSchedule { hour: 9, minute: 0, brightness: 1 });
        schedules.push(TimeSchedule { hour: 22, minute: 0, brightness: 0 });
        let profile = LocationProfile {
            name: "home".to_owned(),
            idle_timeout: 30,
            time_schedules: schedules,
            video_detection_enabled: true,
            wifi_networks: Vec::new(),
            ac_always_on: false,
        };
        let mut profiles: Vec<LocationProfile> = Vec::new();
        profiles.push(profile);
        let r = Config {
            profiles,
            active_profile: "home".to_owned(),
            auto_switch_location: false,
        };
        proof {
            assert(mappings_upto(r.profiles@, 0) =~= Seq::<(String, String)>::empty());
            assert(all_mappings(r.profiles@) =~= profile_mappings(r.profiles@[0]));
            assert(all_wifi(r.profiles@).len() == 0);
            assert(r.spec_valid());
        }
        r
    }
}

} // verus!
