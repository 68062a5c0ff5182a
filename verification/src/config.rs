//! The configuration: which clocks to show and how, as read from and written
//! to the configuration file.
use crate::clock::{clock_name, Clock, ClockView};
use crate::text::{ascii_lower_seq, is_text, lowercase_of, to_lowercase};
use crate::time::{tz_from_str, tz_lookup, tz_name, tz_name_of};
use vstd::prelude::*;

verus! {

/// The configuration as the file holds it: the names of the clocks' zones
/// (`local` for the system's local time) and the two display settings.
pub struct SavedConfig {
    pub clocks: Vec<String>,
    pub am_pm: bool,
    pub revert: bool,
}

/// The configuration the program runs with: one entry per clock, `None` for
/// the system's local time.
pub struct Configuration {
    pub clocks: Vec<Option<chrono_tz::Tz>>,
    pub am_pm: bool,
    pub revert: bool,
}

/// The names of the saved clocks.
pub open spec fn names_of(v: Seq<String>) -> Seq<Seq<char>> {
    v.map_values(|s: String| s@)
}

/// `s` written in lower case is `local`: for an ASCII name, with every
/// capital made small; for another, as `str::to_lowercase` writes it.
pub open spec fn reads_as_local(s: Seq<char>) -> bool {
    if vstd::utf8::is_ascii_chars(s) {
        ascii_lower_seq(s) == "local"@
    } else {
        lowercase_of(s) == "local"@
    }
}

/// What a saved name stands for: `Some(None)` for the local time,
/// `Some(Some(tz))` for a zone of the tz database, `None` for a name that is
/// neither and is left out.
pub open spec fn zone_entry(s: Seq<char>) -> Option<Option<chrono_tz::Tz>> {
    if reads_as_local(s) {
        Some(None)
    } else {
        match tz_lookup(s) {
            Some(tz) => Some(Some(tz)),
            None => None,
        }
    }
}

/// The clocks of a list of saved names, in order, without the names that
/// stand for nothing.
pub open spec fn parsed_zones(names: Seq<Seq<char>>) -> Seq<Option<chrono_tz::Tz>>
    decreases names.len(),
{
    if names.len() == 0 {
        Seq::empty()
    } else {
        let p = parsed_zones(names.drop_last());
        match zone_entry(names.last()) {
            Some(z) => p.push(z),
            None => p,
        }
    }
}

/// The saved names that stand for nothing, in order.
pub open spec fn rejected_names(names: Seq<Seq<char>>) -> Seq<Seq<char>>
    decreases names.len(),
{
    if names.len() == 0 {
        Seq::empty()
    } else {
        let p = rejected_names(names.drop_last());
        match zone_entry(names.last()) {
            Some(_) => p,
            None => p.push(names.last()),
        }
    }
}

/// The name a clock is saved under.
pub open spec fn saved_name(z: Option<chrono_tz::Tz>) -> Seq<char> {
    match z {
        None => "local"@,
        Some(tz) => tz_name_of(tz),
    }
}

/// Reads the zone names of the configuration: `local` in any case is the
/// system's local time, a name of the tz database is that zone, and any
/// other name is left out and returned apart, to be reported.
pub fn parse_timezones(timezones: &Vec<String>) -> (r: (Vec<Option<chrono_tz::Tz>>, Vec<String>))
    ensures
        r.0@ == parsed_zones(names_of(timezones@)),
        names_of(r.1@) == rejected_names(names_of(timezones@)),
{
    let mut a: Vec<Option<chrono_tz::Tz>> = Vec::new();
    let mut rejected: Vec<String> = Vec::new();
    let n = timezones.len();
    let mut k: usize = 0;
    while k < n
        invariant
            n == timezones@.len(),
            0 <= k <= n,
            a@ == parsed_zones(names_of(timezones@).take(k as int)),
            names_of(rejected@) == rejected_names(names_of(timezones@).take(k as int)),
        decreases n - k,
    {
        let x = &timezones[k];
        let ghost names = names_of(timezones@);
        assert(names.take(k as int + 1).drop_last() =~= names.take(k as int));
        assert(names.take(k as int + 1).last() == x@);
        let lower = to_lowercase(x.as_str());
        if is_text(&lower, "local") {
            a.push(None);
        } else {
            match tz_from_str(x.as_str()) {
                Some(t) => {
                    a.push(Some(t));
                },
                None => {
                    let ghost before = names_of(rejected@);
                    rejected.push(x.clone());
                    assert(names_of(rejected@) =~= before.push(x@));
                },
            }
        }
        k = k + 1;
    }
    assert(names_of(timezones@).take(n as int) =~= names_of(timezones@));
    (a, rejected)
}

/// The configuration written when the file cannot be read as one: a single
/// clock on local time, 24 hours, normal colors.
pub fn default_config() -> (c: SavedConfig)
    ensures
        names_of(c.clocks@) == seq!["local"@],
        !c.am_pm,
        !c.revert,
{
    let mut clocks: Vec<String> = Vec::new();
    clocks.push(String::from_str("local"));
    assert(names_of(clocks@) =~= seq!["local"@]);
    SavedConfig { clocks, am_pm: false, revert: false }
}

/// The configuration to start from: the one read from the file, or, when
/// the file did not hold one, the default configuration, which is then to
/// be written to the file (the second part of the result says so).
pub fn choose_saved_config(parsed: Option<SavedConfig>) -> (r: (SavedConfig, bool))
    ensures
        match parsed {
            Some(s) => r.0 == s && !r.1,
            None => names_of(r.0.clocks@) == seq!["local"@] && !r.0.am_pm && !r.0.revert && r.1,
        },
{
    match parsed {
        Some(s) => (s, false),
        None => (default_config(), true),
    }
}

/// The configuration of a saved one: its zones read by `parse_timezones`
/// (the names left out are returned apart) and its settings as they are.
pub fn load_config(saved: &SavedConfig) -> (r: (Configuration, Vec<String>))
    ensures
        r.0.clocks@ == parsed_zones(names_of(saved.clocks@)),
        r.0.am_pm == saved.am_pm,
        r.0.revert == saved.revert,
        names_of(r.1@) == rejected_names(names_of(saved.clocks@)),
{
    let (clocks, rejected) = parse_timezones(&saved.clocks);
    (Configuration { clocks, am_pm: saved.am_pm, revert: saved.revert }, rejected)
}

/// What is written back to the file on leaving: the clocks' names
/// (`local` for the local time) and the settings in use.  Reading it back
/// gives the same clocks and leaves no name out.
pub fn save_config(config: &Configuration, am_pm: bool, revert: bool) -> (s: SavedConfig)
    ensures
        names_of(s.clocks@) == config.clocks@.map_values(|z: Option<chrono_tz::Tz>| saved_name(z)),
        s.am_pm == am_pm,
        s.revert == revert,
        parsed_zones(names_of(s.clocks@)) == config.clocks@,
        rejected_names(names_of(s.clocks@)) == Seq::<Seq<char>>::empty(),
{
    let mut converted: Vec<String> = Vec::new();
    let n = config.clocks.len();
    let mut k: usize = 0;
    proof {
        reveal_strlit("local");
        assert(ascii_lower_seq("local"@) =~= "local"@);
    }
    while k < n
        invariant
            n == config.clocks@.len(),
            0 <= k <= n,
            ascii_lower_seq("local"@) == "local"@,
            vstd::utf8::is_ascii_chars("local"@),
            names_of(converted@) == config.clocks@.take(k as int).map_values(|z: Option<chrono_tz::Tz>| saved_name(z)),
            parsed_zones(names_of(converted@)) == config.clocks@.take(k as int),
            rejected_names(names_of(converted@)) == Seq::<Seq<char>>::empty(),
        decreases n - k,
    {
        let ghost before = names_of(converted@);
        let name = match config.clocks[k] {
            None => String::from_str("local"),
            Some(tz) => tz_name(tz),
        };
        converted.push(name);
        proof {
            assert(names_of(converted@) =~= before.push(saved_name(config.clocks@[k as int])));
            assert(names_of(converted@).drop_last() =~= before);
            assert(zone_entry(saved_name(config.clocks@[k as int])) == Some(config.clocks@[k as int]));
            assert(config.clocks@.take(k as int + 1) =~= config.clocks@.take(k as int).push(config.clocks@[k as int]));
            assert(config.clocks@.take(k as int + 1).map_values(|z: Option<chrono_tz::Tz>| saved_name(z)) =~= config.clocks@.take(k as int).map_values(|z: Option<chrono_tz::Tz>| saved_name(z)).push(saved_name(config.clocks@[k as int])));
        }
        k = k + 1;
    }
    assert(config.clocks@.take(n as int) =~= config.clocks@);
    SavedConfig { clocks: converted, am_pm, revert }
}

/// One clock per configured zone, in order, with the configuration's
/// settings.
pub fn create_instances(config: &Configuration) -> (clocks: Vec<Clock>)
    ensures
        clocks@.len() == config.clocks@.len(),
        forall|i: int| 0 <= i < clocks@.len() ==> (#[trigger] clocks@[i])@ == (ClockView {
            timezone: config.clocks@[i],
            am_pm: config.am_pm,
            name: clock_name(config.clocks@[i]),
            revert: config.revert,
        }),
{
    let mut v: Vec<Clock> = Vec::new();
    let n = config.clocks.len();
    let mut k: usize = 0;
    while k < n
        invariant
            n == config.clocks@.len(),
            0 <= k <= n,
            v@.len() == k,
            forall|i: int| 0 <= i < k ==> (#[trigger] v@[i])@ == (ClockView {
                timezone: config.clocks@[i],
                am_pm: config.am_pm,
                name: clock_name(config.clocks@[i]),
                revert: config.revert,
            }),
        decreases n - k,
    {
        v.push(Clock::new(config.clocks[k], config.am_pm, config.revert));
        k = k + 1;
    }
    v
}

} // verus!
