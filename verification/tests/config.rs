use chrono_tz::Tz;
use clockery::config::{choose_saved_config, create_instances, default_config, load_config, parse_timezones, save_config, Configuration, SavedConfig};

fn names(v: &[&str]) -> Vec<String> {
    v.iter().map(|s| s.to_string()).collect()
}

#[test]
fn zone_names_are_read() {
    let (zones, rejected) = parse_timezones(&names(&["local", "LOCAL", "Asia/Tokyo", "Nowhere/City", "Local", "asia/tokyo"]));
    assert_eq!(zones, vec![None, None, Some(Tz::Asia__Tokyo), None]);
    assert_eq!(rejected, names(&["Nowhere/City", "asia/tokyo"]));
}

#[test]
fn empty_list_reads_as_no_clock() {
    let (zones, rejected) = parse_timezones(&Vec::new());
    assert!(zones.is_empty());
    assert!(rejected.is_empty());
}

#[test]
fn default_configuration() {
    let d = default_config();
    assert_eq!(d.clocks, names(&["local"]));
    assert!(!d.am_pm);
    assert!(!d.revert);
    let (c, rejected) = load_config(&d);
    assert_eq!(c.clocks, vec![None]);
    assert!(rejected.is_empty());
}

#[test]
fn loading_keeps_the_settings() {
    let saved = SavedConfig { clocks: names(&["Europe/Paris", "bad", "local"]), am_pm: true, revert: false };
    let (c, rejected) = load_config(&saved);
    assert_eq!(c.clocks, vec![Some(Tz::Europe__Paris), None]);
    assert!(c.am_pm);
    assert!(!c.revert);
    assert_eq!(rejected, names(&["bad"]));
}

#[test]
fn saving_then_loading_gives_the_clocks_back() {
    let config = Configuration {
        clocks: vec![None, Some(Tz::America__New_York), Some(Tz::Etc__GMTPlus5), None, Some(Tz::UTC)],
        am_pm: false,
        revert: true,
    };
    let saved = save_config(&config, true, false);
    assert_eq!(saved.clocks, names(&["local", "America/New_York", "Etc/GMT+5", "local", "UTC"]));
    assert!(saved.am_pm);
    assert!(!saved.revert);
    let (back, rejected) = load_config(&saved);
    assert_eq!(back.clocks, config.clocks);
    assert!(rejected.is_empty());
}

#[test]
fn one_clock_per_zone() {
    let config = Configuration { clocks: vec![Some(Tz::Asia__Bangkok), None], am_pm: true, revert: false };
    let clocks = create_instances(&config);
    assert_eq!(clocks.len(), 2);
    assert_eq!(clocks[0].name(), "Asia/Bangkok");
    assert_eq!(clocks[1].name(), "Local");
    assert!(clocks.iter().all(|c| c.am_pm() && !c.revert()));
}

#[test]
fn configuration_read_or_default() {
    let saved = SavedConfig { clocks: names(&["UTC"]), am_pm: true, revert: true };
    let (s, write) = choose_saved_config(Some(saved));
    assert_eq!(s.clocks, names(&["UTC"]));
    assert!(s.am_pm && s.revert);
    assert!(!write);
    let (s, write) = choose_saved_config(None);
    assert_eq!(s.clocks, names(&["local"]));
    assert!(!s.am_pm && !s.revert);
    assert!(write);
}
