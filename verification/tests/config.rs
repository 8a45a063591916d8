use rustweb::role::{page_cache_bytes, Job, Role, BYTES_PER_MEGABYTE};
use rustweb::settings::{
    Options, Settings, SettingsError, DEFAULT_CACHE_MEGABYTES, DEFAULT_DOS_COUNT, DEFAULT_DOS_CPU,
    DEFAULT_DOS_READ, DEFAULT_DOS_WRITE,
};
use rustweb::usage::Usage;

#[test]
fn no_source_means_master() {
    assert_eq!(Role::from_source(""), Role::Master);
    assert!(Role::from_source("").is_master());
}

#[test]
fn a_source_means_replica() {
    assert_eq!(Role::from_source("http://master:3000"), Role::Replica);
    assert_eq!(Role::from_source(" "), Role::Replica);
    assert!(!Role::Replica.is_master());
}

#[test]
fn master_runs_the_jobs_with_outward_effects() {
    assert!(Role::Master.runs(Job::Notifications));
    assert!(Role::Master.runs(Job::Wakeups));
    assert!(!Role::Master.runs(Job::Sync));
    assert!(Role::Master.runs(Job::Decay));
}

#[test]
fn replica_only_follows_and_decays() {
    assert!(!Role::Replica.runs(Job::Notifications));
    assert!(!Role::Replica.runs(Job::Wakeups));
    assert!(Role::Replica.runs(Job::Sync));
    assert!(Role::Replica.runs(Job::Decay));
}

#[test]
fn only_the_master_initialises_a_new_database() {
    assert_eq!(Role::Master.init_script("CREATE SCHEMA web"), "CREATE SCHEMA web");
    assert_eq!(Role::Replica.init_script("CREATE SCHEMA web"), "");
}

#[test]
fn page_cache_budget_is_in_millions_of_bytes() {
    assert_eq!(BYTES_PER_MEGABYTE, 1_000_000);
    assert_eq!(page_cache_bytes(0), Some(0));
    assert_eq!(page_cache_bytes(1), Some(1_000_000));
    assert_eq!(page_cache_bytes(100), Some(100_000_000));
}

#[test]
fn page_cache_budget_that_does_not_fit_is_none() {
    assert_eq!(page_cache_bytes(usize::MAX), None);
    assert_eq!(page_cache_bytes(usize::MAX / 1_000_000 + 1), None);
    assert_eq!(
        page_cache_bytes(usize::MAX / 1_000_000),
        Some(usize::MAX / 1_000_000 * 1_000_000)
    );
}

#[test]
fn defaults_are_those_of_a_master_on_every_address() {
    let o = Options::with_port(8080);
    assert_eq!(o.port, 8080);
    assert_eq!(o.ip, "0.0.0.0");
    assert_eq!((o.dos_count, o.dos_read, o.dos_cpu, o.dos_write), (1000, 1_000_000_000_000, 100_000, 1_000_000_000_000));
    assert_eq!(
        (DEFAULT_DOS_COUNT, DEFAULT_DOS_READ, DEFAULT_DOS_CPU, DEFAULT_DOS_WRITE),
        (o.dos_count, o.dos_read, o.dos_cpu, o.dos_write)
    );
    assert_eq!(o.mem, 100);
    assert_eq!(DEFAULT_CACHE_MEGABYTES, 100);
    assert_eq!(o.rep, "");
    assert_eq!(o.login, "");
    assert!(!o.tracetime && !o.tracemem && !o.tracedos);
}

#[test]
fn settings_of_a_master() {
    let s = Settings::from_options(Options::with_port(80)).unwrap();
    assert_eq!(s.role, Role::Master);
    assert_eq!(s.replicate_source, "");
    assert_eq!(s.replicate_credentials, "");
    assert_eq!(s.dos_limit, Usage::new(1000, 1_000_000_000_000, 100_000, 1_000_000_000_000));
    assert_eq!(s.cache_bytes, 100_000_000);
    assert!(!s.trace_time && !s.trace_memory && !s.trace_dos);
}

#[test]
fn settings_of_a_replica() {
    let mut o = Options::with_port(81);
    o.rep = "http://master:80".to_string();
    o.login = "uid=1; hpw=abc".to_string();
    o.dos_count = 5;
    o.dos_read = 6;
    o.dos_cpu = 7;
    o.dos_write = 8;
    o.mem = 2;
    o.tracetime = true;
    o.tracedos = true;
    let s = Settings::from_options(o).unwrap();
    assert_eq!(s.role, Role::Replica);
    assert_eq!(s.replicate_source, "http://master:80");
    assert_eq!(s.replicate_credentials, "uid=1; hpw=abc");
    assert_eq!(s.dos_limit, Usage::new(5, 6, 7, 8));
    assert_eq!(s.cache_bytes, 2_000_000);
    assert!(s.trace_time && !s.trace_memory && s.trace_dos);
}

#[test]
fn port_zero_is_refused() {
    assert_eq!(Settings::from_options(Options::with_port(0)).err(), Some(SettingsError::NoPort));
}

#[test]
fn a_cache_budget_that_does_not_fit_is_refused() {
    let mut o = Options::with_port(80);
    o.mem = usize::MAX / 1000;
    assert_eq!(Settings::from_options(o).err(), Some(SettingsError::CacheTooLarge));
    // the port is looked at first
    let mut o = Options::with_port(0);
    o.mem = usize::MAX;
    assert_eq!(Settings::from_options(o).err(), Some(SettingsError::NoPort));
}
