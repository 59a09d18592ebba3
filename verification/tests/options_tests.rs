use meshcore::options::add_defaults;
use meshcore::options::get;
use meshcore::options::get_all;
use meshcore::options::parse_duration;
use meshcore::options::parse_size;
use meshcore::options::strip_quotes;
use meshcore::options::OptionsError;
use meshcore::options::Options;
use meshcore::options::BYTES_PER_GB;
use meshcore::options::BYTES_PER_KB;
use meshcore::options::BYTES_PER_MB;
use meshcore::options::NANOS_PER_DAY;
use meshcore::options::NANOS_PER_HOUR;
use meshcore::options::NANOS_PER_MICRO;
use meshcore::options::NANOS_PER_MILLI;
use meshcore::options::NANOS_PER_MINUTE;
use meshcore::options::NANOS_PER_SECOND;
use meshcore::options::{format_duration, format_size};

#[test]
fn test_add_defaults() {
    let mut fuzz_options = Options::empty();
    add_defaults(&mut fuzz_options);
    assert_eq!(fuzz_options.runs, Some(0));
    assert_eq!(fuzz_options.max_total_time, Some(0));
    assert_eq!(fuzz_options.seed, Some(0));
    assert_eq!(fuzz_options.max_input_size, Some(1 * BYTES_PER_MB));
    assert_eq!(fuzz_options.mutation_depth, Some(5));
    assert_eq!(fuzz_options.dictionary_level, Some(0));
    assert_eq!(fuzz_options.detect_exits, Some(false));
    assert_eq!(fuzz_options.detect_leaks, Some(false));
    assert_eq!(fuzz_options.run_limit, Some(20 * NANOS_PER_MINUTE));
    assert_eq!(fuzz_options.malloc_limit, Some(2 * BYTES_PER_GB));
    assert_eq!(fuzz_options.oom_limit, Some(2 * BYTES_PER_GB));
    assert_eq!(fuzz_options.purge_interval, Some(1 * NANOS_PER_SECOND));
    assert_eq!(fuzz_options.malloc_exitcode, Some(2000));
    assert_eq!(fuzz_options.death_exitcode, Some(2001));
    assert_eq!(fuzz_options.leak_exitcode, Some(2002));
    assert_eq!(fuzz_options.oom_exitcode, Some(2003));
    assert_eq!(fuzz_options.pulse_interval, Some(20 * NANOS_PER_SECOND));
    assert_eq!(fuzz_options.debug, Some(false));
}

#[test]
fn test_format_duration() {
    assert_eq!(format_duration(Some(1)), "\"1ns\"".to_string());
    assert_eq!(format_duration(Some(12 * NANOS_PER_MICRO)), "\"12us\"".to_string());
    assert_eq!(format_duration(Some(123 * NANOS_PER_MILLI)), "\"123ms\"".to_string());
    assert_eq!(format_duration(Some(1234 * NANOS_PER_SECOND)), "\"1234s\"".to_string());
    assert_eq!(format_duration(Some(20 * NANOS_PER_MINUTE)), "\"20m\"".to_string());
    assert_eq!(format_duration(Some(2 * NANOS_PER_HOUR)), "\"2h\"".to_string());
    assert_eq!(format_duration(Some(1 * NANOS_PER_DAY)), "\"1d\"".to_string());
}

#[test]
fn test_parse_duration() {
    assert_eq!(parse_duration("0").ok(), Some(0));
    assert_eq!(parse_duration("\"0\"").ok(), Some(0));
    assert_eq!(parse_duration("1").ok(), Some(1));
    assert_eq!(parse_duration("2ns").ok(), Some(2));
    assert_eq!(parse_duration("3us").ok(), Some(3 * NANOS_PER_MICRO));
    assert_eq!(parse_duration("4ms").ok(), Some(4 * NANOS_PER_MILLI));
    assert_eq!(parse_duration("5s").ok(), Some(5 * NANOS_PER_SECOND));
    assert_eq!(parse_duration("6m").ok(), Some(6 * NANOS_PER_MINUTE));
    assert_eq!(parse_duration("7h").ok(), Some(7 * NANOS_PER_HOUR));
    assert_eq!(parse_duration("8d").ok(), Some(8 * NANOS_PER_DAY));
    assert_eq!(parse_duration("\"8d\"").ok(), Some(8 * NANOS_PER_DAY));
    assert!(parse_duration("\"").is_err());
    assert!(parse_duration("9w").is_err());
    assert!(parse_duration("-10s").is_err());
    assert!(parse_duration("-11").is_err());
    assert!(parse_duration("").is_err());
}

#[test]
fn test_format_size() {
    assert_eq!(format_size(Some(0)), "0".to_string());
    assert_eq!(format_size(Some(1)), "\"1b\"".to_string());
    assert_eq!(format_size(Some(2 * BYTES_PER_KB)), "\"2kb\"".to_string());
    assert_eq!(format_size(Some(3 * BYTES_PER_MB)), "\"3mb\"".to_string());
    assert_eq!(format_size(Some(4 * BYTES_PER_GB)), "\"4gb\"".to_string());
}

#[test]
fn test_parse_size() {
    assert_eq!(parse_size("0").ok(), Some(0));
    assert_eq!(parse_size("\"0\"").ok(), Some(0));
    assert_eq!(parse_size("1").ok(), Some(1));
    assert_eq!(parse_size("2b").ok(), Some(2));
    assert_eq!(parse_size("33kb").ok(), Some(33 * BYTES_PER_KB));
    assert_eq!(parse_size("444mb").ok(), Some(444 * BYTES_PER_MB));
    assert_eq!(parse_size("5555gb").ok(), Some(5555 * BYTES_PER_GB));
    assert_eq!(parse_size("\"5555gb\"").ok(), Some(5555 * BYTES_PER_GB));
    assert!(parse_size("\"").is_err());
    assert!(parse_size("6tb").is_err());
    assert!(parse_size("-7mb").is_err());
    assert!(parse_size("-8").is_err());
    assert!(parse_size("").is_err());
}

#[test]
fn test_runs() {
    let mut fuzz_options = Options::empty();
    assert!(meshcore::options::set(&mut fuzz_options, "runs", "0").is_ok());
    assert_eq!(fuzz_options.runs, Some(0));
    assert_eq!(get(&fuzz_options, "runs").unwrap(), "0");
    assert!(meshcore::options::set(&mut fuzz_options, "runs", "1").is_ok());
    assert_eq!(fuzz_options.runs, Some(1));
    assert_eq!(get(&fuzz_options, "runs").unwrap(), "1");
    assert!(meshcore::options::set(&mut fuzz_options, "runs", "-1").is_err());
    assert!(meshcore::options::set(&mut fuzz_options, "runs", "one").is_err());
}

#[test]
fn test_max_total_time() {
    let mut fuzz_options = Options::empty();
    assert!(meshcore::options::set(&mut fuzz_options, "max_total_time", "0").is_ok());
    assert_eq!(fuzz_options.max_total_time, Some(0));
    assert_eq!(get(&fuzz_options, "max_total_time").unwrap(), "0");
    assert!(meshcore::options::set(&mut fuzz_options, "max_total_time", "1h").is_ok());
    assert_eq!(fuzz_options.max_total_time, Some(1 * NANOS_PER_HOUR));
    assert_eq!(get(&fuzz_options, "max_total_time").unwrap(), "\"1h\"");
    assert!(meshcore::options::set(&mut fuzz_options, "max_total_time", "-1h").is_err());
    assert!(meshcore::options::set(&mut fuzz_options, "max_total_time", "forever").is_err());
}

#[test]
fn test_seed() {
    let mut fuzz_options = Options::empty();
    assert!(meshcore::options::set(&mut fuzz_options, "seed", "0").is_ok());
    assert_eq!(fuzz_options.seed, Some(0));
    assert_eq!(get(&fuzz_options, "seed").unwrap(), "0");
    assert!(meshcore::options::set(&mut fuzz_options, "seed", "1337").is_ok());
    assert_eq!(fuzz_options.seed, Some(1337));
    assert_eq!(get(&fuzz_options, "seed").unwrap(), "1337");
    assert!(meshcore::options::set(&mut fuzz_options, "seed", "-2").is_err());
    assert!(meshcore::options::set(&mut fuzz_options, "seed", "sunflower").is_err());
}

#[test]
fn test_max_input_size() {
    let mut fuzz_options = Options::empty();
    assert!(meshcore::options::set(&mut fuzz_options, "max_input_size", "0").is_ok());
    assert_eq!(fuzz_options.max_input_size, Some(0));
    assert_eq!(get(&fuzz_options, "max_input_size").unwrap(), "0");
    assert!(meshcore::options::set(&mut fuzz_options, "max_input_size", "2mb").is_ok());
    assert_eq!(fuzz_options.max_input_size, Some(2 * BYTES_PER_MB));
    assert_eq!(get(&fuzz_options, "max_input_size").unwrap(), "\"2mb\"");
    assert!(meshcore::options::set(&mut fuzz_options, "max_input_size", "-3").is_err());
    assert!(meshcore::options::set(&mut fuzz_options, "max_input_size", "big").is_err());
}

#[test]
fn test_mutation_depth() {
    let mut fuzz_options = Options::empty();
    assert!(meshcore::options::set(&mut fuzz_options, "mutation_depth", "0").is_ok());
    assert_eq!(fuzz_options.mutation_depth, Some(0));
    assert_eq!(get(&fuzz_options, "mutation_depth").unwrap(), "0");
    assert!(meshcore::options::set(&mut fuzz_options, "mutation_depth", "10").is_ok());
    assert_eq!(fuzz_options.mutation_depth, Some(10));
    assert_eq!(get(&fuzz_options, "mutation_depth").unwrap(), "10");
    assert!(meshcore::options::set(&mut fuzz_options, "mutation_depth", "-4").is_err());
    assert!(meshcore::options::set(&mut fuzz_options, "mutation_depth", "ninja-turtle").is_err());
}

#[test]
fn test_dictionary_level() {
    let mut fuzz_options = Options::empty();
    assert!(meshcore::options::set(&mut fuzz_options, "dictionary_level", "0").is_ok());
    assert_eq!(fuzz_options.dictionary_level, Some(0));
    assert_eq!(get(&fuzz_options, "dictionary_level").unwrap(), "0");
    assert!(meshcore::options::set(&mut fuzz_options, "dictionary_level", "9").is_ok());
    assert_eq!(fuzz_options.dictionary_level, Some(9));
    assert_eq!(get(&fuzz_options, "dictionary_level").unwrap(), "9");
    assert!(meshcore::options::set(&mut fuzz_options, "dictionary_level", "-5").is_err());
    assert!(meshcore::options::set(&mut fuzz_options, "dictionary_level", "zed").is_err());
}

#[test]
fn test_detect_exits() {
    let mut fuzz_options = Options::empty();
    assert!(meshcore::options::set(&mut fuzz_options, "detect_exits", "false").is_ok());
    assert_eq!(fuzz_options.detect_exits, Some(false));
    assert_eq!(get(&fuzz_options, "detect_exits").unwrap(), "false");
    assert!(meshcore::options::set(&mut fuzz_options, "detect_exits", "true").is_ok());
    assert_eq!(fuzz_options.detect_exits, Some(true));
    assert_eq!(get(&fuzz_options, "detect_exits").unwrap(), "true");
    assert!(meshcore::options::set(&mut fuzz_options, "detect_exits", "-1").is_err());
    assert!(meshcore::options::set(&mut fuzz_options, "detect_exits", "maybe").is_err());
}

#[test]
fn test_detect_leaks() {
    let mut fuzz_options = Options::empty();
    assert!(meshcore::options::set(&mut fuzz_options, "detect_leaks", "false").is_ok());
    assert_eq!(fuzz_options.detect_leaks, Some(false));
    assert_eq!(get(&fuzz_options, "detect_leaks").unwrap(), "false");
    assert!(meshcore::options::set(&mut fuzz_options, "detect_leaks", "true").is_ok());
    assert_eq!(fuzz_options.detect_leaks, Some(true));
    assert_eq!(get(&fuzz_options, "detect_leaks").unwrap(), "true");
    assert!(meshcore::options::set(&mut fuzz_options, "detect_leaks", "-1").is_err());
    assert!(meshcore::options::set(&mut fuzz_options, "detect_leaks", "maybe").is_err());
}

#[test]
fn test_run_limit() {
    let mut fuzz_options = Options::empty();
    assert!(meshcore::options::set(&mut fuzz_options, "run_limit", "0").is_ok());
    assert_eq!(fuzz_options.run_limit, Some(0));
    assert_eq!(get(&fuzz_options, "run_limit").unwrap(), "0");
    assert!(meshcore::options::set(&mut fuzz_options, "run_limit", "10s").is_ok());
    assert_eq!(fuzz_options.run_limit, Some(10 * NANOS_PER_SECOND));
    assert_eq!(get(&fuzz_options, "run_limit").unwrap(), "\"10s\"");
    assert!(meshcore::options::set(&mut fuzz_options, "run_limit", "-1").is_err());
    assert!(meshcore::options::set(&mut fuzz_options, "run_limit", "forever").is_err());
}

#[test]
fn test_malloc_limit() {
    let mut fuzz_options = Options::empty();
    assert!(meshcore::options::set(&mut fuzz_options, "malloc_limit", "0").is_ok());
    assert_eq!(fuzz_options.malloc_limit, Some(0));
    assert_eq!(get(&fuzz_options, "malloc_limit").unwrap(), "0");
    assert!(meshcore::options::set(&mut fuzz_options, "malloc_limit", "1gb").is_ok());
    assert_eq!(fuzz_options.malloc_limit, Some(1 * BYTES_PER_GB));
    assert_eq!(get(&fuzz_options, "malloc_limit").unwrap(), "\"1gb\"");
    assert!(meshcore::options::set(&mut fuzz_options, "malloc_limit", "-1").is_err());
    assert!(meshcore::options::set(&mut fuzz_options, "malloc_limit", "1eb").is_err());
}

#[test]
fn test_oom_limit() {
    let mut fuzz_options = Options::empty();
    assert!(meshcore::options::set(&mut fuzz_options, "oom_limit", "0").is_ok());
    assert_eq!(fuzz_options.oom_limit, Some(0));
    assert_eq!(get(&fuzz_options, "oom_limit").unwrap(), "0");
    assert!(meshcore::options::set(&mut fuzz_options, "oom_limit", "1gb").is_ok());
    assert_eq!(fuzz_options.oom_limit, Some(1 * BYTES_PER_GB));
    assert_eq!(get(&fuzz_options, "oom_limit").unwrap(), "\"1gb\"");
    assert!(meshcore::options::set(&mut fuzz_options, "oom_limit", "-1").is_err());
    assert!(meshcore::options::set(&mut fuzz_options, "oom_limit", "1eb").is_err());
}

#[test]
fn test_purge_interval() {
    let mut fuzz_options = Options::empty();
    assert!(meshcore::options::set(&mut fuzz_options, "purge_interval", "0").is_ok());
    assert_eq!(fuzz_options.purge_interval, Some(0));
    assert_eq!(get(&fuzz_options, "purge_interval").unwrap(), "0");
    assert!(meshcore::options::set(&mut fuzz_options, "purge_interval", "1m").is_ok());
    assert_eq!(fuzz_options.purge_interval, Some(1 * NANOS_PER_MINUTE));
    assert_eq!(get(&fuzz_options, "purge_interval").unwrap(), "\"1m\"");
    assert!(meshcore::options::set(&mut fuzz_options, "purge_interval", "-1").is_err());
    assert!(meshcore::options::set(&mut fuzz_options, "purge_interval", "constantly").is_err());
}

#[test]
fn test_malloc_exitcode() {
    let mut fuzz_options = Options::empty();
    assert!(meshcore::options::set(&mut fuzz_options, "malloc_exitcode", "2000").is_ok());
    assert_eq!(fuzz_options.malloc_exitcode, Some(2000));
    assert_eq!(get(&fuzz_options, "malloc_exitcode").unwrap(), "2000");
    assert!(meshcore::options::set(&mut fuzz_options, "malloc_exitcode", "-77").is_ok());
    assert_eq!(fuzz_options.malloc_exitcode, Some(-77));
    assert_eq!(get(&fuzz_options, "malloc_exitcode").unwrap(), "-77");
    assert!(meshcore::options::set(&mut fuzz_options, "malloc_exitcode", "seventy-seven").is_err());
}

#[test]
fn test_death_exitcode() {
    let mut fuzz_options = Options::empty();
    assert!(meshcore::options::set(&mut fuzz_options, "death_exitcode", "2001").is_ok());
    assert_eq!(fuzz_options.death_exitcode, Some(2001));
    assert_eq!(get(&fuzz_options, "death_exitcode").unwrap(), "2001");
    assert!(meshcore::options::set(&mut fuzz_options, "death_exitcode", "-78").is_ok());
    assert_eq!(fuzz_options.death_exitcode, Some(-78));
    assert_eq!(get(&fuzz_options, "death_exitcode").unwrap(), "-78");
    assert!(meshcore::options::set(&mut fuzz_options, "death_exitcode", "seventy-eight").is_err());
}

#[test]
fn test_leak_exitcode() {
    let mut fuzz_options = Options::empty();
    assert!(meshcore::options::set(&mut fuzz_options, "leak_exitcode", "2002").is_ok());
    assert_eq!(fuzz_options.leak_exitcode, Some(2002));
    assert_eq!(get(&fuzz_options, "leak_exitcode").unwrap(), "2002");
    assert!(meshcore::options::set(&mut fuzz_options, "leak_exitcode", "-79").is_ok());
    assert_eq!(fuzz_options.leak_exitcode, Some(-79));
    assert_eq!(get(&fuzz_options, "leak_exitcode").unwrap(), "-79");
    assert!(meshcore::options::set(&mut fuzz_options, "leak_exitcode", "seventy-nine").is_err());
}

#[test]
fn test_oom_exitcode() {
    let mut fuzz_options = Options::empty();
    assert!(meshcore::options::set(&mut fuzz_options, "oom_exitcode", "2003").is_ok());
    assert_eq!(fuzz_options.oom_exitcode, Some(2003));
    assert_eq!(get(&fuzz_options, "oom_exitcode").unwrap(), "2003");
    assert!(meshcore::options::set(&mut fuzz_options, "oom_exitcode", "-80").is_ok());
    assert_eq!(fuzz_options.oom_exitcode, Some(-80));
    assert_eq!(get(&fuzz_options, "oom_exitcode").unwrap(), "-80");
    assert!(meshcore::options::set(&mut fuzz_options, "oom_exitcode", "eighty").is_err());
}

#[test]
fn test_pulse_interval() {
    let mut fuzz_options = Options::empty();
    assert!(meshcore::options::set(&mut fuzz_options, "pulse_interval", "0").is_ok());
    assert_eq!(fuzz_options.pulse_interval, Some(0));
    assert_eq!(get(&fuzz_options, "pulse_interval").unwrap(), "0");
    assert!(meshcore::options::set(&mut fuzz_options, "pulse_interval", "1m").is_ok());
    assert_eq!(fuzz_options.pulse_interval, Some(1 * NANOS_PER_MINUTE));
    assert_eq!(get(&fuzz_options, "pulse_interval").unwrap(), "\"1m\"");
    assert!(meshcore::options::set(&mut fuzz_options, "pulse_interval", "-1").is_err());
    assert!(meshcore::options::set(&mut fuzz_options, "pulse_interval", "constantly").is_err());
}

#[test]
fn test_debug() {
    let mut fuzz_options = Options::empty();
    assert!(meshcore::options::set(&mut fuzz_options, "debug", "false").is_ok());
    assert_eq!(fuzz_options.debug, Some(false));
    assert_eq!(get(&fuzz_options, "debug").unwrap(), "false");
    assert!(meshcore::options::set(&mut fuzz_options, "debug", "true").is_ok());
    assert_eq!(fuzz_options.debug, Some(true));
    assert_eq!(get(&fuzz_options, "debug").unwrap(), "true");
    assert!(meshcore::options::set(&mut fuzz_options, "debug", "-1").is_err());
    assert!(meshcore::options::set(&mut fuzz_options, "debug", "maybe").is_err());
}

#[test]
fn test_get_all() {
    let mut fuzz_options = Options::empty();
    add_defaults(&mut fuzz_options);
    let all = get_all(&fuzz_options);
    let mut all = all.iter();
    fn assert_next(next: Option<&(String, String)>, name: &str, value: &str) {
        let pair = (name.to_string(), value.to_string());
        assert_eq!(next, Some(&pair));
    }
    assert_next(all.next(), "runs", "0");
    assert_next(all.next(), "max_total_time", "0");
    assert_next(all.next(), "seed", "0");
    assert_next(all.next(), "max_input_size", "\"1mb\"");
    assert_next(all.next(), "mutation_depth", "5");
    assert_next(all.next(), "dictionary_level", "0");
    assert_next(all.next(), "detect_exits", "false");
    assert_next(all.next(), "detect_leaks", "false");
    assert_next(all.next(), "run_limit", "\"20m\"");
    assert_next(all.next(), "malloc_limit", "\"2gb\"");
    assert_next(all.next(), "oom_limit", "\"2gb\"");
    assert_next(all.next(), "purge_interval", "\"1s\"");
    assert_next(all.next(), "malloc_exitcode", "2000");
    assert_next(all.next(), "death_exitcode", "2001");
    assert_next(all.next(), "leak_exitcode", "2002");
    assert_next(all.next(), "oom_exitcode", "2003");
    assert_next(all.next(), "pulse_interval", "\"20s\"");
    assert_next(all.next(), "debug", "false");
    assert!(all.next().is_none());
}

#[test]
fn strip_quotes_removes_one_pair() {
    assert_eq!(strip_quotes("\"abc\""), "abc");
    assert_eq!(strip_quotes("abc"), "abc");
    assert_eq!(strip_quotes("\"\""), "\"\"");
    assert_eq!(strip_quotes("\""), "\"");
    assert_eq!(strip_quotes("\"\"\""), "\"");
}

#[test]
fn set_unknown_option_is_rejected() {
    let mut fuzz_options = Options::empty();
    assert_eq!(meshcore::options::set(&mut fuzz_options, "warp_speed", "9"), Err(OptionsError::UnknownOption));
    assert_eq!(get(&fuzz_options, "warp_speed"), Err(OptionsError::UnknownOption));
    assert_eq!(meshcore::options::set(&mut fuzz_options, "runs", "ten"), Err(OptionsError::InvalidValue));
}

#[test]
fn rendered_values_parse_back() {
    for v in [
        0i64,
        1,
        999,
        5 * NANOS_PER_MICRO,
        7 * NANOS_PER_MILLI,
        42 * NANOS_PER_SECOND,
        90 * NANOS_PER_MINUTE,
        36 * NANOS_PER_HOUR,
        400 * NANOS_PER_DAY,
    ] {
        assert_eq!(parse_duration(&format_duration(Some(v))), Ok(v));
    }
    assert!(parse_duration(&format_duration(Some(-5))).is_err());
    assert!(parse_duration(&format_duration(Some(-3 * NANOS_PER_DAY))).is_err());
    for v in [0u64, 1, 999, 6 * BYTES_PER_KB, 7 * BYTES_PER_MB, 8 * BYTES_PER_GB] {
        assert_eq!(parse_size(&format_size(Some(v))), Ok(v));
    }
}
