use ath::level::{same_name, Level};
use ath::levels::Levels;
use ath::logger::{Logger, Message};
use ath::timestamp::Timestamp;

fn stamp() -> Timestamp {
    Timestamp { year: 2024, month: 3, day: 7, hour: 9, minute: 5, second: 0 }
}

fn builtins() -> Vec<Level> {
    vec![
        Level::all(),
        Level::debug(),
        Level::verbose(),
        Level::info(),
        Level::warn(),
        Level::error(),
        Level::fatal(),
    ]
}

#[test]
fn level_accessors() {
    let l = Level("ELITE", 44);
    assert_eq!(l.name(), "ELITE");
    assert_eq!(l.id(), 44);
}

#[test]
fn builtin_ordinals() {
    let names: Vec<&str> = builtins().iter().map(|l| l.name()).collect();
    let ids: Vec<u32> = builtins().iter().map(|l| l.id()).collect();
    assert_eq!(names, vec!["ALL", "DEBUG", "VERBOSE", "INFO", "WARN", "ERROR", "FATAL"]);
    assert_eq!(ids, vec![0, 1, 2, 3, 4, 5, 6]);
}

#[test]
fn names_compare_exactly() {
    assert!(same_name("WARN", "WARN"));
    assert!(!same_name("WARN", "warn"));
    assert!(!same_name("WARN", "WARNING"));
    assert!(same_name("", ""));
}

#[test]
fn all_threshold_passes_every_builtin() {
    let r = Levels::new("");
    assert_eq!(r.current.name(), "ALL");
    for l in builtins() {
        assert!(r.is_in_level(l));
    }
}

#[test]
fn unregistered_value_resolves_to_all() {
    let r = Levels::new("nonsense");
    assert_eq!(r.current.name(), "ALL");
    assert_eq!(r.current.id(), 0);
    assert_eq!(r.from_env("ELITE").name(), "ALL");
}

#[test]
fn registered_value_in_any_case_resolves() {
    for var in ["WARN", "warn", "Warn"] {
        let r = Levels::new(var);
        assert_eq!(r.current.name(), "WARN");
        assert_eq!(r.current.id(), 4);
    }
    assert_eq!(Levels::new("fatal").current.id(), 6);
}

#[test]
fn lookup_is_exact() {
    let r = Levels::new("");
    assert_eq!(r.lookup("ERROR").id(), 5);
    assert_eq!(r.lookup("error").name(), "ALL");
    assert_eq!(r.lookup("").name(), "ALL");
}

#[test]
fn adding_named_level_rebinds_threshold() {
    let mut r = Levels::new("elite");
    assert_eq!(r.current.name(), "ALL");
    r.add(&Level("ELITE", 44), "elite");
    assert_eq!(r.current.name(), "ELITE");
    assert_eq!(r.current.id(), 44);
    assert!(!r.is_in_level(Level::fatal()));
    assert!(r.is_in_level(Level("OWNER", 112)));
}

#[test]
fn adding_other_level_keeps_threshold() {
    let mut r = Levels::new("info");
    r.add(&Level("ELITE", 44), "info");
    assert_eq!(r.current.name(), "INFO");
    assert_eq!(r.lookup("ELITE").id(), 44);
}

#[test]
fn re_registering_a_name_overwrites() {
    let mut r = Levels::new("warn");
    r.add(&Level("WARN", 9), "warn");
    assert_eq!(r.lookup("WARN").id(), 9);
    assert_eq!(r.current.id(), 9);
    assert_eq!(r.levels.len(), 7);
}

#[test]
fn unset_environment_scenario() {
    let mut log = Logger::new("");
    assert_eq!(log.levels.current.id(), 0);
    let line = log.debug("x").unwrap();
    assert_eq!(log.logs.len(), 1);
    assert!(line.starts_with("[DEBUG] ("));
    assert!(line.ends_with(") x"));
    assert!(log.log("y", Level("ELITE", 44)).is_some());
    assert_eq!(log.logs.len(), 2);
}

#[test]
fn warn_environment_scenario() {
    let mut log = Logger::new("WARN");
    assert_eq!(log.levels.current.id(), 4);
    assert!(log.debug("a").is_none());
    assert_eq!(log.logs.len(), 0);
    let line = log.error("b").unwrap();
    assert!(line.starts_with("[ERROR] ("));
    assert!(line.ends_with(") b"));
    assert_eq!(log.logs.len(), 1);
    assert_eq!(log.logs[0].text, "b");
}

#[test]
fn buffer_keeps_exactly_passing_messages() {
    let mut log = Logger::new("info");
    let levels = [Level::debug(), Level::info(), Level::verbose(), Level::fatal(), Level::all(), Level::warn()];
    let mut expected = 0;
    for l in levels {
        if l.id() >= 3 {
            expected += 1;
        }
        log.log_at(l.name(), l, stamp());
    }
    assert_eq!(log.logs.len(), expected);
    let kept: Vec<&str> = log.logs.iter().map(|m| m.text.as_str()).collect();
    assert_eq!(kept, vec!["INFO", "FATAL", "WARN"]);
}

#[test]
fn wrappers_use_their_levels() {
    let mut log = Logger::new("");
    log.debug("1");
    log.verbose("2");
    log.info("3");
    log.warn("4");
    log.error("5");
    log.fatal("6");
    let ids: Vec<u32> = log.logs.iter().map(|m| m.level.id()).collect();
    assert_eq!(ids, vec![1, 2, 3, 4, 5, 6]);
    let names: Vec<&str> = log.logs.iter().map(|m| m.level.name()).collect();
    assert_eq!(names, vec!["DEBUG", "VERBOSE", "INFO", "WARN", "ERROR", "FATAL"]);
}

#[test]
fn log_at_formats_exact_line() {
    let mut log = Logger::new("");
    let line = log.log_at("hello", Level::info(), stamp()).unwrap();
    assert_eq!(line, "[INFO] (2024-03-07 09:05:00) hello");
}

#[test]
fn print_logs_replays_in_order() {
    let mut log = Logger::new("verbose");
    log.log_at("first", Level::info(), stamp());
    log.log_at("dropped", Level::debug(), stamp());
    log.log_at("second", Level("ELITE", 44), stamp());
    let lines = log.print_logs();
    assert_eq!(
        lines,
        vec![
            "Here are all logs:".to_string(),
            "[INFO] (2024-03-07 09:05:00) first".to_string(),
            "[ELITE] (2024-03-07 09:05:00) second".to_string(),
        ]
    );
    assert_eq!(log.logs.len(), 2);
    assert_eq!(log.print_logs(), lines);
}

#[test]
fn console_formats_a_message() {
    let log = Logger::new("");
    let m = Message {
        text: "boot".to_string(),
        level: Level::fatal(),
        timestamp: Timestamp { year: 1999, month: 12, day: 31, hour: 23, minute: 59, second: 58 },
    };
    assert_eq!(log.console(&m), "[FATAL] (1999-12-31 23:59:58) boot");
}

#[test]
fn timestamp_text_pads_and_signs_year() {
    let mut t = stamp();
    assert_eq!(t.text(), "2024-03-07 09:05:00");
    t.year = 987;
    assert_eq!(t.text(), "0987-03-07 09:05:00");
    t.year = 12345;
    assert_eq!(t.text(), "+12345-03-07 09:05:00");
    t.year = -5;
    assert_eq!(t.text(), "-0005-03-07 09:05:00");
}

#[test]
fn print_logs_on_new_logger_is_header_only() {
    let log = Logger::new("");
    assert_eq!(log.print_logs(), vec!["Here are all logs:".to_string()]);
    assert_eq!(log.logs.len(), 0);
}

#[test]
fn live_lines_match_replayed_lines() {
    let mut log = Logger::new("info");
    let mut live: Vec<String> = Vec::new();
    for (text, level) in [("a", Level::error()), ("b", Level::debug()), ("c", Level::info())] {
        if let Some(line) = log.log(text, level) {
            live.push(line);
        }
    }
    assert_eq!(live.len(), 2);
    let replay = log.print_logs();
    assert_eq!(replay[1..].to_vec(), live);
}
