use ctb_core::cron::weekday_from_sunday;
use ctb_core::cron::CivilDateTime;
use ctb_core::cron::CronExpr;
use ctb_core::cron::Field;
use ctb_core::cron_yaml::parse_cron_yaml;
use ctb_core::cron_yaml::validate_schedule;
use ctb_core::cron_yaml::CronSchedule;

fn dt(year: u32, month: u32, day: u32, hour: u32, minute: u32, second: u32) -> CivilDateTime {
    CivilDateTime { year, month, day, hour, minute, second }
}

#[test]
fn cron_expr_parses_and_matches_basic() {
    let expr = CronExpr::parse("0 * * * *").unwrap();
    assert!(expr.matches(&dt(2026, 1, 1, 10, 0, 0)));
    assert!(!expr.matches(&dt(2026, 1, 1, 10, 1, 0)));
}

#[test]
fn cron_expr_next_after_finds_next_minute_boundary() {
    let expr = CronExpr::parse("*/5 * * * *").unwrap();
    let next = expr.next_after(&dt(2026, 1, 1, 10, 1, 30)).unwrap();
    assert_eq!(next.minute, 5);
    assert_eq!(next.second, 0);
}

#[test]
fn cron_next_after_is_strictly_later_and_matches() {
    let expr = CronExpr::parse("30 14 * * *").unwrap();
    let now = dt(2026, 3, 10, 14, 30, 0);
    let next = expr.next_after(&now).unwrap();
    assert!(expr.matches(&next));
    assert_eq!((next.hour, next.minute), (14, 30));
    assert_eq!(next.day, 11);
}

#[test]
fn weekday_matches_known_dates() {
    // The first day of 2026 is a Thursday.
    assert_eq!(weekday_from_sunday(&dt(2026, 1, 1, 0, 0, 0)), 4);
    // The first day of 2017 was a Sunday.
    assert_eq!(weekday_from_sunday(&dt(2017, 1, 1, 0, 0, 0)), 0);
}

#[test]
fn day_of_week_seven_reads_as_sunday() {
    let expr = CronExpr::parse("0 0 * * 7").unwrap();
    // 2026-01-04 is a Sunday.
    assert!(expr.matches(&dt(2026, 1, 4, 0, 0, 0)));
    assert!(!expr.matches(&dt(2026, 1, 5, 0, 0, 0)));
}

#[test]
fn dom_dow_either_matches_when_both_restricted() {
    let expr = CronExpr::parse("0 0 13 * 5").unwrap();
    // The thirteenth matches by day of month even off-Friday.
    assert!(expr.matches(&dt(2026, 1, 13, 0, 0, 0)));
    // 2026-01-02 is a Friday: matches by day of week.
    assert!(expr.matches(&dt(2026, 1, 2, 0, 0, 0)));
    assert!(!expr.matches(&dt(2026, 1, 3, 0, 0, 0)));
}

#[test]
fn field_parse_rejects_bad_input() {
    assert!(CronExpr::parse("* * * *").is_err());
    assert!(Field::parse("*/0", 0, 59, false).is_err());
    assert!(Field::parse("9-3", 0, 59, false).is_err());
    assert!(Field::parse("x", 0, 59, false).is_err());
}

#[test]
fn field_contains_ranges_and_steps() {
    let f = Field::parse("10-20/5", 0, 59, false).unwrap();
    assert!(f.contains(10));
    assert!(f.contains(15));
    assert!(f.contains(20));
    assert!(!f.contains(11));
    assert!(!f.contains(25));
}

#[test]
fn cron_yaml_parses_prompt_block() {
    let yaml = r#"
schedules:
  - name: heartbeat
    cron: "0 * * * *"
    prompt: |
      line1
      line2
    enabled: true
    notify: false
"#;
    let cfg = parse_cron_yaml(yaml).unwrap();
    assert_eq!(cfg.schedules.len(), 1);
    let s = &cfg.schedules[0];
    assert_eq!(s.name, "heartbeat");
    assert_eq!(s.cron, "0 * * * *");
    assert!(s.prompt.contains("line1"));
    assert!(s.prompt.contains("line2"));
    assert!(s.enabled);
    assert!(!s.notify);
}

#[test]
fn schedule_validation_rejects_blanks_and_long_prompts() {
    let good = CronSchedule {
        name: "a".to_string(),
        cron: "* * * * *".to_string(),
        prompt: "p".to_string(),
        enabled: true,
        notify: false,
    };
    assert!(validate_schedule(&good).is_ok());
    let blank = CronSchedule { name: "  ".to_string(), ..good.clone() };
    assert!(validate_schedule(&blank).is_err());
    let long = CronSchedule { prompt: "x".repeat(10_001), ..good };
    assert!(validate_schedule(&long).is_err());
}
