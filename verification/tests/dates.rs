use chrono::{Datelike, NaiveDate, TimeZone, Utc};
use git_stats::cli::args::{OutputFormat, Period};
use git_stats::config::schema::{default_days, default_true};
use git_stats::config::Defaults;
use git_stats::date::{Date, DateRange, Days, EPOCH_DAY, MAX_DAY, MIN_DAY};
use git_stats::git::{CommitInfo, DiffStats, FileChange};
use git_stats::stats::{PeriodStats, TotalStats};
use git_stats::text::{decimal_string, signed_decimal_string};

#[test]
fn test_commit_info_date() {
    let timestamp = Utc.with_ymd_and_hms(2024, 1, 15, 10, 30, 0).unwrap();
    let commit = CommitInfo::new(
        "abc1234".to_string(),
        timestamp.timestamp(),
        false,
        DiffStats::default(),
    );

    assert_eq!(commit.date().to_string(), "2024-01-15");
}

#[test]
fn test_commit_info_is_merge() {
    let timestamp = Utc::now();
    let commit =
        CommitInfo::new("abc1234".to_string(), timestamp.timestamp(), true, DiffStats::default());

    assert!(commit.is_merge);
}

#[test]
fn test_defaults() {
    let defaults = Defaults::default();
    assert_eq!(defaults.days, 7);
    assert!(defaults.exclude_merges);
}

#[test]
fn default_values_of_the_configuration() {
    assert_eq!(default_days(), 7);
    assert!(default_true());
    assert_eq!(Period::default(), Period::Daily);
    assert_eq!(OutputFormat::default(), OutputFormat::Tui);
}

#[test]
fn the_limits_are_those_of_chrono() {
    assert_eq!(MIN_DAY, NaiveDate::MIN.num_days_from_ce());
    assert_eq!(MAX_DAY, NaiveDate::MAX.num_days_from_ce());
    assert_eq!(EPOCH_DAY, NaiveDate::default().num_days_from_ce());
    assert!(Date::from_day_number(MIN_DAY).is_some());
    assert!(Date::from_day_number(MAX_DAY).is_some());
    assert!(Date::from_day_number(MIN_DAY - 1).is_none());
    assert!(Date::from_day_number(MAX_DAY + 1).is_none());
    assert_eq!(Date::from_day_number(MIN_DAY).unwrap().year(), -262143);
    assert_eq!(Date::from_day_number(MAX_DAY).unwrap().year(), 262142);
    assert_eq!(Date::from_day_number(MAX_DAY).unwrap().month(), 12);
    assert_eq!(Date::from_day_number(MIN_DAY).unwrap().to_string(), "-262143-01-01");
    assert_eq!(Date::from_day_number(MAX_DAY).unwrap().iso_week(), (262143, 1));
    assert_eq!(Date::default().to_string(), "1970-01-01");
}

#[test]
fn dates_are_numbered_from_the_first_of_january_of_year_one() {
    assert_eq!(Date::from_ymd_opt(1, 1, 1).unwrap().day_number(), 1);
    assert_eq!(Date::from_ymd_opt(1970, 1, 1).unwrap().day_number(), 719_163);
    assert_eq!(Date::from_ymd_opt(2024, 1, 1).unwrap().day_number(), 738_886);
    assert_eq!(Date::from_day_number(738_886).unwrap().to_string(), "2024-01-01");
    assert!(Date::from_ymd_opt(2023, 2, 29).is_none());
    assert!(Date::from_ymd_opt(2024, 2, 29).is_some());
    assert!(Date::from_ymd_opt(2024, 13, 1).is_none());
    assert!(Date::from_ymd_opt(400_000, 1, 1).is_none());
    let date = Date::from_ymd_opt(2024, 12, 30).unwrap();
    assert_eq!(date.year(), 2024);
    assert_eq!(date.month(), 12);
    assert_eq!(date.iso_week(), (2025, 1));
    assert!(Date::from_ymd_opt(2024, 1, 1).unwrap() < date);
    assert!(Date::from_ymd_opt(2024, 1, 1).unwrap().is_before(&date));
    assert!(!date.is_before(&date));
}

#[test]
fn timestamps_fall_on_their_utc_day() {
    assert_eq!(Date::from_timestamp(0).unwrap().to_string(), "1970-01-01");
    assert_eq!(Date::from_timestamp(86_399).unwrap().to_string(), "1970-01-01");
    assert_eq!(Date::from_timestamp(86_400).unwrap().to_string(), "1970-01-02");
    assert_eq!(Date::from_timestamp(-1).unwrap().to_string(), "1969-12-31");
    assert_eq!(Date::from_timestamp(-86_400).unwrap().to_string(), "1969-12-31");
    assert_eq!(Date::from_timestamp(-86_401).unwrap().to_string(), "1969-12-30");
    assert_eq!(Date::from_timestamp(8_210_266_876_799).unwrap().day_number(), MAX_DAY);
    assert!(Date::from_timestamp(8_210_266_876_800).is_none());
    assert_eq!(Date::from_timestamp(-8_334_601_228_800).unwrap().day_number(), MIN_DAY);
    assert!(Date::from_timestamp(-8_334_601_228_801).is_none());
    assert!(Date::from_timestamp(i64::MAX).is_none());
    assert!(Date::from_timestamp(i64::MIN).is_none());
    let commit = CommitInfo::new("x".to_string(), i64::MAX, false, DiffStats::default());
    assert!(!commit.is_dated());
}

#[test]
fn today_is_todays_date() {
    let before = Utc::now().date_naive().num_days_from_ce();
    let today = Date::today().unwrap().day_number();
    let after = Utc::now().date_naive().num_days_from_ce();
    assert!(before <= today && today <= after);
}

#[test]
fn ranges_hold_their_days_in_order() {
    let from = Date::from_ymd_opt(2024, 2, 27).unwrap();
    let to = Date::from_ymd_opt(2024, 3, 2).unwrap();
    let range = DateRange::new(from, to);
    assert_eq!(range.len(), 5);
    let days: Vec<String> = range.iter_days().iter().map(|d| d.to_string()).collect();
    assert_eq!(days, vec!["2024-02-27", "2024-02-28", "2024-02-29", "2024-03-01", "2024-03-02"]);
    assert_eq!(range.iter_days(), range.iter_days());
    assert!(range.contains(&from));
    assert!(range.contains(&to));
    assert!(!range.contains(&Date::from_ymd_opt(2024, 3, 3).unwrap()));
    assert_eq!(range.day_at(0), Some(from));
    assert_eq!(range.day_at(3).unwrap().to_string(), "2024-03-01");
    assert_eq!(range.day_at(4), Some(to));
    assert_eq!(range.day_at(5), None);
    assert_eq!(range.day_at(u32::MAX), None);
    let single = DateRange::new(from, from);
    assert_eq!(single.len(), 1);
    assert_eq!(single.iter_days(), vec![from]);
    let empty = DateRange::new(to, from);
    assert_eq!(empty.len(), 0);
    assert!(empty.iter_days().is_empty());
    assert!(!empty.contains(&from));
}

#[test]
fn last_n_days_end_today_and_hold_n_days() {
    let range = DateRange::last_n_days(Days::new(7)).unwrap();
    assert_eq!(range.len(), 7);
    assert_eq!(range.to.day_number() - range.from.day_number(), 6);
    let today = Utc::now().date_naive().num_days_from_ce();
    assert!(today - range.to.day_number() <= 1);
    assert_eq!(Days::new(7).value(), 7);
    let one = DateRange::last_n_days(Days::new(1)).unwrap();
    assert_eq!(one.from, one.to);
}

#[test]
fn ranges_that_end_at_a_given_day() {
    let to = Date::from_ymd_opt(2024, 3, 1).unwrap();
    let week = DateRange::ending_at(to, Days::new(7)).unwrap();
    assert_eq!(week.from.to_string(), "2024-02-24");
    assert_eq!(week.to, to);
    assert_eq!(week.len(), 7);
    let none = DateRange::ending_at(to, Days::new(0)).unwrap();
    assert_eq!(none.len(), 0);
    assert_eq!(none.from.to_string(), "2024-03-02");
    assert!(DateRange::ending_at(to, Days::new(u32::MAX)).is_none());
    let first = Date::from_day_number(MIN_DAY).unwrap();
    assert!(DateRange::ending_at(first, Days::new(1)).is_some());
    assert!(DateRange::ending_at(first, Days::new(2)).is_none());
    let last = Date::from_day_number(MAX_DAY).unwrap();
    assert!(DateRange::ending_at(last, Days::new(0)).is_none());
}

#[test]
fn extensions_are_what_follows_the_last_dot() {
    let file = |path: &str| FileChange::new(path.to_string(), 1, 1);
    let list = |items: &[&str]| items.iter().map(|s| s.to_string()).collect::<Vec<String>>();
    assert_eq!(file("src/main.rs").extension(), Some("rs".to_string()));
    assert_eq!(file("archive.tar.gz").extension(), Some("gz".to_string()));
    assert_eq!(file("Makefile").extension(), None);
    assert_eq!(file("trailing.").extension(), Some(String::new()));
    assert_eq!(file(".gitignore").extension(), Some("gitignore".to_string()));
    assert_eq!(file("dir.d/file").extension(), Some("d/file".to_string()));
    assert_eq!(file("").extension(), None);
    assert_eq!(file("naïve.ré").extension(), Some("ré".to_string()));
    assert!(file("src/main.rs").matches_extensions(&list(&["ts", "rs"])));
    assert!(!file("src/main.rs").matches_extensions(&list(&["RS"])));
    assert!(!file("src/main.rs").matches_extensions(&list(&[".rs"])));
    assert!(!file("src/main.rs").matches_extensions(&list(&[])));
    assert!(!file("Makefile").matches_extensions(&list(&["rs", "Makefile"])));
    assert!(!file("Makefile").matches_extensions(&list(&[""])));
    assert!(file("trailing.").matches_extensions(&list(&[""])));
}

#[test]
fn diff_totals_grow_with_each_file() {
    let mut diff = DiffStats::new(1, 2, 3);
    assert!(diff.files.is_empty());
    diff.add_file(FileChange::new("a.rs".to_string(), 10, 20));
    assert_eq!(diff.additions, 11);
    assert_eq!(diff.deletions, 22);
    assert_eq!(diff.files_changed, 4);
    assert_eq!(diff.files.len(), 1);
    assert_eq!(diff.files[0].path, "a.rs");
    let copy = diff.clone();
    assert_eq!(copy.files.len(), 1);
    assert_eq!(copy.additions, 11);
}

#[test]
fn buckets_keep_net_lines_in_step() {
    let day = Date::from_ymd_opt(2024, 1, 1).unwrap();
    let mut bucket = PeriodStats::new(day);
    assert_eq!(bucket.label, "2024-01-01");
    assert_eq!(bucket.net_lines, 0);
    let other =
        PeriodStats { commits: 2, additions: 5, deletions: 9, files_changed: 3, ..Default::default() };
    bucket.merge(&other);
    bucket.merge(&other);
    assert_eq!(bucket.commits, 4);
    assert_eq!(bucket.additions, 10);
    assert_eq!(bucket.deletions, 18);
    assert_eq!(bucket.net_lines, -8);
    assert_eq!(bucket.files_changed, 6);
    assert_eq!(bucket.label, "2024-01-01");
    assert_eq!(bucket.date, day);
    bucket.additions = 100;
    bucket.update_net_lines();
    assert_eq!(bucket.net_lines, 82);
    let labelled = PeriodStats::with_label(day, "2024-W01".to_string());
    assert_eq!(labelled.label, "2024-W01");
    let empty = PeriodStats::default();
    assert_eq!(empty.label, "");
    assert_eq!(empty.date.to_string(), "1970-01-01");
    let copy = bucket.clone();
    assert_eq!(copy.net_lines, 82);
    let total = TotalStats::of(&vec![bucket, copy]);
    assert_eq!(total.additions, 200);
    assert_eq!(total.net_lines, 164);
}

#[test]
fn merging_does_not_depend_on_the_order() {
    let day = Date::from_ymd_opt(2024, 1, 1).unwrap();
    let parts = [(1u32, 10u64, 3u64, 1u32), (2, 0, 50, 4), (7, 1000, 1, 2)];
    let make = |order: [usize; 3]| {
        let mut bucket = PeriodStats::new(day);
        for i in order {
            let (commits, additions, deletions, files_changed) = parts[i];
            bucket.merge(&PeriodStats {
                commits,
                additions,
                deletions,
                files_changed,
                ..Default::default()
            });
        }
        (bucket.commits, bucket.additions, bucket.deletions, bucket.net_lines, bucket.files_changed)
    };
    let expected = (10, 1010, 54, 956, 7);
    for order in [[0, 1, 2], [0, 2, 1], [1, 0, 2], [1, 2, 0], [2, 0, 1], [2, 1, 0]] {
        assert_eq!(make(order), expected);
    }
}

#[test]
fn decimal_rendering() {
    assert_eq!(decimal_string(0), "0");
    assert_eq!(decimal_string(7), "7");
    assert_eq!(decimal_string(10), "10");
    assert_eq!(decimal_string(1_000_000), "1000000");
    assert_eq!(decimal_string(u64::MAX), u64::MAX.to_string());
    assert_eq!(signed_decimal_string(0), "0");
    assert_eq!(signed_decimal_string(-1), "-1");
    assert_eq!(signed_decimal_string(i64::MIN), i64::MIN.to_string());
    assert_eq!(signed_decimal_string(i64::MAX), i64::MAX.to_string());
    assert_eq!(Period::Weekly.name(), "weekly");
    assert_eq!(Period::Monthly.to_string(), "monthly");
    assert_eq!(Period::Yearly.name(), "yearly");
}
