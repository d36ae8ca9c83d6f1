use git_stats::date::Date;
use git_stats::stats::{ActivityStats, AnalysisResult, TotalStats};
use git_stats::tui::ui::{
    footer, format_date_range, header_title, hourly_bars, mode_indicator, series_peak,
    series_total, weekday_bars, BarDataPoint,
};

#[test]
fn a_series_has_a_peak_and_a_total() {
    let series = |values: &[i64]| -> Vec<(String, i64)> {
        values.iter().map(|v| ("x".to_string(), *v)).collect()
    };
    assert_eq!(series_peak(&series(&[])), 0);
    assert_eq!(series_total(&series(&[])), 0);
    assert_eq!(series_peak(&series(&[3, -7, 5])), 7);
    assert_eq!(series_total(&series(&[3, -7, 5])), 1);
    assert_eq!(series_peak(&series(&[i64::MIN, i64::MAX])), 1u64 << 63);
    assert_eq!(series_total(&series(&[i64::MAX, i64::MAX])), 2 * (i64::MAX as i128));
    assert_eq!(series_total(&series(&[i64::MIN, i64::MIN])), 2 * (i64::MIN as i128));
}

#[test]
fn test_format_date_range() {
    assert_eq!(
        format_date_range("2024-01-01", "2024-01-07"),
        "2024-01-01 → 2024-01-07"
    );
}

#[test]
fn the_header_names_repository_period_and_range() {
    let result = AnalysisResult {
        repository: "my repo".to_string(),
        period: "weekly".to_string(),
        from: Date::from_ymd_opt(2024, 1, 1).unwrap(),
        to: Date::from_ymd_opt(2024, 1, 7).unwrap(),
        stats: vec![],
        total: TotalStats::default(),
    };
    assert_eq!(header_title(&result), " my repo | weekly | 2024-01-01 → 2024-01-07 ");
}

#[test]
fn the_footer_tells_mode_and_totals() {
    let total =
        TotalStats { commits: 8, additions: 150, deletions: 30, net_lines: 120, files_changed: 15 };
    assert_eq!(
        footer(false, &total),
        " [m] Mode: Split | [q] Quit \nTotal: 8 commits | +150 -30 | 15 files"
    );
    assert_eq!(
        footer(true, &TotalStats::default()),
        " [m] Mode: Single | [q] Quit \nTotal: 0 commits | +0 -0 | 0 files"
    );
    assert_eq!(mode_indicator(true), "Single");
    assert_eq!(mode_indicator(false), "Split");
}

#[test]
fn bars_for_weekdays_and_hours() {
    let mut stats = ActivityStats::default();
    stats.weekday = [1, 2, 3, 4, 5, 6, 7];
    for hour in 0..24 {
        stats.hourly[hour] = 100 + hour as u32;
    }
    let week = weekday_bars(&stats);
    let labels: Vec<&str> = week.iter().map(|b| b.label.as_str()).collect();
    assert_eq!(labels, vec!["Mon", "Tue", "Wed", "Thu", "Fri", "Sat", "Sun"]);
    let values: Vec<u32> = week.iter().map(|b| b.value).collect();
    assert_eq!(values, vec![1, 2, 3, 4, 5, 6, 7]);
    let hours = hourly_bars(&stats);
    assert_eq!(hours.len(), 24);
    assert_eq!(hours[0].label, "0");
    assert_eq!(hours[9].label, "9");
    assert_eq!(hours[10].label, "10");
    assert_eq!(hours[23].label, "23");
    assert_eq!(hours[23].value, 123);
    let bar = BarDataPoint::new("x".to_string(), 4);
    assert_eq!(bar.label, "x");
    assert_eq!(bar.value, 4);
}
