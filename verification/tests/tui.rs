use git_stats::date::Date;
use git_stats::stats::{ActivityStats, AnalysisResult, PeriodStats, TotalStats};
use git_stats::tui::app::{App, ChartType, Metric};
use git_stats::tui::event::{next_action, Event, Key, KeyPress};
use git_stats::tui::mvu::{key_action, update, Action, Model};

fn ymd(year: i32, month: u32, day: u32) -> Date {
    Date::from_ymd_opt(year, month, day).unwrap()
}

fn make_result() -> AnalysisResult {
    AnalysisResult {
        repository: "test".to_string(),
        period: "daily".to_string(),
        from: ymd(2024, 1, 1),
        to: ymd(2024, 1, 7),
        stats: vec![PeriodStats {
            label: "2024-01-01".to_string(),
            date: ymd(2024, 1, 1),
            commits: 5,
            additions: 100,
            deletions: 20,
            net_lines: 80,
            files_changed: 10,
        }],
        total: TotalStats::default(),
    }
}

fn make_result_with_multiple_days() -> AnalysisResult {
    AnalysisResult {
        repository: "test".to_string(),
        period: "daily".to_string(),
        from: ymd(2024, 1, 1),
        to: ymd(2024, 1, 5),
        stats: (1..=5)
            .map(|day| PeriodStats {
                label: format!("2024-01-0{day}"),
                date: ymd(2024, 1, day),
                commits: day,
                additions: u64::from(day) * 10,
                deletions: u64::from(day) * 2,
                net_lines: i64::from(day) * 8,
                files_changed: day,
            })
            .collect(),
        total: TotalStats::default(),
    }
}

#[test]
fn test_metric_cycle() {
    let metric = Metric::Commits;
    assert_eq!(metric.next(), Metric::AdditionsAndDeletions);
    assert_eq!(metric.prev(), Metric::FilesChanged);
}

#[test]
fn test_all_metrics() {
    let metrics = App::all_metrics();
    assert_eq!(metrics.len(), 3);
}

#[test]
fn test_additions_deletions_data() {
    let result = make_result();
    let app = App::new(result, ActivityStats::default(), false);

    let data = app.additions_deletions_data();
    assert_eq!(data.len(), 1);
    assert_eq!(data[0].label, "2024-01-01");
    assert_eq!(data[0].additions, 100);
    assert_eq!(data[0].deletions, 20);
}

#[test]
fn test_scroll_up_increases_offset() {
    let result = make_result_with_multiple_days();
    let mut app = App::new(result, ActivityStats::default(), false);

    assert_eq!(app.scroll_offset, 0);
    app.scroll_up();
    assert_eq!(app.scroll_offset, 1);
    app.scroll_up();
    assert_eq!(app.scroll_offset, 2);
}

#[test]
fn test_scroll_down_decreases_offset() {
    let result = make_result_with_multiple_days();
    let mut app = App::new(result, ActivityStats::default(), false);

    app.scroll_offset = 3;
    app.scroll_down();
    assert_eq!(app.scroll_offset, 2);
    app.scroll_down();
    assert_eq!(app.scroll_offset, 1);
    app.scroll_down();
    assert_eq!(app.scroll_offset, 0);
}

#[test]
fn test_scroll_down_does_not_go_negative() {
    let result = make_result_with_multiple_days();
    let mut app = App::new(result, ActivityStats::default(), false);

    assert_eq!(app.scroll_offset, 0);
    app.scroll_down();
    assert_eq!(app.scroll_offset, 0);
}

#[test]
fn test_scroll_up_respects_max_offset() {
    let result = make_result_with_multiple_days();
    let mut app = App::new(result, ActivityStats::default(), false);

    // 5 items, max offset should be 4 (data_len - 1)
    for _ in 0..10 {
        app.scroll_up();
    }
    assert_eq!(app.scroll_offset, 4);
}

#[test]
fn test_scroll_offset_resets_on_view_toggle() {
    let result = make_result_with_multiple_days();
    let mut app = App::new(result, ActivityStats::default(), false);

    app.scroll_offset = 3;
    // Simulate pressing 'm' to toggle view
    app.single_metric = !app.single_metric;
    app.scroll_offset = 0; // This happens in handle_key

    assert_eq!(app.scroll_offset, 0);
}

#[test]
fn test_chart_type_cycle() {
    let chart = ChartType::Commits;
    assert_eq!(chart.next(), ChartType::FilesChanged);
    assert_eq!(chart.next().next(), ChartType::AddDel);
    assert_eq!(chart.next().next().next(), ChartType::Weekday);
    assert_eq!(chart.next().next().next().next(), ChartType::Hour);
    assert_eq!(chart.next().next().next().next().next(), ChartType::Commits);
}

#[test]
fn test_chart_type_prev_cycle() {
    let chart = ChartType::Commits;
    assert_eq!(chart.prev(), ChartType::Hour);
    assert_eq!(chart.prev().prev(), ChartType::Weekday);
    assert_eq!(chart.prev().prev().prev(), ChartType::AddDel);
    assert_eq!(chart.prev().prev().prev().prev(), ChartType::FilesChanged);
    assert_eq!(chart.prev().prev().prev().prev().prev(), ChartType::Commits);
}

#[test]
fn test_chart_type_name() {
    assert_eq!(ChartType::Commits.name(), "Commits");
    assert_eq!(ChartType::FilesChanged.name(), "Files Changed");
    assert_eq!(ChartType::AddDel.name(), "Add/Del");
    assert_eq!(ChartType::Weekday.name(), "Weekday");
    assert_eq!(ChartType::Hour.name(), "Hour");
}

#[test]
fn test_can_scroll_in_split_mode() {
    let result = make_result();
    let app = App::new(result, ActivityStats::default(), false);

    // Split mode always supports scrolling
    assert!(app.can_scroll());
}

#[test]
fn test_can_scroll_in_single_mode() {
    let result = make_result();
    let mut app = App::new(result, ActivityStats::default(), true);

    // Only AddDel chart supports scrolling in single mode
    app.chart_type = ChartType::AddDel;
    assert!(app.can_scroll());

    app.chart_type = ChartType::Commits;
    assert!(!app.can_scroll());

    app.chart_type = ChartType::FilesChanged;
    assert!(!app.can_scroll());

    app.chart_type = ChartType::Weekday;
    assert!(!app.can_scroll());

    app.chart_type = ChartType::Hour;
    assert!(!app.can_scroll());
}

#[test]
fn test_chart_type_default() {
    assert_eq!(ChartType::default(), ChartType::Commits);
}

#[test]
fn test_app_new_initializes_chart_type() {
    let result = make_result();
    let app = App::new(result, ActivityStats::default(), false);

    assert_eq!(app.chart_type, ChartType::default());
}

#[test]
fn metric_names_and_values() {
    assert_eq!(Metric::Commits.name(), "Commits");
    assert_eq!(Metric::AdditionsAndDeletions.name(), "Additions / Deletions");
    assert_eq!(Metric::FilesChanged.name(), "Files Changed");
    assert_eq!(Metric::default(), Metric::Commits);
    let app = App::new(make_result(), ActivityStats::default(), false);
    assert_eq!(app.values_for_metric(Metric::Commits), vec![("2024-01-01".to_string(), 5)]);
    assert_eq!(
        app.values_for_metric(Metric::AdditionsAndDeletions),
        vec![("2024-01-01".to_string(), 80)]
    );
    assert_eq!(app.values_for_metric(Metric::FilesChanged), vec![("2024-01-01".to_string(), 10)]);
}

#[test]
fn scrolling_saturates_at_both_ends() {
    let mut model = Model::new(false, 5);
    assert_eq!(model.scroll_offset, 0);
    for _ in 0..10 {
        model = update(model, Action::ScrollUp);
    }
    assert_eq!(model.scroll_offset, 4);
    let mut seen = vec![];
    for _ in 0..6 {
        model = update(model, Action::ScrollDown);
        seen.push(model.scroll_offset);
    }
    assert_eq!(seen, vec![3, 2, 1, 0, 0, 0]);
}

#[test]
fn scrolling_without_data_or_on_a_fixed_chart_does_nothing() {
    let empty = Model::new(false, 0);
    assert_eq!(update(empty, Action::ScrollUp), empty);
    let single = Model::new(true, 5);
    assert_eq!(update(single, Action::ScrollUp), single);
    let mut on_add_del = single;
    on_add_del.chart_type = ChartType::AddDel;
    assert_eq!(update(on_add_del, Action::ScrollUp).scroll_offset, 1);
    let mut last = Model::new(false, 5);
    last.scroll_offset = usize::MAX;
    assert_eq!(update(last, Action::ScrollUp).scroll_offset, 4);
}

#[test]
fn toggle_mode_resets_the_offset() {
    for offset in [0usize, 1, 3, 4, 1000] {
        for single in [false, true] {
            let mut model = Model::new(single, 5);
            model.scroll_offset = offset;
            let next = update(model, Action::ToggleMode);
            assert_eq!(next.scroll_offset, 0);
            assert_eq!(next.single_metric, !single);
            assert_eq!(next.chart_type, model.chart_type);
        }
    }
}

#[test]
fn five_chart_steps_close_the_cycle() {
    for start in [
        ChartType::Commits,
        ChartType::FilesChanged,
        ChartType::AddDel,
        ChartType::Weekday,
        ChartType::Hour,
    ] {
        let mut model = Model::new(true, 3);
        model.chart_type = start;
        let mut forward = model;
        let mut back = model;
        for step in 1..=5 {
            forward = update(forward, Action::NextChart);
            back = update(back, Action::PrevChart);
            assert_eq!(forward.chart_type == start, step == 5);
            assert_eq!(back.chart_type == start, step == 5);
        }
        assert_eq!(update(update(model, Action::NextChart), Action::PrevChart), model);
    }
    let split = Model::new(false, 3);
    assert_eq!(update(split, Action::NextChart), split);
    assert_eq!(update(split, Action::PrevChart), split);
}

#[test]
fn quit_and_tick() {
    let model = Model::new(true, 2);
    assert!(!model.should_quit);
    assert_eq!(update(model, Action::Tick), model);
    let closing = update(model, Action::Quit);
    assert!(closing.should_quit);
    assert_eq!(closing.chart_type, model.chart_type);
    assert_eq!(closing.scroll_offset, model.scroll_offset);
}

#[test]
fn keys_map_to_their_actions() {
    let plain = |c: char| key_action(KeyPress::plain(Key::Char(c)));
    assert_eq!(plain('q'), Some(Action::Quit));
    assert_eq!(key_action(KeyPress::plain(Key::Esc)), Some(Action::Quit));
    assert_eq!(key_action(KeyPress::with_control(Key::Char('c'))), Some(Action::Quit));
    assert_eq!(plain('c'), None);
    assert_eq!(key_action(KeyPress::plain(Key::Tab)), Some(Action::NextChart));
    assert_eq!(key_action(KeyPress::plain(Key::Right)), Some(Action::NextChart));
    assert_eq!(plain('l'), Some(Action::NextChart));
    assert_eq!(key_action(KeyPress::plain(Key::BackTab)), Some(Action::PrevChart));
    assert_eq!(key_action(KeyPress::plain(Key::Left)), Some(Action::PrevChart));
    assert_eq!(plain('h'), Some(Action::PrevChart));
    assert_eq!(key_action(KeyPress::plain(Key::Up)), Some(Action::ScrollUp));
    assert_eq!(plain('k'), Some(Action::ScrollUp));
    assert_eq!(key_action(KeyPress::plain(Key::Down)), Some(Action::ScrollDown));
    assert_eq!(plain('j'), Some(Action::ScrollDown));
    assert_eq!(plain('m'), Some(Action::ToggleMode));
    assert_eq!(plain('x'), None);
    assert_eq!(plain('Q'), None);
    assert_eq!(key_action(KeyPress::plain(Key::Other)), None);
    assert_eq!(key_action(KeyPress::with_control(Key::Char('l'))), Some(Action::NextChart));
}

#[test]
fn a_closed_source_counts_as_a_tick() {
    assert_eq!(next_action(None), Action::Tick);
    assert_eq!(next_action(Some(Event::Tick)), Action::Tick);
    assert_eq!(next_action(Some(Event::Resize(80, 24))), Action::Tick);
    assert_eq!(next_action(Some(Event::Key(KeyPress::plain(Key::Char('z'))))), Action::Tick);
    assert_eq!(next_action(Some(Event::Key(KeyPress::plain(Key::Char('m'))))), Action::ToggleMode);
}

#[test]
fn handle_key_drives_the_dashboard() {
    let mut app = App::new(make_result_with_multiple_days(), ActivityStats::default(), false);
    app.handle_key(KeyPress::plain(Key::Up));
    app.handle_key(KeyPress::plain(Key::Char('k')));
    assert_eq!(app.scroll_offset, 2);
    app.handle_key(KeyPress::plain(Key::Tab));
    assert_eq!(app.chart_type, ChartType::Commits);
    app.handle_key(KeyPress::plain(Key::Char('m')));
    assert!(app.single_metric);
    assert_eq!(app.scroll_offset, 0);
    app.handle_key(KeyPress::plain(Key::Up));
    assert_eq!(app.scroll_offset, 0);
    app.handle_key(KeyPress::plain(Key::Tab));
    app.handle_key(KeyPress::plain(Key::Right));
    assert_eq!(app.chart_type, ChartType::AddDel);
    app.handle_key(KeyPress::plain(Key::Up));
    assert_eq!(app.scroll_offset, 1);
    app.handle_key(KeyPress::plain(Key::Down));
    app.handle_key(KeyPress::plain(Key::Char('j')));
    assert_eq!(app.scroll_offset, 0);
    app.handle_key(KeyPress::plain(Key::Left));
    assert_eq!(app.chart_type, ChartType::FilesChanged);
    app.handle_key(KeyPress::plain(Key::Char('x')));
    assert!(!app.should_quit);
    app.handle_key(KeyPress::with_control(Key::Char('c')));
    assert!(app.should_quit);
    assert_eq!(app.result.stats.len(), 5);
}

#[test]
fn weekday_labels_start_on_monday() {
    assert_eq!(
        ActivityStats::weekday_labels(),
        ["Mon", "Tue", "Wed", "Thu", "Fri", "Sat", "Sun"]
    );
    let none = ActivityStats::default();
    assert_eq!(none.weekday, [0; 7]);
    assert_eq!(none.hourly, [0; 24]);
}

#[test]
fn the_view_scrolls_except_on_single_charts_other_than_add_del() {
    for single in [false, true] {
        for chart in [
            ChartType::Commits,
            ChartType::FilesChanged,
            ChartType::AddDel,
            ChartType::Weekday,
            ChartType::Hour,
        ] {
            let mut model = Model::new(single, 3);
            model.chart_type = chart;
            assert_eq!(model.scrollable(), !(single && chart != ChartType::AddDel));
            assert_eq!(update(model, Action::ScrollUp).scroll_offset, usize::from(model.scrollable()));
        }
    }
}
