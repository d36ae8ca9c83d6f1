use git_stats::date::Date;
use git_stats::output::json::JsonDocument;
use git_stats::output::{CsvFormatter, Formatter, JsonFormatter};
use git_stats::stats::{AnalysisResult, PeriodStats, TotalStats};

fn ymd(year: i32, month: u32, day: u32) -> Date {
    Date::from_ymd_opt(year, month, day).unwrap()
}

fn make_result() -> AnalysisResult {
    let from = ymd(2024, 1, 1);
    let to = ymd(2024, 1, 7);

    let stats = vec![
        PeriodStats {
            label: "2024-01-01".to_string(),
            date: from,
            commits: 5,
            additions: 100,
            deletions: 20,
            net_lines: 80,
            files_changed: 10,
        },
        PeriodStats {
            label: "2024-01-02".to_string(),
            date: ymd(2024, 1, 2),
            commits: 3,
            additions: 50,
            deletions: 10,
            net_lines: 40,
            files_changed: 5,
        },
    ];

    AnalysisResult {
        repository: "test-repo".to_string(),
        period: "daily".to_string(),
        from,
        to,
        stats,
        total: TotalStats {
            commits: 8,
            additions: 150,
            deletions: 30,
            net_lines: 120,
            files_changed: 15,
        },
    }
}

fn make_negative_result() -> AnalysisResult {
    let from = ymd(2024, 1, 1);
    AnalysisResult {
        repository: "test".to_string(),
        period: "daily".to_string(),
        from,
        to: from,
        stats: vec![PeriodStats {
            label: "2024-01-01".to_string(),
            date: from,
            commits: 1,
            additions: 10,
            deletions: 50,
            net_lines: -40,
            files_changed: 1,
        }],
        total: TotalStats {
            commits: 1,
            additions: 10,
            deletions: 50,
            net_lines: -40,
            files_changed: 1,
        },
    }
}

#[test]
fn test_csv_formatter_with_headers() {
    let formatter = CsvFormatter::new();
    let result = make_result();

    let csv = formatter.format(&result).unwrap();

    assert!(csv.starts_with("date,commits,additions,deletions,net_lines,files_changed\n"));
    assert!(csv.contains("2024-01-01,5,100,20,80,10\n"));
    assert!(csv.contains("2024-01-02,3,50,10,40,5\n"));
    assert!(csv.contains("TOTAL,8,150,30,120,15\n"));
}

#[test]
fn test_csv_formatter_without_headers() {
    let formatter = CsvFormatter::without_headers();
    let result = make_result();

    let csv = formatter.format(&result).unwrap();

    assert!(!csv.starts_with("date,"));
    assert!(csv.starts_with("2024-01-01,5,100,20,80,10\n"));
}

#[test]
fn test_csv_formatter_line_count() {
    let formatter = CsvFormatter::new();
    let result = make_result();

    let csv = formatter.format(&result).unwrap();
    let lines: Vec<&str> = csv.lines().collect();

    // Header + 2 data rows + 1 total row = 4 lines
    assert_eq!(lines.len(), 4);
}

#[test]
fn test_csv_negative_values() {
    let result = make_negative_result();

    let formatter = CsvFormatter::new();
    let csv = formatter.format(&result).unwrap();

    assert!(csv.contains("-40"));
}

#[test]
fn test_json_formatter_pretty() {
    let formatter = JsonFormatter::new();
    let result = make_result();

    let json = formatter.format(&result).unwrap();

    // Pretty printed JSON should have newlines
    assert!(json.contains('\n'));
    assert!(json.contains("test-repo"));
    assert!(json.contains("\"commits\": 5"));
}

#[test]
fn test_json_formatter_compact() {
    let formatter = JsonFormatter::compact();
    let result = make_result();

    let json = formatter.format(&result).unwrap();

    // Compact JSON should not have newlines (except possibly in strings)
    assert!(!json.contains("\n  "));
    assert!(json.contains("test-repo"));
}

#[test]
fn test_json_formatter_valid_json() {
    let formatter = JsonFormatter::new();
    let result = make_result();

    let json = formatter.format(&result).unwrap();

    // Should be valid JSON that can be parsed back
    let parsed: serde_json::Value = serde_json::from_str(&json).unwrap();
    assert_eq!(parsed["repository"], "test-repo");
    assert_eq!(parsed["period"], "daily");
    assert_eq!(parsed["stats"].as_array().unwrap().len(), 2);
}

#[test]
fn test_json_date_format() {
    let formatter = JsonFormatter::new();
    let result = make_result();

    let json = formatter.format(&result).unwrap();

    // Dates should be in YYYY-MM-DD format
    assert!(json.contains("\"from\": \"2024-01-01\""));
    assert!(json.contains("\"to\": \"2024-01-07\""));
}

#[test]
fn csv_is_exact() {
    let csv = CsvFormatter::new().format(&make_result()).unwrap();
    assert_eq!(
        csv,
        "date,commits,additions,deletions,net_lines,files_changed\n\
         2024-01-01,5,100,20,80,10\n\
         2024-01-02,3,50,10,40,5\n\
         TOTAL,8,150,30,120,15\n"
    );
    let bare = CsvFormatter::without_headers().to_csv(&make_negative_result());
    assert_eq!(bare, "2024-01-01,1,10,50,-40,1\nTOTAL,1,10,50,-40,1\n");
    assert!(CsvFormatter::default().include_headers);
}

#[test]
fn csv_of_extreme_numbers() {
    let day = ymd(1999, 12, 31);
    let result = AnalysisResult {
        repository: "r".to_string(),
        period: "daily".to_string(),
        from: day,
        to: day,
        stats: vec![PeriodStats {
            label: "x".to_string(),
            date: day,
            commits: u32::MAX,
            additions: u64::MAX,
            deletions: 0,
            net_lines: i64::MIN,
            files_changed: 0,
        }],
        total: TotalStats {
            commits: 0,
            additions: 0,
            deletions: 0,
            net_lines: i64::MAX,
            files_changed: 10,
        },
    };
    let csv = CsvFormatter::without_headers().to_csv(&result);
    assert_eq!(
        csv,
        "1999-12-31,4294967295,18446744073709551615,0,-9223372036854775808,0\n\
         TOTAL,0,0,0,9223372036854775807,10\n"
    );
}

#[test]
fn compact_json_is_exact() {
    let json = JsonFormatter::compact().format(&make_negative_result()).unwrap();
    assert_eq!(
        json,
        "{\"repository\":\"test\",\"period\":\"daily\",\"from\":\"2024-01-01\",\
         \"to\":\"2024-01-01\",\"stats\":[{\"label\":\"2024-01-01\",\"date\":\"2024-01-01\",\
         \"commits\":1,\"additions\":10,\"deletions\":50,\"net_lines\":-40,\"files_changed\":1}],\
         \"total\":{\"commits\":1,\"additions\":10,\"deletions\":50,\"net_lines\":-40,\
         \"files_changed\":1}}"
    );
}

#[test]
fn pretty_json_is_exact() {
    let json = JsonFormatter::new().format(&make_negative_result()).unwrap();
    let expected = r#"{
  "repository": "test",
  "period": "daily",
  "from": "2024-01-01",
  "to": "2024-01-01",
  "stats": [
    {
      "label": "2024-01-01",
      "date": "2024-01-01",
      "commits": 1,
      "additions": 10,
      "deletions": 50,
      "net_lines": -40,
      "files_changed": 1
    }
  ],
  "total": {
    "commits": 1,
    "additions": 10,
    "deletions": 50,
    "net_lines": -40,
    "files_changed": 1
  }
}"#;
    assert_eq!(json, expected);
    assert!(JsonFormatter::default().pretty);
}

#[test]
fn json_agrees_with_serde_json_on_layout() {
    let result = make_result();
    let row = |label: &str, date: &str, n: [i64; 5]| {
        let mut map = serde_json::Map::new();
        map.insert("label".to_string(), serde_json::Value::from(label));
        map.insert("date".to_string(), serde_json::Value::from(date));
        map.insert("commits".to_string(), serde_json::Value::from(n[0]));
        map.insert("additions".to_string(), serde_json::Value::from(n[1]));
        map.insert("deletions".to_string(), serde_json::Value::from(n[2]));
        map.insert("net_lines".to_string(), serde_json::Value::from(n[3]));
        map.insert("files_changed".to_string(), serde_json::Value::from(n[4]));
        serde_json::Value::Object(map)
    };
    let mut total = serde_json::Map::new();
    total.insert("commits".to_string(), serde_json::Value::from(8));
    total.insert("additions".to_string(), serde_json::Value::from(150));
    total.insert("deletions".to_string(), serde_json::Value::from(30));
    total.insert("net_lines".to_string(), serde_json::Value::from(120));
    total.insert("files_changed".to_string(), serde_json::Value::from(15));
    let mut doc = serde_json::Map::new();
    doc.insert("repository".to_string(), serde_json::Value::from("test-repo"));
    doc.insert("period".to_string(), serde_json::Value::from("daily"));
    doc.insert("from".to_string(), serde_json::Value::from("2024-01-01"));
    doc.insert("to".to_string(), serde_json::Value::from("2024-01-07"));
    doc.insert(
        "stats".to_string(),
        serde_json::Value::Array(vec![
            row("2024-01-01", "2024-01-01", [5, 100, 20, 80, 10]),
            row("2024-01-02", "2024-01-02", [3, 50, 10, 40, 5]),
        ]),
    );
    doc.insert("total".to_string(), serde_json::Value::Object(total));
    let expected = serde_json::Value::Object(doc);

    let pretty = JsonFormatter::new().format(&result).unwrap();
    let compact = JsonFormatter::compact().format(&result).unwrap();
    let parsed_pretty: serde_json::Value = serde_json::from_str(&pretty).unwrap();
    let parsed_compact: serde_json::Value = serde_json::from_str(&compact).unwrap();
    assert_eq!(parsed_pretty, expected);
    assert_eq!(parsed_compact, expected);
}

#[test]
fn json_without_periods_and_with_strings_to_escape() {
    let day = ymd(2024, 1, 1);
    let result = AnalysisResult {
        repository: "a \"quoted\" \\ name\n".to_string(),
        period: "weekly".to_string(),
        from: day,
        to: day,
        stats: vec![],
        total: TotalStats::default(),
    };
    let compact = JsonFormatter::compact().format(&result).unwrap();
    assert_eq!(
        compact,
        "{\"repository\":\"a \\\"quoted\\\" \\\\ name\\n\",\"period\":\"weekly\",\
         \"from\":\"2024-01-01\",\"to\":\"2024-01-01\",\"stats\":[],\
         \"total\":{\"commits\":0,\"additions\":0,\"deletions\":0,\"net_lines\":0,\
         \"files_changed\":0}}"
    );
    let pretty = JsonFormatter::new().format(&result).unwrap();
    assert!(pretty.contains("\n  \"stats\": [],\n"));
    let parsed: serde_json::Value = serde_json::from_str(&pretty).unwrap();
    assert_eq!(parsed["repository"], "a \"quoted\" \\ name\n");
}

#[test]
fn a_prepared_document_renders_what_it_holds() {
    let doc = JsonDocument::prepare(&make_negative_result()).unwrap();
    assert_eq!(doc.repository, "\"test\"");
    assert_eq!(doc.rows.len(), 1);
    assert_eq!(doc.rows[0].label, "\"2024-01-01\"");
    assert_eq!(doc.rows[0].net_lines, -40);
    let text = doc.render(false);
    assert!(text.starts_with("{\"repository\":\"test\","));
}
