use gitlab_report::date::Date;
use gitlab_report::duration::{decompose, mandays};
use gitlab_report::report::{build_report, try_build_report, Report};
use gitlab_report::timelog::{filter_records, DateRange, Record};
use gitlab_report::response::UserTimeLogsCurrentUserTimelogsNodesProject;

fn record(y: u32, m: u32, d: u32, seconds: u64, project: &str) -> Record {
    Record {
        spent_at: Date { year: y, month: m, day: d },
        time_spent_seconds: seconds,
        project: UserTimeLogsCurrentUserTimelogsNodesProject { name: project.to_string() },
        issue_id: "gid://gitlab/Issue/1".to_string(),
        issue_title: "an issue".to_string(),
    }
}

#[test]
fn decompose_drops_odd_seconds() {
    let t = decompose(3661);
    assert_eq!((t.days, t.hours, t.minutes), (0, 1, 1));
}

#[test]
fn decompose_whole_day() {
    let t = decompose(86400 + 2 * 3600 + 3 * 60 + 59);
    assert_eq!((t.days, t.hours, t.minutes), (1, 2, 3));
}

#[test]
fn mandays_exact_workday() {
    let m = mandays(28800);
    assert_eq!((m.days, m.hours, m.minutes, m.extra_seconds), (1, 0, 0, 0));
}

#[test]
fn mandays_eight_and_a_half_hours() {
    let m = mandays(30600);
    assert_eq!((m.days, m.hours, m.minutes, m.extra_seconds), (1, 0, 30, 0));
}

#[test]
fn empty_report_has_zero_totals() {
    let range = DateRange {
        start: Date { year: 2021, month: 1, day: 4 },
        end: Date { year: 2021, month: 1, day: 10 },
    };
    let r = build_report(&vec![], &range);
    assert_eq!(
        r.as_str(),
        "From 2021-01-04\nTo 2021-01-10\n\n\nTotal: 0d 0h 0m\nTotal mandays: 0d 0h 0m\n"
    );
}

#[test]
fn report_out_of_range_records_counts_nothing() {
    let range = DateRange {
        start: Date { year: 2021, month: 1, day: 4 },
        end: Date { year: 2021, month: 1, day: 10 },
    };
    let records = vec![record(2021, 1, 3, 600, "early"), record(2021, 1, 11, 600, "late")];
    let r = build_report(&records, &range);
    assert_eq!(
        r.as_str(),
        "From 2021-01-04\nTo 2021-01-10\n\n\nTotal: 0d 0h 0m\nTotal mandays: 0d 0h 0m\n"
    );
}

#[test]
fn report_example_week() {
    let range = DateRange {
        start: Date { year: 2021, month: 1, day: 4 },
        end: Date { year: 2021, month: 1, day: 10 },
    };
    let records = vec![
        record(2021, 1, 4, 30 * 60, "gitlab-report"),
        record(2021, 1, 5, 4 * 3600 + 20 * 60, "important-issues"),
        record(2021, 1, 6, 7 * 3600, "random-project"),
    ];
    let r = build_report(&records, &range);
    assert_eq!(
        r.as_str(),
        "From 2021-01-04\nTo 2021-01-10\n\n\
         0d 0h 30m on gitlab-report\n\
         0d 4h 20m on important-issues\n\
         0d 7h 0m on random-project\n\n\
         Total: 0d 11h 50m\nTotal mandays: 1d 3h 50m\n"
    );
}

#[test]
fn report_merges_projects_in_first_occurrence_order() {
    let range = DateRange {
        start: Date { year: 2022, month: 6, day: 1 },
        end: Date { year: 2022, month: 6, day: 30 },
    };
    let records = vec![
        record(2022, 6, 2, 100, "beta"),
        record(2022, 6, 3, 50, "alpha"),
        record(2022, 6, 4, 25, "beta"),
    ];
    let r = build_report(&records, &range);
    assert!(r.contains("0d 0h 2m on beta\n0d 0h 0m on alpha\n"), "report was: {r}");
}

#[test]
fn mandays_fractional_half_minute() {
    // 90 seconds is 1.5 minutes of a manday: the half minute is shown.
    let range = DateRange {
        start: Date { year: 2022, month: 6, day: 1 },
        end: Date { year: 2022, month: 6, day: 30 },
    };
    let records = vec![record(2022, 6, 2, 90, "tiny")];
    let r = build_report(&records, &range);
    assert!(r.ends_with("Total mandays: 0d 0h 1.5m\n"), "report was: {r}");
}

#[test]
fn mandays_fractional_third_of_a_minute() {
    let range = DateRange {
        start: Date { year: 2022, month: 6, day: 1 },
        end: Date { year: 2022, month: 6, day: 30 },
    };
    let records = vec![record(2022, 6, 2, 80, "tiny")];
    let r = build_report(&records, &range);
    assert!(r.ends_with("Total mandays: 0d 0h 1.333333333333333m\n"), "report was: {r}");
}

#[test]
fn filter_keeps_boundary_dates() {
    let range = DateRange {
        start: Date { year: 2021, month: 1, day: 4 },
        end: Date { year: 2021, month: 1, day: 10 },
    };
    let records = vec![
        record(2021, 1, 3, 1, "before"),
        record(2021, 1, 4, 2, "on-start"),
        record(2021, 1, 7, 3, "inside"),
        record(2021, 1, 10, 4, "on-end"),
        record(2021, 1, 11, 5, "after"),
    ];
    let kept = filter_records(&records, &range);
    let names: Vec<&str> = kept.iter().map(|r| r.project.name.as_str()).collect();
    assert_eq!(names, vec!["on-start", "inside", "on-end"]);
}

#[test]
fn reversed_range_matches_nothing() {
    let range = DateRange {
        start: Date { year: 2021, month: 1, day: 10 },
        end: Date { year: 2021, month: 1, day: 4 },
    };
    let records = vec![record(2021, 1, 7, 3, "inside")];
    let kept = filter_records(&records, &range);
    assert!(kept.is_empty());
    let r = build_report(&records, &range);
    assert_eq!(
        r.as_str(),
        "From 2021-01-10\nTo 2021-01-04\n\n\nTotal: 0d 0h 0m\nTotal mandays: 0d 0h 0m\n"
    );
}

#[test]
fn try_build_report_succeeds_on_small_totals() {
    let range = DateRange {
        start: Date { year: 2021, month: 1, day: 4 },
        end: Date { year: 2021, month: 1, day: 10 },
    };
    let records = vec![record(2021, 1, 5, 60, "p")];
    let r = try_build_report(&records, &range).expect("small totals must render");
    assert!(r.contains("0d 0h 1m on p\n"));
}

#[test]
fn report_defaults_fill_missing_dates() {
    let monday = Date { year: 2023, month: 5, day: 1 };
    let today = Date { year: 2023, month: 5, day: 3 };
    let opts = Report { start_date: None, end_date: None, from_beginning: false };
    assert_eq!(opts.start_date(monday), monday);
    assert_eq!(opts.end_date(today), today);

    let explicit = Report {
        start_date: Some(Date { year: 2023, month: 4, day: 1 }),
        end_date: Some(Date { year: 2023, month: 4, day: 30 }),
        from_beginning: false,
    };
    assert_eq!(explicit.start_date(monday), Date { year: 2023, month: 4, day: 1 });
    assert_eq!(explicit.end_date(today), Date { year: 2023, month: 4, day: 30 });
}

#[test]
fn from_beginning_starts_at_the_epoch() {
    let monday = Date { year: 2023, month: 5, day: 1 };
    let opts = Report {
        start_date: Some(Date { year: 2023, month: 4, day: 1 }),
        end_date: None,
        from_beginning: true,
    };
    assert_eq!(opts.start_date(monday), Date { year: 1970, month: 1, day: 1 });
}
