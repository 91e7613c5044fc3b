use gitlab_report::date::{parse_date_prefix, Date};
use gitlab_report::response::{
    records_from_response, FetchError, MalformedPart, ResponseData, UserTimeLogsCurrentUser,
    UserTimeLogsCurrentUserTimelogs, UserTimeLogsCurrentUserTimelogsNodes,
    UserTimeLogsCurrentUserTimelogsNodesIssue, UserTimeLogsCurrentUserTimelogsNodesProject,
};

fn node(
    spent_at: Option<&str>,
    project: &str,
    issue: Option<(&str, &str)>,
    time_spent: i64,
) -> UserTimeLogsCurrentUserTimelogsNodes {
    UserTimeLogsCurrentUserTimelogsNodes {
        id: "gid://gitlab/Timelog/7".to_string(),
        spent_at: spent_at.map(|s| s.to_string()),
        project: UserTimeLogsCurrentUserTimelogsNodesProject { name: project.to_string() },
        issue: issue.map(|(id, title)| UserTimeLogsCurrentUserTimelogsNodesIssue {
            id: id.to_string(),
            title: title.to_string(),
        }),
        time_spent,
    }
}

fn response(
    nodes: Option<Vec<Option<UserTimeLogsCurrentUserTimelogsNodes>>>,
) -> Option<ResponseData> {
    Some(ResponseData {
        current_user: Some(UserTimeLogsCurrentUser {
            timelogs: Some(UserTimeLogsCurrentUserTimelogs { nodes }),
        }),
    })
}

#[test]
fn decode_good_response() {
    let nodes = vec![
        Some(node(
            Some("2021-01-04T08:00:00Z"),
            "gitlab-report",
            Some(("gid://gitlab/Issue/1", "write the report")),
            1800,
        )),
        Some(node(
            Some("2021-01-05T09:30:00Z"),
            "important-issues",
            Some(("gid://gitlab/Issue/2", "triage")),
            15600,
        )),
    ];
    let records = records_from_response(response(Some(nodes))).expect("well-formed response");
    assert_eq!(records.len(), 2);
    assert_eq!(records[0].spent_at, Date { year: 2021, month: 1, day: 4 });
    assert_eq!(records[0].time_spent_seconds, 1800);
    assert_eq!(records[0].project.name, "gitlab-report");
    assert_eq!(records[0].issue_id, "gid://gitlab/Issue/1");
    assert_eq!(records[0].issue_title, "write the report");
    assert_eq!(records[1].spent_at, Date { year: 2021, month: 1, day: 5 });
}

#[test]
fn decode_missing_issue_fails_whole_fetch() {
    let nodes = vec![
        Some(node(
            Some("2021-01-04T08:00:00Z"),
            "gitlab-report",
            Some(("gid://gitlab/Issue/1", "fine")),
            1800,
        )),
        Some(node(Some("2021-01-05T09:30:00Z"), "broken", None, 60)),
    ];
    let r = records_from_response(response(Some(nodes)));
    assert_eq!(r.unwrap_err(), FetchError::MalformedResponse(MalformedPart::Issue));
}

#[test]
fn decode_missing_pieces() {
    assert_eq!(
        records_from_response(None).unwrap_err(),
        FetchError::MalformedResponse(MalformedPart::Data)
    );
    assert_eq!(
        records_from_response(Some(ResponseData { current_user: None })).unwrap_err(),
        FetchError::MalformedResponse(MalformedPart::CurrentUser)
    );
    assert_eq!(
        records_from_response(Some(ResponseData {
            current_user: Some(UserTimeLogsCurrentUser { timelogs: None })
        }))
        .unwrap_err(),
        FetchError::MalformedResponse(MalformedPart::Timelogs)
    );
    assert_eq!(
        records_from_response(response(None)).unwrap_err(),
        FetchError::MalformedResponse(MalformedPart::Nodes)
    );
    assert_eq!(
        records_from_response(response(Some(vec![None]))).unwrap_err(),
        FetchError::MalformedResponse(MalformedPart::Node)
    );
}

#[test]
fn decode_missing_or_bad_timestamp() {
    let nodes = vec![Some(node(None, "p", Some(("i", "t")), 60))];
    assert_eq!(
        records_from_response(response(Some(nodes))).unwrap_err(),
        FetchError::MalformedResponse(MalformedPart::SpentAt)
    );
    let nodes = vec![Some(node(Some("04-01-2021T08:00:00Z"), "p", Some(("i", "t")), 60))];
    assert_eq!(
        records_from_response(response(Some(nodes))).unwrap_err(),
        FetchError::MalformedResponse(MalformedPart::SpentAtFormat)
    );
}

#[test]
fn decode_negative_time_spent() {
    let nodes = vec![Some(node(Some("2021-01-04T08:00:00Z"), "p", Some(("i", "t")), -60))];
    assert_eq!(
        records_from_response(response(Some(nodes))).unwrap_err(),
        FetchError::MalformedResponse(MalformedPart::TimeSpent)
    );
}

#[test]
fn parse_date_prefix_accepts_iso_timestamps() {
    assert_eq!(
        parse_date_prefix("2021-01-04T00:00:00Z"),
        Some(Date { year: 2021, month: 1, day: 4 })
    );
    assert_eq!(parse_date_prefix("2024-02-29"), Some(Date { year: 2024, month: 2, day: 29 }));
}

#[test]
fn parse_date_prefix_rejects_deviations() {
    assert_eq!(parse_date_prefix("2021-1-04T00:00:00Z"), None);
    assert_eq!(parse_date_prefix("2021-13-01T00:00:00Z"), None);
    assert_eq!(parse_date_prefix("2021-00-10T00:00:00Z"), None);
    assert_eq!(parse_date_prefix("2021-02-30T00:00:00Z"), None);
    assert_eq!(parse_date_prefix("2023-02-29T00:00:00Z"), None);
    assert_eq!(parse_date_prefix("2021-01-0"), None);
    assert_eq!(parse_date_prefix(""), None);
}
