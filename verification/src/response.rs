//! The fixed GraphQL query this tool issues and the shape of its response,
//! with the decoding of a response into time-log records.

use vstd::prelude::*;
use crate::date::spec_parse_date;
use crate::date::parse_date_prefix;
use crate::timelog::Record;

verus! {

/// Marker for the one query this tool issues.
pub struct UserTimeLogs;

/// The query has no variables.
pub struct Variables;

pub const OPERATION_NAME: &'static str = "UserTimeLogs";

/// The one query this tool sends. It asks for no pagination cursor, so
/// only the first page of results the service returns is retrieved; that
/// is a known limitation, not silently worked around.
pub const QUERY: &'static str =
    "query UserTimeLogs {\n  currentUser {\n    timelogs {\n      nodes {\n        id\n        spentAt\n        project {\n          name\n        }\n        issue {\n          id,\n          title\n        }\n        timeSpent\n      }\n    }\n  }\n}\n\n";

/// The response document: every nesting level the service may omit is an
/// `Option`, and decoding decides what a missing level means.
pub struct ResponseData {
    pub current_user: Option<UserTimeLogsCurrentUser>,
}

pub struct UserTimeLogsCurrentUser {
    pub timelogs: Option<UserTimeLogsCurrentUserTimelogs>,
}

pub struct UserTimeLogsCurrentUserTimelogs {
    pub nodes: Option<Vec<Option<UserTimeLogsCurrentUserTimelogsNodes>>>,
}

pub struct UserTimeLogsCurrentUserTimelogsNodes {
    pub id: String,
    pub spent_at: Option<String>,
    pub project: UserTimeLogsCurrentUserTimelogsNodesProject,
    pub issue: Option<UserTimeLogsCurrentUserTimelogsNodesIssue>,
    pub time_spent: i64,
}

#[derive(Debug)]
pub struct UserTimeLogsCurrentUserTimelogsNodesProject {
    pub name: String,
}

impl Clone for UserTimeLogsCurrentUserTimelogsNodesProject {
    fn clone(&self) -> (r: Self)
        ensures
            r == *self,
    {
        UserTimeLogsCurrentUserTimelogsNodesProject { name: self.name.clone() }
    }
}

pub struct UserTimeLogsCurrentUserTimelogsNodesIssue {
    pub id: String,
    pub title: String,
}

/// The part of the response that made decoding fail.
#[derive(Clone, Copy, PartialEq, Eq, Structural, Debug)]
pub enum MalformedPart {
    /// The response held no data document at all.
    Data,
    /// `currentUser` was absent.
    CurrentUser,
    /// `timelogs` was absent.
    Timelogs,
    /// The node list was absent.
    Nodes,
    /// A node of the list was absent.
    Node,
    /// A node had no `issue`.
    Issue,
    /// A node had no `spentAt` timestamp.
    SpentAt,
    /// A `spentAt` value did not start with a `YYYY-MM-DD` calendar day.
    SpentAtFormat,
    /// A node reported a negative number of seconds.
    TimeSpent,
}

/// Why a fetch produced no records.
#[derive(Clone, Copy, PartialEq, Eq, Structural, Debug)]
pub enum FetchError {
    /// The service rejected the bearer token.
    Unauthorized,
    /// The request itself failed.
    Transport,
    /// The response did not have the expected shape.
    MalformedResponse(MalformedPart),
}

/// What decoding one node yields: its record, or the first defect found,
/// checking the node itself, then its issue, then its timestamp, then the
/// timestamp's date prefix, then the sign of the time spent.
pub open spec fn decode_node(n: Option<UserTimeLogsCurrentUserTimelogsNodes>) -> Result<
    Record,
    FetchError,
> {
    match n {
        None => Err(FetchError::MalformedResponse(MalformedPart::Node)),
        Some(node) => match node.issue {
            None => Err(FetchError::MalformedResponse(MalformedPart::Issue)),
            Some(issue) => match node.spent_at {
                None => Err(FetchError::MalformedResponse(MalformedPart::SpentAt)),
                Some(ts) => match spec_parse_date(ts@) {
                    None => Err(FetchError::MalformedResponse(MalformedPart::SpentAtFormat)),
                    Some(d) => if node.time_spent < 0 {
                        Err(FetchError::MalformedResponse(MalformedPart::TimeSpent))
                    } else {
                        Ok(
                            Record {
                                spent_at: d,
                                time_spent_seconds: node.time_spent as u64,
                                project: node.project,
                                issue_id: issue.id,
                                issue_title: issue.title,
                            },
                        )
                    },
                },
            },
        },
    }
}

/// Decodes the nodes in order; the first defective node fails the whole
/// list. Failing the fetch rather than skipping the bad record is a
/// deliberate policy choice.
pub open spec fn decode_nodes(nodes: Seq<Option<UserTimeLogsCurrentUserTimelogsNodes>>) -> Result<
    Seq<Record>,
    FetchError,
>
    decreases nodes.len(),
{
    if nodes.len() == 0 {
        Ok(Seq::empty())
    } else {
        match decode_nodes(nodes.drop_last()) {
            Err(e) => Err(e),
            Ok(rs) => match decode_node(nodes.last()) {
                Err(e) => Err(e),
                Ok(r) => Ok(rs.push(r)),
            },
        }
    }
}

/// What decoding a whole response yields: the records of all nodes, or the
/// first defect found walking the nesting from the outside in.
pub open spec fn spec_decode(data: Option<ResponseData>) -> Result<Seq<Record>, FetchError> {
    match data {
        None => Err(FetchError::MalformedResponse(MalformedPart::Data)),
        Some(d) => match d.current_user {
            None => Err(FetchError::MalformedResponse(MalformedPart::CurrentUser)),
            Some(u) => match u.timelogs {
                None => Err(FetchError::MalformedResponse(MalformedPart::Timelogs)),
                Some(t) => match t.nodes {
                    None => Err(FetchError::MalformedResponse(MalformedPart::Nodes)),
                    Some(ns) => decode_nodes(ns@),
                },
            },
        },
    }
}

/// Every record that survives decoding carries a real calendar date; its
/// duration is non-negative by its type.
pub proof fn lemma_decoded_records_valid(data: Option<ResponseData>)
    ensures
        spec_decode(data) matches Ok(rs) ==> forall|i: int|
            0 <= i < rs.len() ==> (#[trigger] rs[i]).spent_at.valid(),
{
    match data {
        Some(d) => match d.current_user {
            Some(u) => match u.timelogs {
                Some(t) => match t.nodes {
                    Some(ns) => {
                        lemma_decode_nodes_valid(ns@);
                    },
                    None => {},
                },
                None => {},
            },
            None => {},
        },
        None => {},
    }
}

proof fn lemma_decode_nodes_valid(nodes: Seq<Option<UserTimeLogsCurrentUserTimelogsNodes>>)
    ensures
        decode_nodes(nodes) matches Ok(rs) ==> forall|i: int|
            0 <= i < rs.len() ==> (#[trigger] rs[i]).spent_at.valid(),
    decreases nodes.len(),
{
    if nodes.len() > 0 {
        lemma_decode_nodes_valid(nodes.drop_last());
    }
}

proof fn lemma_decode_err_persists(
    nodes: Seq<Option<UserTimeLogsCurrentUserTimelogsNodes>>,
    i: int,
)
    requires
        0 <= i <= nodes.len(),
        decode_nodes(nodes.take(i)) is Err,
    ensures
        decode_nodes(nodes) == decode_nodes(nodes.take(i)),
    decreases nodes.len() - i,
{
    if i == nodes.len() {
        assert(nodes.take(i) =~= nodes);
    } else {
        assert(nodes.take(i + 1).drop_last() =~= nodes.take(i));
        lemma_decode_err_persists(nodes, i + 1);
    }
}

/// Turns one decoded response into records. Succeeds exactly when the data
/// document, the current user, the timelog list and every node with its
/// issue and timestamp are present, every timestamp starts with a valid
/// `YYYY-MM-DD` day, and no time spent is negative; otherwise reports the
/// first defect found.
pub fn records_from_response(data: Option<ResponseData>) -> (r: Result<Vec<Record>, FetchError>)
    ensures
        r is Ok <==> spec_decode(data) is Ok,
        r matches Ok(v) ==> spec_decode(data) matches Ok(s) && v@ == s,
        r matches Err(e) ==> spec_decode(data) matches Err(e2) && e == e2,
{
    let doc = match data {
        None => {
            return Err(FetchError::MalformedResponse(MalformedPart::Data));
        },
        Some(d) => d,
    };
    let user = match doc.current_user {
        None => {
            return Err(FetchError::MalformedResponse(MalformedPart::CurrentUser));
        },
        Some(u) => u,
    };
    let timelogs = match user.timelogs {
        None => {
            return Err(FetchError::MalformedResponse(MalformedPart::Timelogs));
        },
        Some(t) => t,
    };
    let mut nodes = match timelogs.nodes {
        None => {
            return Err(FetchError::MalformedResponse(MalformedPart::Nodes));
        },
        Some(ns) => ns,
    };
    let ghost all_nodes = nodes@;
    let node_count: usize = nodes.len();
    proof {
        assert(all_nodes.len() == node_count);
        assert(spec_decode(data) == decode_nodes(all_nodes));
    }
    let mut records: Vec<Record> = Vec::new();
    let mut i: usize = 0;
    while nodes.len() > 0
        invariant
            i + nodes@.len() == all_nodes.len(),
            all_nodes.len() <= usize::MAX,
            nodes@ =~= all_nodes.skip(i as int),
            spec_decode(data) == decode_nodes(all_nodes),
            decode_nodes(all_nodes.take(i as int)) matches Ok(rs) && rs == records@,
        decreases nodes@.len(),
    {
        proof {
            assert(all_nodes.take(i + 1).drop_last() =~= all_nodes.take(i as int));
            assert(all_nodes.take(i + 1).last() == all_nodes[i as int]);
            assert(all_nodes[i as int] == nodes@[0]);
        }
        let node_opt = nodes.remove(0);
        proof {
            assert(node_opt == all_nodes[i as int]);
        }
        let node = match node_opt {
            None => {
                proof {
                    assert(decode_nodes(all_nodes.take(i + 1)) is Err);
                    lemma_decode_err_persists(all_nodes, i + 1);
                }
                return Err(FetchError::MalformedResponse(MalformedPart::Node));
            },
            Some(n) => n,
        };
        let ghost gnode = node;
        proof {
            assert(all_nodes[i as int] == Some(gnode));
        }
        let UserTimeLogsCurrentUserTimelogsNodes {
            id: _,
            spent_at,
            project,
            issue,
            time_spent,
        } = node;
        let issue = match issue {
            None => {
                proof {
                    assert(decode_node(Some(gnode)) is Err);
                    assert(decode_nodes(all_nodes.take(i + 1)) is Err);
                    lemma_decode_err_persists(all_nodes, i + 1);
                }
                return Err(FetchError::MalformedResponse(MalformedPart::Issue));
            },
            Some(iss) => iss,
        };
        let ghost gissue = issue;
        let ts = match spent_at {
            None => {
                proof {
                    assert(decode_node(Some(gnode)) is Err);
                    assert(decode_nodes(all_nodes.take(i + 1)) is Err);
                    lemma_decode_err_persists(all_nodes, i + 1);
                }
                return Err(FetchError::MalformedResponse(MalformedPart::SpentAt));
            },
            Some(ts) => ts,
        };
        let d = match parse_date_prefix(ts.as_str()) {
            None => {
                proof {
                    assert(decode_node(Some(gnode)) is Err);
                    assert(decode_nodes(all_nodes.take(i + 1)) is Err);
                    lemma_decode_err_persists(all_nodes, i + 1);
                }
                return Err(FetchError::MalformedResponse(MalformedPart::SpentAtFormat));
            },
            Some(d) => d,
        };
        if time_spent < 0 {
            proof {
                assert(decode_node(Some(gnode)) is Err);
                assert(decode_nodes(all_nodes.take(i + 1)) is Err);
                lemma_decode_err_persists(all_nodes, i + 1);
            }
            return Err(FetchError::MalformedResponse(MalformedPart::TimeSpent));
        }
        records.push(
            Record {
                spent_at: d,
                time_spent_seconds: time_spent as u64,
                project,
                issue_id: issue.id,
                issue_title: issue.title,
            },
        );
        proof {
            assert(decode_node(Some(gnode)) matches Ok(rec) && rec == records@.last());
            assert(decode_nodes(all_nodes.take(i + 1)) matches Ok(rs) && rs == records@);
            assert(nodes@ =~= all_nodes.skip(i + 1));
        }
        i += 1;
    }
    proof {
        assert(all_nodes.take(i as int) =~= all_nodes);
    }
    Ok(records)
}

} // verus!
