//! What the HTTP interface says of recent activity.

use crate::activity::capped;
use crate::activity::ActivityTracker;
use crate::activity::DatabaseAccess;
use crate::activity::DsnActivity;
use crate::activity::DsnActivityType;
use crate::names::NameMap;
use crate::tables::decimal;
use crate::tables::decimal_text;
use vstd::prelude::*;
use vstd::string::StringExecFns;

verus! {

/// The reply to a health check.
#[derive(Clone, Debug)]
pub struct HealthResponse {
    /// `ok` whenever there is a reply.
    pub status: String,
    /// The version of the program.
    pub version: String,
}

impl HealthResponse {
    /// The reply of a server of the given version that is up.
    pub fn ok(version: String) -> (response: HealthResponse)
        ensures
            response.status@ == "ok"@,
            response.version == version,
    {
        HealthResponse { status: String::from_str("ok"), version }
    }
}

/// How much of the recent activity is asked for.
#[derive(Clone, Copy, Debug, PartialEq, Eq, Structural)]
pub struct ActivityQuery {
    /// The most data directories to return.
    pub db_limit: usize,
    /// The most events on data source names to return.
    pub dsn_limit: usize,
}

/// The most data directories returned where the query names no limit.
pub fn default_db_limit() -> (limit: usize)
    ensures
        limit == 10,
{
    10
}

/// The most events returned where the query names no limit.
pub fn default_dsn_limit() -> (limit: usize)
    ensures
        limit == 20,
{
    20
}

/// The most log entries returned where the query names no limit.
pub fn default_log_limit() -> (limit: usize)
    ensures
        limit == 1000,
{
    1000
}

/// One data directory in a reply.
#[derive(Clone, Debug)]
pub struct DatabaseAccessResponse {
    pub path: String,
    pub name: String,
    pub last_accessed: u64,
    /// How long ago the directory was opened, in words.
    pub last_accessed_formatted: String,
    pub table_count: usize,
    pub access_count: usize,
}

/// One event on a data source name in a reply.
#[derive(Clone, Debug)]
pub struct DsnActivityResponse {
    pub dsn_name: String,
    /// The kind of event, by its name.
    pub activity_type: String,
    pub timestamp: u64,
    /// How long ago the event was, in words.
    pub timestamp_formatted: String,
    pub details: NameMap<String>,
}

/// The reply to a query for recent activity.
#[derive(Clone, Debug)]
pub struct ActivityResponse {
    pub recent_databases: Vec<DatabaseAccessResponse>,
    pub dsn_activities: Vec<DsnActivityResponse>,
}

/// How many seconds `timestamp` lies before `now`, 0 if it does not.
pub open spec fn age(now: u64, timestamp: u64) -> nat {
    if now > timestamp {
        (now - timestamp) as nat
    } else {
        0
    }
}

/// How long ago `timestamp` was at the time `now`, in words: just now
/// under a minute, then in minutes, hours and days, and the time stamp
/// itself from 30 days on.
pub open spec fn age_text(now: u64, timestamp: u64) -> Seq<char> {
    let seconds = age(now, timestamp);
    if seconds < 60 {
        "À l'instant"@
    } else if seconds < 3600 {
        "Il y a "@ + decimal_text(seconds / 60) + " min"@
    } else if seconds < 86400 {
        "Il y a "@ + decimal_text(seconds / 3600) + " h"@
    } else if seconds < 2592000 {
        "Il y a "@ + decimal_text(seconds / 86400) + " jours"@
    } else {
        "Timestamp: "@ + decimal_text(timestamp as nat)
    }
}

/// Says how long ago `timestamp` was at the time `now`.
pub fn format_timestamp(now: u64, timestamp: u64) -> (text: String)
    ensures
        text@ == age_text(now, timestamp),
{
    let seconds: u64 = if now > timestamp {
        now - timestamp
    } else {
        0
    };
    if seconds < 60 {
        String::from_str("À l'instant")
    } else if seconds < 3600 {
        String::from_str("Il y a ").concat(decimal(seconds / 60).as_str()).concat(" min")
    } else if seconds < 86400 {
        String::from_str("Il y a ").concat(decimal(seconds / 3600).as_str()).concat(" h")
    } else if seconds < 2592000 {
        String::from_str("Il y a ").concat(decimal(seconds / 86400).as_str()).concat(" jours")
    } else {
        String::from_str("Timestamp: ").concat(decimal(timestamp).as_str())
    }
}

/// The name of a kind of event.
pub open spec fn activity_type_name(kind: DsnActivityType) -> Seq<char> {
    match kind {
        DsnActivityType::Created => "Created"@,
        DsnActivityType::Updated => "Updated"@,
        DsnActivityType::Deleted => "Deleted"@,
        DsnActivityType::Used => "Used"@,
    }
}

/// A data directory as a reply at the time `now` shows it.
pub fn database_response(access: DatabaseAccess, now: u64) -> (response: DatabaseAccessResponse)
    ensures
        response.path == access.path,
        response.name == access.name,
        response.last_accessed == access.last_accessed,
        response.last_accessed_formatted@ == age_text(now, access.last_accessed),
        response.table_count == access.table_count,
        response.access_count == access.access_count,
{
    DatabaseAccessResponse {
        last_accessed_formatted: format_timestamp(now, access.last_accessed),
        path: access.path,
        name: access.name,
        last_accessed: access.last_accessed,
        table_count: access.table_count,
        access_count: access.access_count,
    }
}

/// An event as a reply at the time `now` shows it.
pub fn activity_response(activity: DsnActivity, now: u64) -> (response: DsnActivityResponse)
    ensures
        response.dsn_name == activity.dsn_name,
        response.activity_type@ == activity_type_name(activity.activity_type),
        response.timestamp == activity.timestamp,
        response.timestamp_formatted@ == age_text(now, activity.timestamp),
        response.details == activity.details,
{
    let kind = match activity.activity_type {
        DsnActivityType::Created => "Created",
        DsnActivityType::Updated => "Updated",
        DsnActivityType::Deleted => "Deleted",
        DsnActivityType::Used => "Used",
    };
    DsnActivityResponse {
        timestamp_formatted: format_timestamp(now, activity.timestamp),
        dsn_name: activity.dsn_name,
        activity_type: String::from_str(kind),
        timestamp: activity.timestamp,
        details: activity.details,
    }
}

/// The reply to a query for recent activity at the time `now`: the newest
/// entries of both lists, up to the limits of the query.
pub fn get_activity(tracker: &ActivityTracker, query: ActivityQuery, now: u64) -> (response: ActivityResponse)
    ensures
        response.recent_databases@.len() == capped(tracker.databases(), query.db_limit as nat).len(),
        forall|i: int|
            0 <= i < response.recent_databases@.len() ==> {
                let shown = #[trigger] response.recent_databases@[i];
                let access = tracker.databases()[i];
                &&& shown.path == access.path
                &&& shown.name == access.name
                &&& shown.last_accessed == access.last_accessed
                &&& shown.last_accessed_formatted@ == age_text(now, access.last_accessed)
                &&& shown.table_count == access.table_count
                &&& shown.access_count == access.access_count
            },
        response.dsn_activities@.len() == capped(tracker.activities(), query.dsn_limit as nat).len(),
        forall|i: int|
            0 <= i < response.dsn_activities@.len() ==> {
                let shown = #[trigger] response.dsn_activities@[i];
                let activity = tracker.activities()[i];
                &&& shown.dsn_name@ == activity.dsn_name@
                &&& shown.activity_type@ == activity_type_name(activity.activity_type)
                &&& shown.timestamp == activity.timestamp
                &&& shown.timestamp_formatted@ == age_text(now, activity.timestamp)
                &&& shown.details.spec_entries().len() == activity.details.spec_entries().len()
                &&& forall|k: int|
                    0 <= k < shown.details.spec_entries().len() ==> (
                    #[trigger] shown.details.spec_entries()[k]).name@
                        == activity.details.spec_entries()[k].name@
                        && shown.details.spec_entries()[k].value@
                        == activity.details.spec_entries()[k].value@
            },
{
    let mut recent_databases: Vec<DatabaseAccessResponse> = Vec::new();
    let ghost databases = capped(tracker.databases(), query.db_limit as nat);
    for access in it: tracker.get_recent_databases(query.db_limit)
        invariant
            it.seq() == databases,
            databases == capped(tracker.databases(), query.db_limit as nat),
            recent_databases@.len() == it.index(),
            forall|i: int|
                0 <= i < recent_databases@.len() ==> {
                    let shown = #[trigger] recent_databases@[i];
                    let access = tracker.databases()[i];
                    &&& shown.path == access.path
                    &&& shown.name == access.name
                    &&& shown.last_accessed == access.last_accessed
                    &&& shown.last_accessed_formatted@ == age_text(now, access.last_accessed)
                    &&& shown.table_count == access.table_count
                    &&& shown.access_count == access.access_count
                },
    {
        assert(access == tracker.databases()[it.index()]);
        recent_databases.push(database_response(access, now));
    }
    let mut dsn_activities: Vec<DsnActivityResponse> = Vec::new();
    let recent = tracker.get_dsn_activities(query.dsn_limit);
    let ghost events = recent@;
    assert(events.len() == capped(tracker.activities(), query.dsn_limit as nat).len()) by {
        assert(crate::activity::activity_specs(events).len() == events.len());
    }
    for activity in it: recent
        invariant
            it.seq() == events,
            crate::activity::activity_specs(events) == capped(
                crate::activity::activity_specs(tracker.activities()),
                query.dsn_limit as nat,
            ),
            dsn_activities@.len() == it.index(),
            forall|i: int|
                0 <= i < dsn_activities@.len() ==> {
                    let shown = #[trigger] dsn_activities@[i];
                    let activity = tracker.activities()[i];
                    &&& shown.dsn_name@ == activity.dsn_name@
                    &&& shown.activity_type@ == activity_type_name(activity.activity_type)
                    &&& shown.timestamp == activity.timestamp
                    &&& shown.timestamp_formatted@ == age_text(now, activity.timestamp)
                    &&& shown.details.spec_entries().len() == activity.details.spec_entries().len()
                    &&& forall|k: int|
                        0 <= k < shown.details.spec_entries().len() ==> (
                        #[trigger] shown.details.spec_entries()[k]).name@
                            == activity.details.spec_entries()[k].name@
                            && shown.details.spec_entries()[k].value@
                            == activity.details.spec_entries()[k].value@
                },
    {
        proof {
            let at = it.index();
            let all = crate::activity::activity_specs(tracker.activities());
            assert(crate::activity::activity_specs(events).len() == events.len());
            assert(all.len() == tracker.activities().len());
            assert(crate::activity::activity_specs(events)[at] == activity@);
            assert(capped(all, query.dsn_limit as nat)[at] == all[at]);
            assert(all[at] == tracker.activities()[at]@);
            let mine = activity.details.spec_entries();
            let theirs = tracker.activities()[at].details.spec_entries();
            let pair = |e: crate::names::Named<String>| (e.name@, e.value@);
            assert(mine.map_values(pair) == theirs.map_values(pair));
            assert(mine.map_values(pair).len() == mine.len());
            assert(theirs.map_values(pair).len() == theirs.len());
            assert forall|k: int| 0 <= k < mine.len() implies (#[trigger] mine[k]).name@
                == theirs[k].name@ && mine[k].value@ == theirs[k].value@ by {
                assert(mine.map_values(pair)[k] == pair(mine[k]));
                assert(theirs.map_values(pair)[k] == pair(theirs[k]));
            }
        }
        dsn_activities.push(activity_response(activity, now));
    }
    ActivityResponse { recent_databases, dsn_activities }
}

} // verus!
