use fic_engine::migration::DatabaseType;
use fic_engine::migration::connection_attempts;
use fic_engine::migration::parse_database_type;
use fic_engine::odbc::OdbcResult;
use fic_engine::odbc::TableRelation;
use fic_engine::odbc::column_values;
use fic_engine::odbc::relations_from;
use fic_engine::activity::ActivityData;
use fic_engine::activity::ActivityTracker;
use fic_engine::activity::DatabaseAccess;
use fic_engine::activity::DsnActivity;
use fic_engine::activity::DsnActivityType;
use fic_engine::api::activity_response;
use fic_engine::api::database_response;
use fic_engine::api::default_db_limit;
use fic_engine::api::default_dsn_limit;
use fic_engine::api::default_log_limit;
use fic_engine::api::format_timestamp;
use fic_engine::api::get_activity;
use fic_engine::api::ActivityQuery;
use fic_engine::logger::parse_level;
use fic_engine::logger::LogEntry;
use fic_engine::logger::LogLevel;
use fic_engine::logger::Logger;
use fic_engine::migration::MigrationOptions;
use fic_engine::migration::MigrationResult;
use fic_engine::migration::MigrationStatus;
use fic_engine::names::NameMap;
use fic_engine::recency::place;
use fic_engine::recency::sort_newest_first;
use fic_engine::settings::default_parallel;
use fic_engine::settings::Overrides;
use fic_engine::settings::Settings;

fn access(path: &str, last_accessed: u64) -> DatabaseAccess {
    DatabaseAccess {
        path: path.to_string(),
        name: path.to_string(),
        last_accessed,
        table_count: 0,
        access_count: 1,
    }
}

fn paths(list: &[DatabaseAccess]) -> Vec<&str> {
    list.iter().map(|a| a.path.as_str()).collect()
}

#[test]
fn sort_is_newest_first_and_stable() {
    let sorted = sort_newest_first(vec![
        access("a", 5),
        access("b", 9),
        access("c", 5),
        access("d", 1),
        access("e", 9),
    ]);
    assert_eq!(paths(&sorted), vec!["b", "e", "a", "c", "d"]);
    assert_eq!(sort_newest_first(Vec::<DatabaseAccess>::new()), Vec::new());
}

#[test]
fn place_puts_an_item_behind_those_not_older() {
    let mut list = vec![access("a", 9), access("b", 5), access("c", 5), access("d", 1)];
    place(&mut list, access("x", 5));
    assert_eq!(paths(&list), vec!["a", "b", "c", "x", "d"]);
    place(&mut list, access("y", 10));
    assert_eq!(paths(&list), vec!["y", "a", "b", "c", "x", "d"]);
    place(&mut list, access("z", 0));
    assert_eq!(paths(&list)[6], "z");
}

#[test]
fn new_directory_is_remembered() {
    let mut tracker = ActivityTracker::new(ActivityData::default());
    tracker.record_database_access("/data/shop".to_string(), "shop".to_string(), 4, 100);
    assert_eq!(
        tracker.get_recent_databases(10),
        vec![DatabaseAccess {
            path: "/data/shop".to_string(),
            name: "shop".to_string(),
            last_accessed: 100,
            table_count: 4,
            access_count: 1,
        }]
    );
}

#[test]
fn known_directory_is_counted_again() {
    let mut tracker = ActivityTracker::new(ActivityData::default());
    tracker.record_database_access("/a".to_string(), "a".to_string(), 1, 100);
    tracker.record_database_access("/b".to_string(), "b".to_string(), 2, 200);
    tracker.record_database_access("/a".to_string(), "other".to_string(), 7, 300);
    assert_eq!(
        tracker.get_recent_databases(10),
        vec![
            DatabaseAccess {
                path: "/a".to_string(),
                name: "a".to_string(),
                last_accessed: 300,
                table_count: 7,
                access_count: 2,
            },
            DatabaseAccess {
                path: "/b".to_string(),
                name: "b".to_string(),
                last_accessed: 200,
                table_count: 2,
                access_count: 1,
            },
        ]
    );
}

#[test]
fn access_count_does_not_wrap() {
    let mut known = access("/a", 1);
    known.access_count = usize::MAX;
    let mut tracker =
        ActivityTracker::new(ActivityData { database_accesses: vec![known], dsn_activities: vec![] });
    tracker.record_database_access("/a".to_string(), "a".to_string(), 0, 2);
    assert_eq!(tracker.get_recent_databases(1)[0].access_count, usize::MAX);
}

#[test]
fn only_the_fifty_newest_directories_are_kept() {
    let mut tracker = ActivityTracker::new(ActivityData::default());
    for i in 0..60u64 {
        tracker.record_database_access(format!("/d{}", i), format!("d{}", i), 0, 1000 + i);
    }
    let all = tracker.get_recent_databases(1000);
    assert_eq!(all.len(), 50);
    assert_eq!(all[0].path, "/d59");
    assert_eq!(all[49].path, "/d10");
    // An older access than all that are kept is dropped again at once.
    tracker.record_database_access("/old".to_string(), "old".to_string(), 0, 1);
    assert_eq!(tracker.get_recent_databases(1000).len(), 50);
    assert!(tracker.get_recent_databases(1000).iter().all(|a| a.path != "/old"));
}

#[test]
fn recent_directories_are_limited() {
    let mut tracker = ActivityTracker::new(ActivityData::default());
    for i in 0..5u64 {
        tracker.record_database_access(format!("/d{}", i), format!("d{}", i), 0, i);
    }
    assert_eq!(paths(&tracker.get_recent_databases(2)), vec!["/d4", "/d3"]);
    assert_eq!(tracker.get_recent_databases(0).len(), 0);
    assert_eq!(tracker.get_recent_databases(5).len(), 5);
    assert_eq!(tracker.get_recent_databases(usize::MAX).len(), 5);
}

#[test]
fn events_are_kept_newest_first() {
    let mut tracker = ActivityTracker::new(ActivityData::default());
    let mut details = NameMap::new();
    details.insert("driver".to_string(), "HFSQL".to_string());
    tracker.record_dsn_activity("one".to_string(), DsnActivityType::Created, Some(details), 10);
    tracker.record_dsn_activity("two".to_string(), DsnActivityType::Used, None, 30);
    tracker.record_dsn_activity("three".to_string(), DsnActivityType::Deleted, None, 20);
    tracker.record_dsn_activity("four".to_string(), DsnActivityType::Updated, None, 30);
    let events = tracker.get_dsn_activities(10);
    let names: Vec<&str> = events.iter().map(|e| e.dsn_name.as_str()).collect();
    assert_eq!(names, vec!["two", "four", "three", "one"]);
    assert_eq!(events[3].activity_type, DsnActivityType::Created);
    assert_eq!(events[3].timestamp, 10);
    assert_eq!(events[3].details.get("driver").map(|s| s.as_str()), Some("HFSQL"));
    assert_eq!(events[0].details.len(), 0);
    assert_eq!(tracker.get_dsn_activities(1).len(), 1);
}

#[test]
fn only_the_hundred_newest_events_are_kept() {
    let mut tracker = ActivityTracker::new(ActivityData::default());
    for i in 0..120u64 {
        tracker.record_dsn_activity(format!("dsn{}", i), DsnActivityType::Used, None, i);
    }
    let events = tracker.get_dsn_activities(1000);
    assert_eq!(events.len(), 100);
    assert_eq!(events[0].dsn_name, "dsn119");
    assert_eq!(events[99].dsn_name, "dsn20");
}

#[test]
fn all_activity_is_both_lists() {
    let event = DsnActivity {
        dsn_name: "dsn".to_string(),
        activity_type: DsnActivityType::Used,
        timestamp: 3,
        details: NameMap::new(),
    };
    let tracker = ActivityTracker::new(ActivityData {
        database_accesses: vec![access("/a", 1), access("/b", 2)],
        dsn_activities: vec![event],
    });
    let all = tracker.get_all_activity();
    assert_eq!(paths(&all.database_accesses), vec!["/a", "/b"]);
    assert_eq!(all.dsn_activities.len(), 1);
    assert_eq!(all.dsn_activities[0].dsn_name, "dsn");
}

#[test]
fn ages_in_words() {
    assert_eq!(format_timestamp(1000, 1000), "À l'instant");
    assert_eq!(format_timestamp(1059, 1000), "À l'instant");
    assert_eq!(format_timestamp(1000, 2000), "À l'instant");
    assert_eq!(format_timestamp(1060, 1000), "Il y a 1 min");
    assert_eq!(format_timestamp(4599, 1000), "Il y a 59 min");
    assert_eq!(format_timestamp(4600, 1000), "Il y a 1 h");
    assert_eq!(format_timestamp(87_399, 1000), "Il y a 23 h");
    assert_eq!(format_timestamp(87_400, 1000), "Il y a 1 jours");
    assert_eq!(format_timestamp(2_592_999, 1000), "Il y a 29 jours");
    assert_eq!(format_timestamp(2_593_000, 1000), "Timestamp: 1000");
    assert_eq!(format_timestamp(u64::MAX, 0), "Timestamp: 0");
}

#[test]
fn limits_where_none_is_given() {
    assert_eq!(default_db_limit(), 10);
    assert_eq!(default_dsn_limit(), 20);
    assert_eq!(default_log_limit(), 1000);
}

#[test]
fn replies_carry_the_age() {
    let shown = database_response(access("/a", 1000), 1120);
    assert_eq!(shown.path, "/a");
    assert_eq!(shown.last_accessed, 1000);
    assert_eq!(shown.last_accessed_formatted, "Il y a 2 min");
    assert_eq!(shown.access_count, 1);
    let event = DsnActivity {
        dsn_name: "dsn".to_string(),
        activity_type: DsnActivityType::Deleted,
        timestamp: 50,
        details: NameMap::new(),
    };
    let shown = activity_response(event, 60);
    assert_eq!(shown.dsn_name, "dsn");
    assert_eq!(shown.activity_type, "Deleted");
    assert_eq!(shown.timestamp, 50);
    assert_eq!(shown.timestamp_formatted, "À l'instant");
}

#[test]
fn activity_reply_is_limited_by_the_query() {
    let mut tracker = ActivityTracker::new(ActivityData::default());
    for i in 0..5u64 {
        tracker.record_database_access(format!("/d{}", i), format!("d{}", i), 0, i * 100);
        tracker.record_dsn_activity(format!("dsn{}", i), DsnActivityType::Created, None, i * 100);
    }
    let reply = get_activity(&tracker, ActivityQuery { db_limit: 2, dsn_limit: 3 }, 400 + 3600);
    assert_eq!(reply.recent_databases.len(), 2);
    assert_eq!(reply.recent_databases[0].path, "/d4");
    assert_eq!(reply.recent_databases[0].last_accessed_formatted, "Il y a 1 h");
    assert_eq!(reply.dsn_activities.len(), 3);
    assert_eq!(reply.dsn_activities[2].dsn_name, "dsn2");
    assert_eq!(reply.dsn_activities[2].activity_type, "Created");
    assert_eq!(reply.dsn_activities[2].timestamp_formatted, "Il y a 1 h");
}

#[test]
fn level_names() {
    assert_eq!(LogLevel::Info.as_str(), "info");
    assert_eq!(LogLevel::Warn.as_str(), "warn");
    assert_eq!(LogLevel::Error.as_str(), "error");
    assert_eq!(LogLevel::Debug.as_str(), "debug");
    for level in [LogLevel::Info, LogLevel::Warn, LogLevel::Error, LogLevel::Debug] {
        assert_eq!(parse_level(level.as_str()), Some(level));
    }
    assert_eq!(parse_level("INFO"), None);
    assert_eq!(parse_level("trace"), None);
    assert_eq!(parse_level(""), None);
}

fn entry(id: &str, level: LogLevel) -> LogEntry {
    LogEntry::new(id.to_string(), 1, level, format!("message {}", id))
}

#[test]
fn log_keeps_the_latest_entries() {
    let mut logger = Logger::new(3);
    for id in ["a", "b", "c", "d", "e"] {
        logger.log(entry(id, LogLevel::Info));
    }
    assert_eq!(logger.count(), 3);
    let ids: Vec<String> = logger.get_logs().into_iter().map(|e| e.id).collect();
    assert_eq!(ids, vec!["c", "d", "e"]);
    logger.clear();
    assert_eq!(logger.count(), 0);
}

#[test]
fn log_without_room_keeps_nothing() {
    let mut logger = Logger::new(0);
    logger.log(entry("a", LogLevel::Info));
    assert_eq!(logger.count(), 0);
}

#[test]
fn log_entries_by_level() {
    let mut logger = Logger::new(10);
    logger.log(entry("a", LogLevel::Info));
    logger.log(entry("b", LogLevel::Error).with_source("SQL".to_string()));
    logger.log(entry("c", LogLevel::Info));
    let infos = logger.get_logs_by_level(Some(LogLevel::Info));
    assert_eq!(infos, vec![entry("a", LogLevel::Info), entry("c", LogLevel::Info)]);
    let errors = logger.get_logs_by_level(Some(LogLevel::Error));
    assert_eq!(errors.len(), 1);
    assert_eq!(errors[0].source.as_deref(), Some("SQL"));
    assert_eq!(logger.get_logs_by_level(Some(LogLevel::Debug)), Vec::new());
    assert_eq!(logger.get_logs_by_level(None).len(), 3);
}

#[test]
fn settings_where_nothing_sets_them() {
    let settings = Settings::default();
    assert_eq!(settings.data_dir, "./data");
    assert_eq!(settings.api.host, "127.0.0.1");
    assert_eq!(settings.api.port, 8080);
    assert!(settings.api.cors_enabled);
    assert!(!settings.storage.read_only);
    assert!(settings.storage.enable_write);
    assert!(settings.storage.parallel);
    assert_eq!(settings.logging.level, "info");
    assert!(default_parallel());
}

#[test]
fn environment_overrides_settings() {
    let settings = Settings::default().with_overrides(Overrides {
        data_dir: Some("/srv/hfsql".to_string()),
        host: None,
        port: Some(9000),
        read_only: Some(true),
    });
    assert_eq!(settings.data_dir, "/srv/hfsql");
    assert_eq!(settings.api.host, "127.0.0.1");
    assert_eq!(settings.api.port, 9000);
    assert!(settings.storage.read_only);
    assert!(settings.storage.enable_write);
    let same = Settings::default().with_overrides(Overrides {
        data_dir: None,
        host: None,
        port: None,
        read_only: None,
    });
    assert_eq!(same.data_dir, "./data");
    assert_eq!(same.api.port, 8080);
}

#[test]
fn migration_options_where_nothing_sets_them() {
    let options = MigrationOptions::default();
    assert_eq!(options.tables, None);
    assert_eq!(options.batch_size, Some(1000));
    assert_eq!(options.create_tables, Some(true));
    assert_eq!(options.truncate_before_insert, Some(false));
}

#[test]
fn failed_migration_has_copied_nothing() {
    let result = MigrationResult::failed("no connection".to_string(), 12);
    assert_eq!(result.status, MigrationStatus::Failed);
    assert_eq!(result.tables_migrated, 0);
    assert_eq!(result.records_migrated, 0);
    assert_eq!(result.duration_ms, 12);
    assert_eq!(result.error.as_deref(), Some("no connection"));
    assert!(result.table_details.is_empty());
}

#[test]
fn database_kinds_by_name() {
    assert_eq!(parse_database_type("postgresql"), Some(DatabaseType::Postgresql));
    assert_eq!(parse_database_type("postgres"), Some(DatabaseType::Postgresql));
    assert_eq!(parse_database_type("mysql"), Some(DatabaseType::Mysql));
    assert_eq!(parse_database_type("mariadb"), Some(DatabaseType::Mysql));
    assert_eq!(parse_database_type("sqlite"), Some(DatabaseType::Sqlite));
    assert_eq!(parse_database_type("sqlserver"), Some(DatabaseType::SqlServer));
    assert_eq!(parse_database_type("mssql"), Some(DatabaseType::SqlServer));
    assert_eq!(parse_database_type("oracle"), Some(DatabaseType::Oracle));
    assert_eq!(parse_database_type("odbc"), Some(DatabaseType::Odbc));
    assert_eq!(parse_database_type("ODBC"), None);
    assert_eq!(parse_database_type("db2"), None);
    assert_eq!(parse_database_type(""), None);
}

#[test]
fn connection_strings_to_try() {
    let attempts = |s: &str| {
        let (a, b) = connection_attempts(s);
        (a, b)
    };
    assert_eq!(attempts("shop"), ("DSN=shop".to_string(), "DSN=shop;".to_string()));
    assert_eq!(attempts("DSN=shop"), ("DSN=shop".to_string(), "DSN=shop;".to_string()));
    assert_eq!(attempts("Driver=x;Uid=y;"), ("Driver=x;Uid=y;".to_string(), "Driver=x;Uid=y;".to_string()));
    assert_eq!(attempts("shop;"), ("DSN=shop;".to_string(), "DSN=shop;".to_string()));
    assert_eq!(attempts(""), ("DSN=".to_string(), "DSN=;".to_string()));
}

fn row(pairs: &[(&str, &str)]) -> NameMap<String> {
    let mut row = NameMap::new();
    for (name, value) in pairs {
        row.insert(name.to_string(), value.to_string());
    }
    row
}

#[test]
fn values_of_a_column() {
    let result = OdbcResult {
        columns: vec!["TABLE_NAME".to_string()],
        rows: vec![
            row(&[("TABLE_NAME", "clients")]),
            row(&[("other", "x")]),
            row(&[("TABLE_NAME", "orders"), ("other", "y")]),
        ],
        rows_affected: None,
    };
    assert_eq!(column_values(&result, "TABLE_NAME"), vec!["clients", "orders"]);
    assert_eq!(column_values(&result, "name"), Vec::<String>::new());
}

#[test]
fn relations_of_a_result() {
    let result = OdbcResult {
        columns: Vec::new(),
        rows: vec![
            row(&[("from_table", "orders"), ("from_column", "client"), ("to_table", "clients"), ("to_column", "id")]),
            row(&[("from_table", "orders"), ("from_column", "client"), ("to_table", "clients")]),
            row(&[("to_column", "id"), ("to_table", "b"), ("from_column", "x"), ("from_table", "a")]),
        ],
        rows_affected: None,
    };
    assert_eq!(
        relations_from(&result),
        vec![
            TableRelation {
                from_table: "orders".to_string(),
                from_column: "client".to_string(),
                to_table: "clients".to_string(),
                to_column: "id".to_string(),
            },
            TableRelation {
                from_table: "a".to_string(),
                from_column: "x".to_string(),
                to_table: "b".to_string(),
                to_column: "id".to_string(),
            },
        ]
    );
}

#[test]
fn health_reply_is_ok() {
    let reply = fic_engine::api::HealthResponse::ok("1.2.3".to_string());
    assert_eq!(reply.status, "ok");
    assert_eq!(reply.version, "1.2.3");
}
