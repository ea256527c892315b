use whatql::ast::{QueryType, Statement};
use whatql::logger::{format_timestamp, LogEntry, Logger, LogLevel};
use whatql::metrics::{OperationMetric, PerformanceTracker};
use whatql::parser::{classify_query, parse_sql, Parser};
use whatql::processor::{DatabaseAdapter, SqliteProcessor};
use whatql::schema::{SchemaCatalog, SchemaObjectType, MASTER_SCHEMA_TABLE, SCHEMA_FORMAT_NUMBER};
use whatql::schema_column::{ColumnAffinity, ColumnSchema};
use whatql::schema_index::{IndexColumn, IndexManager, IndexSchema, IndexType, SortOrder};
use whatql::schema_table::{SchemaExtractor, TableSchema};
use anyhow::Context;
use whatql::utils::{
    format_error_chain, format_message_chain, from_hex_string, swap_endian_u32, to_hex_string,
    EngineConfig, HexParseError,
};
use whatql::validator::{QueryValidator, SemanticAnalyzer};

fn column(name: &str, data_type: &str) -> ColumnSchema {
    ColumnSchema {
        name: name.to_string(),
        data_type: data_type.to_string(),
        position: 0,
        is_nullable: true,
        default_value: None,
        is_primary_key: false,
    }
}

fn table(name: &str) -> TableSchema {
    TableSchema {
        name: name.to_string(),
        columns: vec![],
        root_page: 2,
        sql: format!("CREATE TABLE {} (...)", name),
        estimated_row_count: None,
        is_virtual: false,
        is_system: false,
        is_temporary: false,
    }
}

fn index(name: &str, table_name: &str) -> IndexSchema {
    IndexSchema {
        name: name.to_string(),
        table_name: table_name.to_string(),
        columns: vec![IndexColumn {
            name: "id".to_string(),
            position: 0,
            sort_order: SortOrder::Ascending,
            collation: None,
        }],
        is_unique: true,
        index_type: IndexType::BTree,
        root_page: 3,
        sql: String::new(),
        estimated_entries: None,
    }
}

#[test]
fn affinity_rules() {
    assert_eq!(column("a", "INTEGER").get_affinity(), ColumnAffinity::Integer);
    assert_eq!(column("a", "tinyint").get_affinity(), ColumnAffinity::Integer);
    assert_eq!(column("a", "VARCHAR(20)").get_affinity(), ColumnAffinity::Text);
    assert_eq!(column("a", "clob").get_affinity(), ColumnAffinity::Text);
    assert_eq!(column("a", "TEXT").get_affinity(), ColumnAffinity::Text);
    assert_eq!(column("a", "BLOB").get_affinity(), ColumnAffinity::Blob);
    assert_eq!(column("a", "").get_affinity(), ColumnAffinity::Blob);
    assert_eq!(column("a", "REAL").get_affinity(), ColumnAffinity::Real);
    assert_eq!(column("a", "float").get_affinity(), ColumnAffinity::Real);
    assert_eq!(column("a", "DOUBLE").get_affinity(), ColumnAffinity::Real);
    assert_eq!(column("a", "DECIMAL(10,5)").get_affinity(), ColumnAffinity::Numeric);
}

#[test]
fn affinity_sizes_and_indexability() {
    assert_eq!(column("a", "INT").estimate_storage_size(), 8);
    assert_eq!(column("a", "TEXT").estimate_storage_size(), 32);
    assert_eq!(column("a", "BLOB").estimate_storage_size(), 100);
    assert!(column("a", "INT").is_indexable());
    assert!(column("a", "BLOB").is_indexable());
}

#[test]
fn sql_definition_text() {
    let mut col = column("id", "INTEGER");
    col.is_primary_key = true;
    col.is_nullable = false;
    col.default_value = Some("0".to_string());
    assert_eq!(col.get_sql_definition(), "id INTEGER PRIMARY KEY NOT NULL DEFAULT 0");
    assert_eq!(column("name", "TEXT").get_sql_definition(), "name TEXT");
}

#[test]
fn catalog_round_trip() {
    let mut catalog = SchemaCatalog::new();
    catalog.add_table(table("users"));
    catalog.add_table(table("posts"));
    catalog.add_index(index("idx_users_id", "users"));
    catalog.add_index(index("idx_posts_id", "posts"));
    assert!(catalog.get_table("users").is_some());
    assert!(catalog.get_table("missing").is_none());
    assert_eq!(catalog.get_tables().len(), 2);
    assert_eq!(catalog.get_table_names(), vec!["users".to_string(), "posts".to_string()]);
    let for_users = catalog.get_indexes_for_table("users");
    assert_eq!(for_users.len(), 1);
    assert_eq!(for_users[0].name, "idx_users_id");
}

#[test]
fn catalog_replaces_by_name() {
    let mut catalog = SchemaCatalog::new();
    catalog.add_table(table("users"));
    let mut updated = table("users");
    updated.root_page = 9;
    catalog.add_table(updated);
    assert_eq!(catalog.get_tables().len(), 1);
    assert_eq!(catalog.get_table("users").unwrap().root_page, 9);
}

#[test]
fn schema_constants() {
    assert_eq!(MASTER_SCHEMA_TABLE, "sqlite_master");
    assert_eq!(SCHEMA_FORMAT_NUMBER, 4);
    assert_eq!(SchemaObjectType::Table, SchemaObjectType::Table);
}

#[test]
fn schema_extractor_steps() {
    let extractor = SchemaExtractor::new("some.db").unwrap();
    assert!(!extractor.catalog_initialized);
    let initialized = extractor.initialize_catalog().unwrap();
    assert!(initialized.catalog_initialized);
    assert_eq!(initialized.master_root_page, Some(1));
    let mut with_tables = SchemaExtractor::new("some.db").unwrap();
    with_tables.tables_found = vec![table("users")];
    assert_eq!(with_tables.collect_table_names().unwrap(), vec!["users".to_string()]);
}

#[test]
fn index_manager_holds_path() {
    let manager = IndexManager::new("some.db");
    assert_eq!(manager.db_path, "some.db");
}

#[test]
fn validator_accepts_known_kinds() {
    let mut validator = QueryValidator::new();
    let stmt = Statement { query_type: QueryType::Select, query_text: "SELECT 1".to_string() };
    assert!(validator.validate(&stmt).is_ok());
    let unknown = Statement { query_type: QueryType::Unknown, query_text: "???".to_string() };
    assert_eq!(validator.validate(&unknown).err(), Some("Unknown query type".to_string()));
    assert!(validator.get_errors().is_empty());
    assert!(validator.get_warnings().is_empty());
}

#[test]
fn semantic_analyzer_columns() {
    let mut analyzer = SemanticAnalyzer::new();
    analyzer.add_table("users", vec!["id".to_string(), "name".to_string()]);
    analyzer.add_table("posts", vec!["id".to_string(), "title".to_string()]);
    assert!(analyzer.check_column_exists("users", "name"));
    assert!(!analyzer.check_column_exists("users", "title"));
    assert!(!analyzer.check_column_exists("missing", "id"));
    assert!(analyzer.is_column_ambiguous("id"));
    assert!(!analyzer.is_column_ambiguous("title"));
    let stmt = Statement { query_type: QueryType::Select, query_text: String::new() };
    assert!(analyzer.analyze(&stmt).is_ok());
}

#[test]
fn classify_first_word() {
    assert_eq!(classify_query("SELECT * FROM t"), QueryType::Select);
    assert_eq!(classify_query("  insert into t values (1)"), QueryType::Insert);
    assert_eq!(classify_query("Update t set x = 1"), QueryType::Update);
    assert_eq!(classify_query("DELETE FROM t"), QueryType::Delete);
    assert_eq!(classify_query("create table t (x)"), QueryType::Create);
    assert_eq!(classify_query("ALTER TABLE t"), QueryType::Alter);
    assert_eq!(classify_query("drop table t"), QueryType::Drop);
    assert_eq!(classify_query("whatever"), QueryType::Unknown);
    assert_eq!(classify_query(""), QueryType::Unknown);
}

#[test]
fn parse_sql_classifies_and_keeps_text() {
    let stmt = parse_sql("SELECT id FROM users").unwrap();
    assert_eq!(stmt.query_type, QueryType::Select);
    assert_eq!(stmt.query_text, "SELECT id FROM users");
}

#[test]
fn parse_sql_rejects_bad_syntax() {
    assert!(parse_sql("SELECT FROM WHERE !!!").is_err());
}

#[test]
fn parser_builder() {
    let parser = Parser::new("SELECT 1").with_error_recovery();
    assert!(parser.error_recovery);
    assert!(parser.parse().is_ok());
}

#[test]
fn logger_filters_and_stores() {
    let mut logger = Logger::new(LogLevel::Info);
    logger.log(LogLevel::Debug, "hidden", 10);
    assert!(logger.get_entries().is_empty());
    logger.log(LogLevel::Warning, "shown", 11);
    logger.log_with_component(LogLevel::Error, "engine", "bad", 12);
    let entries = logger.get_entries();
    assert_eq!(entries.len(), 2);
    assert_eq!(entries[0].message, "shown");
    assert_eq!(entries[1].component.as_deref(), Some("engine"));
    let errors = logger.get_entries_by_level(LogLevel::Error);
    assert_eq!(errors.len(), 1);
    assert_eq!(errors[0].message, "bad");
    logger.clear();
    assert!(logger.get_entries().is_empty());
}

#[test]
fn log_entry_format_text() {
    let entry = LogEntry::new(LogLevel::Info, "ready", None, 42);
    assert_eq!(entry.format(), "42 \u{1b}[32m[INFO]\u{1b}[0m ready");
    let tagged = LogEntry::new(LogLevel::Warning, "careful", Some("core"), 7);
    assert_eq!(
        tagged.format(),
        "7 \u{1b}[33m[WARN]\u{1b}[0m \u{1b}[1m[core]\u{1b}[0m careful"
    );
    assert_eq!(format_timestamp(123456), "123456");
}

#[test]
fn metric_lifecycle() {
    let mut metric = OperationMetric::new("scan");
    assert_eq!(metric.format_duration(), "pending");
    metric.start(100);
    metric.end(600);
    assert_eq!(metric.duration, Some(500));
    assert_eq!(metric.format_duration(), "500ms");
    metric.duration = Some(1500);
    assert_eq!(metric.format_duration(), "1.50s");
    metric.duration = Some(1000);
    assert_eq!(metric.format_duration(), "1000ms");
    let sub = OperationMetric::new("seek");
    metric.add_sub_operation(sub);
    assert_eq!(metric.sub_operations.len(), 1);
}

#[test]
fn tracker_lifecycle() {
    let mut tracker = PerformanceTracker::new(1000);
    tracker.start_operation("parse", 1000);
    tracker.end_operation("parse", 1250);
    let op = tracker.get_operation("parse").expect("tracked operation");
    assert_eq!(op.duration, Some(250));
    assert!(tracker.get_operation("missing").is_none());
    tracker.start_operation("plan", 1300);
    tracker.end_operation("plan", 1400);
    tracker.add_sub_operation("parse", "plan");
    let parse = tracker.get_operation("parse").unwrap();
    assert_eq!(parse.sub_operations.len(), 1);
    assert_eq!(tracker.get_all_operations().len(), 2);
    assert_eq!(tracker.total_elapsed(2500), 1500);
    let report = tracker.generate_report(2500);
    assert_eq!(report, "Performance Report\n=================\nTotal time: 1.50s\n\n");
}

#[test]
fn hex_round_trip() {
    assert_eq!(to_hex_string(&[0x00, 0xFF, 0x1A]), "00ff1a");
    assert_eq!(from_hex_string("00ff1a"), Ok(vec![0x00, 0xFF, 0x1A]));
    assert_eq!(from_hex_string("00FF1A"), Ok(vec![0x00, 0xFF, 0x1A]));
    // a trailing odd character is ignored
    assert_eq!(from_hex_string("0a5"), Ok(vec![0x0A]));
    assert_eq!(from_hex_string(""), Ok(vec![]));
    assert_eq!(from_hex_string("zz"), Err(HexParseError));
}

#[test]
fn endian_swap() {
    assert_eq!(swap_endian_u32(0x12345678), 0x78563412);
    assert_eq!(swap_endian_u32(0), 0);
    assert_eq!(swap_endian_u32(0xFF000000), 0x000000FF);
}

#[test]
fn error_chain_text() {
    let msgs = vec!["top".to_string(), "middle".to_string(), "root".to_string()];
    assert_eq!(
        format_message_chain(&msgs),
        "Error: top\n  Caused by: middle\n    Caused by: root\n"
    );
}

#[test]
fn error_chain_walks_real_causes() {
    let err = anyhow::Error::msg("root").context("top");
    assert_eq!(format_error_chain(&err), "Error: top\n  Caused by: root\n");
    let plain = anyhow::Error::msg("alone");
    assert_eq!(format_error_chain(&plain), "Error: alone\n");
}

#[test]
fn engine_config_defaults() {
    let config = EngineConfig::default();
    assert_eq!(config.page_cache_size, 2000);
    assert_eq!(config.max_memory_usage, 100 * 1024 * 1024);
    assert_eq!(config.log_level, LogLevel::Info);
    assert!(!config.profiling_enabled);
    assert!(config.parallel_execution);
}

#[test]
fn processor_handles() {
    let processor = SqliteProcessor::new("some.db", "/tmp").with_query_logging(true);
    assert_eq!(processor.db_path, "some.db");
    assert_eq!(processor.temp_dir, "/tmp");
    assert!(processor.log_queries);
    match DatabaseAdapter::new_sqlite("other.db") {
        DatabaseAdapter::SQLite(p) => {
            assert_eq!(p.db_path, "other.db");
            assert!(!p.log_queries);
        },
        _ => panic!("expected the external-engine adapter"),
    }
}
