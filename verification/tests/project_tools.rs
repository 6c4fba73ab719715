use agents::dataset_group::{post_dataset_group, PostDatasetGroupRequest, Refusal, FORBIDDEN, INTERNAL_SERVER_ERROR};
use agents::generate::{
    collect_model_names, extract_alias, file_stem_text, missing_required_fields,
    process_single_sql_file, BusterConfig, GenerateCommand, GenerateError, GenerateProgress,
    ModelName,
};
use agents::metrics::{
    failed_modification_message, next_version_number, plan_metric_file_update, review_needed,
    skipped_validation_note, sql_validation_error, summary_message, yaml_validation_error,
    ModifyMetricFilesTool, UpdatePlan,
};
use agents::search::{
    build_filter_conditions, dataset_of_value, extract_searchable_columns_from_yaml,
    has_search_work, is_searchable, is_searchable_term, matches_targets, ColumnDescription,
    DatasetDescription, SearchTarget, StoredValueResult, TableDescription,
};
use agents::text::number_text;
use agents::setup::{
    is_valid_data_source_name, model_paths_of_generate, model_paths_of_setup, split_model_paths,
};
use std::path::PathBuf;
use uuid::Uuid;

fn command(source: &str, destination: &str) -> GenerateCommand {
    GenerateCommand::new(
        PathBuf::from(source),
        PathBuf::from(destination),
        Some("warehouse".to_string()),
        Some("analytics".to_string()),
        None,
    )
}

#[test]
fn a_new_command_keeps_what_it_was_given() {
    let cmd = command("models", "out");
    let config = cmd.config();
    assert_eq!(config.data_source_name, Some("warehouse".to_string()));
    assert_eq!(config.schema, Some("analytics".to_string()));
    assert_eq!(config.database, None);
    assert_eq!(config.exclude_files, None);
    assert_eq!(config.exclude_tags, None);
    assert_eq!(config.model_paths, None);
}

#[test]
fn the_output_mirrors_the_source_directories() {
    let cmd = command("models", "out");
    assert_eq!(
        cmd.get_output_path("orders", &PathBuf::from("models/sales/orders.sql")),
        PathBuf::from("out/sales/orders.yml")
    );
    assert_eq!(
        cmd.get_output_path("orders", &PathBuf::from("models/orders.sql")),
        PathBuf::from("out/orders.yml")
    );
    // A file that does not lie below the source goes directly into the destination.
    assert_eq!(
        cmd.get_output_path("orders", &PathBuf::from("elsewhere/sales/orders.sql")),
        PathBuf::from("out/orders.yml")
    );
}

#[test]
fn a_flat_output_ignores_the_source_directories() {
    let mut cmd = command("models", "out");
    cmd.set_maintain_directory_structure(false);
    assert_eq!(
        cmd.get_output_path("orders", &PathBuf::from("models/sales/orders.sql")),
        PathBuf::from("out/orders.yml")
    );
}

#[test]
fn without_a_destination_of_its_own_the_output_lies_beside_the_source_file() {
    let cmd = command("models", "models");
    assert_eq!(
        cmd.get_output_path("renamed", &PathBuf::from("models/sales/orders.sql")),
        PathBuf::from("models/sales/renamed.yml")
    );
    assert_eq!(cmd.get_output_path("x", &PathBuf::from("")), PathBuf::from("./x.yml"));
}

#[test]
fn missing_fields_are_named() {
    let mut config = BusterConfig {
        data_source_name: None,
        schema: None,
        database: None,
        exclude_files: None,
        exclude_tags: None,
        model_paths: None,
    };
    assert_eq!(missing_required_fields(&config), vec!["data_source_name", "schema"]);
    config.data_source_name = Some("w".to_string());
    assert_eq!(missing_required_fields(&config), vec!["schema"]);
    config.schema = Some("s".to_string());
    assert!(missing_required_fields(&config).is_empty());
    config.data_source_name = None;
    assert_eq!(missing_required_fields(&config), vec!["data_source_name"]);
}

#[test]
fn progress_counts_what_is_excluded() {
    let mut progress = GenerateProgress::new(5);
    assert_eq!(progress.total_files, 5);
    assert_eq!(progress.processed, 0);
    assert_eq!(progress.current_file, "");
    assert_eq!(progress.status, "");
    assert_eq!(progress.log_summary(), Some((0, 0)));
    progress.processed = 5;
    progress.log_excluded_file();
    progress.log_excluded_tag();
    progress.log_excluded_tag();
    assert_eq!(progress.excluded_files, 1);
    assert_eq!(progress.excluded_tags, 2);
    assert_eq!(progress.log_summary(), Some((2, 3)));
    progress.processed = 2;
    assert_eq!(progress.log_summary(), None);
}

fn model(name: &str, file: &str) -> ModelName {
    ModelName { name: name.to_string(), source_file: PathBuf::from(file), is_from_alias: false }
}

#[test]
fn repeated_model_names_are_reported() {
    let result = collect_model_names(vec![
        model("orders", "a/orders.sql"),
        model("users", "a/users.sql"),
        model("orders", "b/orders.sql"),
        model("orders", "c/orders.sql"),
        model("items", "a/items.sql"),
    ]);
    let names: Vec<&str> = result.successes.iter().map(|m| m.name.as_str()).collect();
    assert_eq!(names, vec!["orders", "users", "items"]);
    assert_eq!(result.successes[0].source_file, PathBuf::from("a/orders.sql"));
    assert_eq!(result.errors.len(), 2);
    assert_eq!(result.errors[0].name, "orders");
    assert_eq!(result.errors[0].first_occurrence, PathBuf::from("a/orders.sql"));
    assert_eq!(result.errors[0].duplicate_occurrence, PathBuf::from("b/orders.sql"));
    assert_eq!(result.errors[1].first_occurrence, PathBuf::from("a/orders.sql"));
    assert_eq!(result.errors[1].duplicate_occurrence, PathBuf::from("c/orders.sql"));
    let none = collect_model_names(vec![]);
    assert!(none.successes.is_empty() && none.errors.is_empty());
}

fn target(database: &str, schema: &str, table: &str, column: &str) -> SearchTarget {
    SearchTarget {
        database_name: database.to_string(),
        schema_name: schema.to_string(),
        table_name: table.to_string(),
        column_name: column.to_string(),
    }
}

fn found(database: &str, schema: &str, table: &str, column: &str) -> StoredValueResult {
    StoredValueResult {
        id: Uuid::new_v4(),
        value: "v".to_string(),
        database_name: database.to_string(),
        column_name: column.to_string(),
        table_name: table.to_string(),
        schema_name: schema.to_string(),
    }
}

#[test]
fn a_value_belongs_to_the_first_dataset_that_has_its_place() {
    let datasets = vec![
        vec![target("db", "public", "users", "name")],
        vec![target("db", "public", "orders", "status"), target("db", "public", "users", "email")],
        vec![target("db", "public", "users", "email")],
    ];
    assert_eq!(dataset_of_value(&datasets, &found("db", "public", "users", "email")), Some(1));
    assert_eq!(dataset_of_value(&datasets, &found("db", "public", "users", "name")), Some(0));
    assert_eq!(dataset_of_value(&datasets, &found("db", "other", "users", "name")), None);
    assert_eq!(dataset_of_value(&datasets, &found("db", "public", "name", "users")), None);
    assert!(matches_targets(&datasets[1], &found("db", "public", "orders", "status")));
    assert!(!matches_targets(&datasets[1], &found("db", "public", "orders", "total")));
    assert!(!matches_targets(&Vec::new(), &found("db", "public", "orders", "status")));
    let copy = datasets[0][0].clone();
    assert_eq!(copy.table_name, "users");
}

#[test]
fn filters_are_numbered_from_the_second_parameter() {
    assert!(build_filter_conditions(false, false, false, false).is_empty());
    assert_eq!(
        build_filter_conditions(true, true, true, true),
        vec!["database_name = $2", "schema_name = $3", "table_name = $4", "column_name = $5"]
    );
    assert_eq!(
        build_filter_conditions(false, true, false, true),
        vec!["schema_name = $2", "column_name = $3"]
    );
    assert_eq!(build_filter_conditions(false, false, true, false), vec!["table_name = $2"]);
}

#[test]
fn only_administrators_of_an_organization_make_dataset_groups() {
    let request = PostDatasetGroupRequest { name: "finance".to_string() };
    assert_eq!(request.name, "finance");
    assert_eq!(FORBIDDEN, 403);
    assert_eq!(INTERNAL_SERVER_ERROR, 500);
    assert_eq!(post_dataset_group(Ok(Some(7)), Ok(true)), Ok(7));
    assert_eq!(
        post_dataset_group(Ok(Some(7)), Ok(false)),
        Err(Refusal { status: 403, reason: "Insufficient permissions" })
    );
    assert_eq!(
        post_dataset_group(Ok(Some(7)), Err(())),
        Err(Refusal { status: 500, reason: "Error checking user permissions" })
    );
    assert_eq!(
        post_dataset_group::<u8>(Ok(None), Ok(true)),
        Err(Refusal { status: 403, reason: "User does not belong to any organization" })
    );
    assert_eq!(
        post_dataset_group::<u8>(Err(()), Ok(true)),
        Err(Refusal { status: 500, reason: "Error getting user organization id" })
    );
}

#[test]
fn test_modification_result_tracking() {
    let result = agents::metrics::ModificationResult {
        file_id: Uuid::new_v4(),
        file_name: "test.yml".to_string(),
        success: true,
        error: None,
        modification_type: "content".to_string(),
        timestamp: chrono::Utc::now(),
        duration: 0,
    };

    assert!(result.success);
    assert!(result.error.is_none());

    let error_result = agents::metrics::ModificationResult {
        success: false,
        error: Some("Failed to parse YAML".to_string()),
        ..result
    };
    assert!(!error_result.success);
    assert!(error_result.error.is_some());
    assert_eq!(error_result.error.unwrap(), "Failed to parse YAML");
}

#[test]
fn a_modification_is_a_success_where_it_has_no_error() {
    let id = Uuid::new_v4();
    let good = agents::metrics::track_modification(id, "m.yml".to_string(), None, "content", 17u64, 5);
    assert!(good.success);
    assert_eq!(good.error, None);
    assert_eq!(good.file_id, id);
    assert_eq!(good.file_name, "m.yml");
    assert_eq!(good.modification_type, "content");
    assert_eq!(good.timestamp, 17);
    assert_eq!(good.duration, 5);
    let bad = agents::metrics::track_modification(
        id,
        "m.yml".to_string(),
        Some("broken".to_string()),
        "validation",
        (),
        5,
    );
    assert!(!bad.success);
    assert_eq!(bad.error, Some("broken".to_string()));
}

#[test]
fn the_update_of_a_metric_is_planned() {
    assert_eq!(
        plan_metric_file_update(0, true, true),
        Err("Missing required field 'dataset_ids'".to_string())
    );
    assert_eq!(plan_metric_file_update(0, false, false).is_err(), true);
    assert_eq!(plan_metric_file_update(1, false, true), Ok(UpdatePlan::KeepMetadata));
    assert_eq!(plan_metric_file_update(1, false, false), Ok(UpdatePlan::Validate));
    assert_eq!(plan_metric_file_update(2, true, true), Ok(UpdatePlan::Validate));
    assert_eq!(plan_metric_file_update(2, true, false), Ok(UpdatePlan::Validate));
}

#[test]
fn versions_are_counted_from_one() {
    assert_eq!(next_version_number(None), 1);
    assert_eq!(next_version_number(Some(1)), 2);
    assert_eq!(next_version_number(Some(41)), 42);
    assert_eq!(next_version_number(Some(i32::MAX - 1)), i32::MAX);
}

#[test]
fn the_tool_reports_what_it_did() {
    assert_eq!(summary_message(0, 0), "No metric files were processed.");
    assert_eq!(summary_message(1, 0), "Successfully modified 1 metric file.");
    assert_eq!(summary_message(12, 0), "Successfully modified 12 metric files.");
    assert_eq!(summary_message(0, 1), "Failed to modify 1 metric file.");
    assert_eq!(summary_message(0, 3), "Failed to modify 3 metric files.");
    assert_eq!(summary_message(1, 1), "Successfully modified 1 metric file, 1 failed.");
    assert_eq!(summary_message(2, 10), "Successfully modified 2 metric files, 10 failed.");
    assert!(review_needed(0));
    assert!(!review_needed(1));
    assert_eq!(sql_validation_error("no such table"), "SQL validation failed: no such table");
    assert_eq!(yaml_validation_error("bad indent"), "Failed to validate YAML: bad indent");
    assert_eq!(
        failed_modification_message("revenue", "timeout"),
        "Failed to modify 'revenue': timeout.\\n\\nPlease attempt to modify the metric again. This error could be due to:\\n- Using a dataset that doesn't exist (please reevaluate the available datasets in the chat conversation)\\n- Invalid configuration in the metric file\\n- Special characters in the metric name or SQL query\\n- Syntax errors in the SQL query"
    );
    let tool = ModifyMetricFilesTool::new(7u8);
    assert_eq!(tool.get_name(), "update_metrics");
    assert_eq!(*tool.agent(), 7);
}

#[test]
fn the_alias_of_a_model_is_read_from_its_text() {
    assert_eq!(extract_alias("select 1"), None);
    assert_eq!(extract_alias("{{ config(alias='orders_v2') }} select 1"), Some("orders_v2".to_string()));
    assert_eq!(extract_alias("ALIAS = \"Big Table\""), Some("Big Table".to_string()));
    assert_eq!(extract_alias("alias\t=\n'a' alias='b'"), Some("a".to_string()));
    assert_eq!(extract_alias("alias=''"), None);
    assert_eq!(extract_alias("alias: 'a'"), None);
}

#[test]
fn a_model_is_named_by_its_alias_or_by_its_file() {
    let path = PathBuf::from("models/sales/orders.sql");
    let aliased = process_single_sql_file("-- alias = 'sales_orders'\nselect 1", &path).unwrap();
    assert_eq!(aliased.name, "sales_orders");
    assert!(aliased.is_from_alias);
    assert_eq!(aliased.source_file, path);
    let plain = process_single_sql_file("select 1", &path).unwrap();
    assert_eq!(plain.name, "orders");
    assert!(!plain.is_from_alias);
    assert_eq!(plain.source_file, path);
    match process_single_sql_file("select 1", &PathBuf::from("..")) {
        Err(GenerateError::FileAccessError { path, error }) => {
            assert_eq!(path, PathBuf::from(".."));
            assert_eq!(error, "Invalid filename");
        }
        _ => panic!("a path without a file name gives no model name"),
    }
}

#[test]
fn errors_of_the_generate_command_say_what_happened() {
    assert_eq!(
        GenerateError::DuplicateModelName {
            name: "orders".to_string(),
            first_occurrence: PathBuf::from("a/orders.sql"),
            duplicate_occurrence: PathBuf::from("b/orders.sql"),
        }
        .message(),
        "Duplicate model name 'orders' found. First occurrence: a/orders.sql, Duplicate: b/orders.sql"
    );
    assert_eq!(
        GenerateError::MissingBusterYmlField { field: "schema".to_string() }.message(),
        "Missing required field in buster.yml: schema"
    );
    assert_eq!(
        GenerateError::FileAccessError { path: PathBuf::from("x.sql"), error: "denied".to_string() }
            .message(),
        "Failed to access file x.sql: denied"
    );
}

#[test]
fn names_of_data_sources_are_checked() {
    assert!(is_valid_data_source_name("warehouse"));
    assert!(is_valid_data_source_name("My_Warehouse-2"));
    assert!(is_valid_data_source_name("-"));
    assert!(is_valid_data_source_name("0"));
    assert!(!is_valid_data_source_name(""));
    assert!(!is_valid_data_source_name("my warehouse"));
    assert!(!is_valid_data_source_name("warehouse\n"));
    assert!(!is_valid_data_source_name("wäre"));
    assert!(!is_valid_data_source_name("a.b"));
    assert!(!is_valid_data_source_name("a/b"));
    assert!(!is_valid_data_source_name("{z"));
    assert!(!is_valid_data_source_name("@A"));
    assert!(!is_valid_data_source_name("[a"));
    assert!(!is_valid_data_source_name("`a"));
    assert!(!is_valid_data_source_name(":0"));
}

#[test]
fn model_paths_are_split_at_commas() {
    assert_eq!(split_model_paths("models, shared/models ,,  "), vec!["models", "shared/models"]);
    assert_eq!(split_model_paths(""), Vec::<String>::new());
    assert_eq!(split_model_paths("a b"), vec!["a b"]);
    assert_eq!(model_paths_of_setup("   "), None);
    assert_eq!(model_paths_of_setup(""), None);
    assert_eq!(model_paths_of_setup(" , "), Some(vec![]));
    assert_eq!(model_paths_of_setup("./models,./analytics/models"), Some(vec![
        "./models".to_string(),
        "./analytics/models".to_string()
    ]));
    assert_eq!(model_paths_of_generate(""), None);
    assert_eq!(model_paths_of_generate(" , "), None);
    assert_eq!(model_paths_of_generate("models"), Some(vec!["models".to_string()]));
}

#[test]
fn columns_that_hold_text_can_be_searched() {
    assert!(is_searchable("text"));
    assert!(is_searchable("VARCHAR(255)"));
    assert!(is_searchable("String"));
    assert!(is_searchable("character varying"));
    assert!(!is_searchable("integer"));
    assert!(!is_searchable(""));
    assert!(!is_searchable("tex t"));
    let column = |name: Option<&str>, data_type: Option<&str>| ColumnDescription {
        name: name.map(|s| s.to_string()),
        data_type: data_type.map(|s| s.to_string()),
    };
    let dataset = DatasetDescription {
        database: None,
        tables: Some(vec![
            TableDescription {
                schema: Some("sales".to_string()),
                name: Some("orders".to_string()),
                table: Some("ignored".to_string()),
                columns: Some(vec![
                    column(Some("id"), Some("bigint")),
                    column(Some("status"), Some("TEXT")),
                    column(None, Some("varchar")),
                    column(Some("untyped"), None),
                ]),
            },
            TableDescription { schema: None, name: None, table: None, columns: None },
            TableDescription {
                schema: None,
                name: None,
                table: Some("users".to_string()),
                columns: Some(vec![column(Some("email"), Some("string"))]),
            },
            TableDescription {
                schema: None,
                name: None,
                table: None,
                columns: Some(vec![column(Some("note"), Some("text"))]),
            },
        ]),
    };
    let targets = extract_searchable_columns_from_yaml(&dataset);
    let shown: Vec<(&str, &str, &str, &str)> = targets
        .iter()
        .map(|t| {
            (t.database_name.as_str(), t.schema_name.as_str(), t.table_name.as_str(), t.column_name.as_str())
        })
        .collect();
    assert_eq!(
        shown,
        vec![
            ("unknown", "sales", "orders", "status"),
            ("unknown", "sales", "orders", "unknown_column"),
            ("unknown", "public", "users", "email"),
            ("unknown", "public", "unknown_table", "note"),
        ]
    );
    let empty = DatasetDescription { database: Some("db".to_string()), tables: None };
    assert!(extract_searchable_columns_from_yaml(&empty).is_empty());
}

#[test]
fn numbers_are_written_in_decimal_digits() {
    assert_eq!(number_text(0), "0");
    assert_eq!(number_text(7), "7");
    assert_eq!(number_text(10), "10");
    assert_eq!(number_text(409), "409");
    assert_eq!(number_text(1_234_567_890), "1234567890");
    assert_eq!(number_text(usize::MAX), usize::MAX.to_string());
}

#[test]
fn a_search_needs_terms_and_datasets() {
    assert!(has_search_work(1, 1));
    assert!(has_search_work(3, 2));
    assert!(!has_search_work(0, 2));
    assert!(!has_search_work(3, 0));
    assert!(!has_search_work(0, 0));
    assert!(is_searchable_term("ab"));
    assert!(is_searchable_term("abc"));
    assert!(!is_searchable_term("a"));
    assert!(!is_searchable_term(""));
    // A single character of two bytes is long enough.
    assert!(is_searchable_term("\u{e4}"));
}

#[test]
fn the_note_of_a_skipped_validation() {
    assert_eq!(skipped_validation_note(), "SQL unchanged, validation skipped");
}

#[test]
fn the_stem_of_a_file_is_its_name_without_the_extension() {
    assert_eq!(file_stem_text(&PathBuf::from("models/orders.sql")), Some("orders".to_string()));
    assert_eq!(file_stem_text(&PathBuf::from("orders")), Some("orders".to_string()));
    assert_eq!(file_stem_text(&PathBuf::from("a/b.tar.gz")), Some("b.tar".to_string()));
    assert_eq!(file_stem_text(&PathBuf::from("/")), None);
    assert_eq!(file_stem_text(&PathBuf::from("..")), None);
}

#[test]
fn a_new_command_has_a_bare_configuration() {
    let cmd = GenerateCommand::new(PathBuf::from("a"), PathBuf::from("b"), None, None, Some("db".to_string()));
    let config = cmd.config();
    assert_eq!(config.data_source_name, None);
    assert_eq!(config.schema, None);
    assert_eq!(config.database, Some("db".to_string()));
    assert!(config.exclude_files.is_none() && config.exclude_tags.is_none() && config.model_paths.is_none());
}
