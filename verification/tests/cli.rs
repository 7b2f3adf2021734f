use pg_viewctl::cli::{
    generate_query, plan_query, plan_report, plan_target, reads_stdin, search_path_statement,
    ConnectError, DependencyLevel, Operation, SchemaObject, TargetError,
};
use pg_viewctl::text::{decimal_i32, decimal_u64};

#[test]
fn plan_target_takes_first_two_parts() {
    let t = plan_target(&Operation::DropColumn { target: "public.employees.salary".to_string() });
    assert_eq!(t.schema, "public");
    assert_eq!(t.object, "employees");
    let t = plan_target(&Operation::ReplaceView {
        target: "s.v".to_string(),
        definition: "-".to_string(),
    });
    assert_eq!((t.schema.as_str(), t.object.as_str()), ("s", "v"));
}

#[test]
fn generate_query_for_each_operation() {
    let call = generate_query(&Operation::DropColumn { target: "public.t.c".to_string() }, "").unwrap();
    assert_eq!(call.sql, "SELECT step, operation, sql FROM generate_drop_column($1, $2, $3)");
    assert_eq!(call.params, vec!["public", "t", "c"]);

    let call = generate_query(
        &Operation::ReplaceView { target: "public.v".to_string(), definition: "def.sql".to_string() },
        "SELECT 1",
    )
    .unwrap();
    assert_eq!(call.sql, "SELECT step, operation, sql FROM generate_replace_view($1, $2, $3)");
    assert_eq!(call.params, vec!["public", "v", "SELECT 1"]);

    let call = generate_query(
        &Operation::AlterType { target: "public.t.c".to_string(), new_type: "bigint".to_string() },
        "",
    )
    .unwrap();
    assert_eq!(call.sql, "SELECT step, operation, sql FROM generate_alter_type($1, $2, $3, $4)");
    assert_eq!(call.params, vec!["public", "t", "c", "bigint"]);

    let call = generate_query(
        &Operation::RenameViewColumn { target: "public.v.c".to_string(), new_name: "d".to_string() },
        "",
    )
    .unwrap();
    assert_eq!(call.sql, "SELECT step, operation, sql FROM generate_rename_view_column($1, $2, $3, $4)");
    assert_eq!(call.params, vec!["public", "v", "c", "d"]);
}

#[test]
fn generate_query_rejects_bad_targets() {
    let err = generate_query(&Operation::DropColumn { target: "public.t".to_string() }, "").unwrap_err();
    assert!(matches!(err, TargetError::ExpectedSchemaObjectColumn { .. }));
    let err = generate_query(
        &Operation::ReplaceView { target: "v".to_string(), definition: "-".to_string() },
        "",
    )
    .unwrap_err();
    assert_eq!(err.message(), "expected schema.object, got 'v'");
}

#[test]
fn definition_source() {
    assert!(reads_stdin("-"));
    assert!(!reads_stdin("view.sql"));
    assert!(!reads_stdin("--"));
    assert!(!reads_stdin(""));
}

#[test]
fn plan_query_parameters() {
    let call = plan_query(&SchemaObject { schema: "public".to_string(), object: "t".to_string() });
    assert_eq!(call.sql, "SELECT level, dep_schema, dep_view FROM pgvc_dependency_order($1, $2) WHERE level > 0");
    assert_eq!(call.params, vec!["public", "t"]);
}

#[test]
fn plan_report_without_dependents() {
    let target = SchemaObject { schema: "public".to_string(), object: "t".to_string() };
    assert_eq!(
        plan_report(&target, &vec![]),
        "Dependencies of public.t:\n  (none)\n\n0 objects affected.\n"
    );
}

#[test]
fn plan_report_with_dependents() {
    let target = SchemaObject { schema: "public".to_string(), object: "base".to_string() };
    let deps = vec![
        DependencyLevel { level: 1, dep_schema: "public".to_string(), dep_view: "v1".to_string() },
        DependencyLevel { level: 12, dep_schema: "app".to_string(), dep_view: "v2".to_string() },
    ];
    assert_eq!(
        plan_report(&target, &deps),
        "Dependencies of public.base:\n  Level 1: public.v1\n  Level 12: app.v2\n\n2 objects affected.\n"
    );
}

#[test]
fn decimal_matches_display() {
    for n in [0u64, 7, 10, 99, 100, 12345, u64::MAX] {
        assert_eq!(decimal_u64(n), n.to_string());
    }
    for n in [0i32, -1, 42, -2147483648, 2147483647] {
        assert_eq!(decimal_i32(n), n.to_string());
    }
}

#[test]
fn search_path_for_installed_extension() {
    assert_eq!(
        search_path_statement(Some("viewctl".to_string())).unwrap(),
        "SET search_path TO viewctl, public"
    );
}

#[test]
fn missing_extension_is_an_error() {
    let err = search_path_statement(None).unwrap_err();
    assert!(matches!(err, ConnectError::ExtensionMissing));
    assert_eq!(err.message(), "pg_viewctl extension is not installed in the database");
}
