use pg_viewctl::deprecation::{deprecation_outcome, deprecation_warning, undeprecation_message, DeprecationError};

#[test]
fn no_warning_without_deprecation_record() {
    assert!(deprecation_warning("public", "test_view", "col1", None, None).is_none());
}

#[test]
fn warning_with_message_and_removal_date() {
    let msg = deprecation_warning(
        "public",
        "my_view",
        "old_col",
        Some("Use new_col instead".to_string()),
        Some("2026-06-01".to_string()),
    )
    .unwrap();
    assert_eq!(
        msg,
        "WARNING: column public.my_view.old_col is deprecated — Use new_col instead (removal: 2026-06-01)"
    );
    assert!(msg.contains("is deprecated"));
    assert!(msg.contains("Use new_col instead"));
    assert!(msg.contains("2026-06-01"));
}

#[test]
fn warning_with_only_one_field() {
    assert_eq!(
        deprecation_warning("s", "v", "c", Some("gone".to_string()), None).unwrap(),
        "WARNING: column s.v.c is deprecated — gone"
    );
    assert_eq!(
        deprecation_warning("s", "v", "c", None, Some("2030-01-01".to_string())).unwrap(),
        "WARNING: column s.v.c is deprecated (removal: 2030-01-01)"
    );
}

#[test]
fn deprecate_existing_column() {
    assert_eq!(
        deprecation_outcome("public", "test_view", "old_col", true).unwrap(),
        "column public.test_view.old_col deprecated"
    );
}

#[test]
fn deprecate_missing_column_is_refused() {
    let err = deprecation_outcome("public", "test_view", "no_such_col", false).unwrap_err();
    assert!(matches!(&err, DeprecationError::ColumnNotFound { column, .. } if column == "no_such_col"));
    let text = err.message();
    assert_eq!(text, "column public.test_view.no_such_col does not exist on any view or materialized view");
    assert!(text.contains("does not exist"));
}

#[test]
fn undeprecate_answers() {
    assert_eq!(
        undeprecation_message("public", "test_view", "old_col", true),
        "column public.test_view.old_col undeprecated"
    );
    assert_eq!(
        undeprecation_message("public", "test_view", "col1", false),
        "column public.test_view.col1 was not marked as deprecated"
    );
}
