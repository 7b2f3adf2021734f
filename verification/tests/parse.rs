use pg_viewctl::cli::{parse_three_part, parse_two_part, TargetError};
use pg_viewctl::target::split_target;

#[test]
fn test_parse_two_part() {
    let r = parse_two_part("public.my_view").unwrap();
    assert_eq!(r.schema, "public");
    assert_eq!(r.object, "my_view");
}

#[test]
fn test_parse_two_part_wrong_count() {
    assert!(parse_two_part("public").is_err());
}

#[test]
fn test_parse_three_part() {
    let r = parse_three_part("public.employees.salary").unwrap();
    assert_eq!(r.schema, "public");
    assert_eq!(r.object, "employees");
    assert_eq!(r.column, "salary");
}

#[test]
fn test_parse_three_part_wrong_count() {
    assert!(parse_three_part("public.employees").is_err());
}

#[test]
fn parse_two_part_error_names_the_target() {
    let err = parse_two_part("a.b.c").unwrap_err();
    assert!(matches!(&err, TargetError::ExpectedSchemaObject { target } if target == "a.b.c"));
    assert_eq!(err.message(), "expected schema.object, got 'a.b.c'");
}

#[test]
fn parse_three_part_error_names_the_target() {
    let err = parse_three_part("public").unwrap_err();
    assert_eq!(err.message(), "expected schema.object.column, got 'public'");
}

#[test]
fn parse_keeps_empty_parts() {
    let r = parse_two_part(".view").unwrap();
    assert_eq!(r.schema, "");
    assert_eq!(r.object, "view");
    assert!(parse_two_part("a..b").is_err());
}

#[test]
fn split_matches_str_split() {
    for s in ["", ".", "a", "a.b", "a..b", ".a.", "public.employees.salary", "é.ü"] {
        let expected: Vec<String> = s.split('.').map(|p| p.to_string()).collect();
        assert_eq!(split_target(s), expected);
    }
}

#[test]
fn two_part_roundtrip() {
    let r = parse_two_part("sales.orders_v").unwrap();
    assert_eq!(format!("{}.{}", r.schema, r.object), "sales.orders_v");
}

#[test]
fn three_part_roundtrip() {
    let r = parse_three_part("sales.orders_v.total").unwrap();
    assert_eq!(format!("{}.{}.{}", r.schema, r.object, r.column), "sales.orders_v.total");
}
