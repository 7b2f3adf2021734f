use pg_viewctl::plan::{
    check_select_body, drop_column_steps, plan_drop_column, plan_replace_view, plan_view_replacement,
    replace_view_steps,
    DepInfo, MigrationStep, PlanError,
};
use pg_viewctl::text::{is_whitespace, pg_quote_ident, trim};

fn dep(schema: &str, view: &str, kind: &str, def: &str) -> DepInfo {
    DepInfo {
        dep_schema: schema.to_string(),
        dep_view: view.to_string(),
        view_kind: kind.to_string(),
        view_def: def.to_string(),
    }
}

fn rows(steps: &[MigrationStep]) -> Vec<(i32, &str, &str)> {
    steps.iter().map(|s| (s.step, s.operation.as_str(), s.sql.as_str())).collect()
}

const NEW_BODY: &str = "SELECT id, name FROM public.rv_base WHERE active";

fn replace_fixture() -> (Vec<DepInfo>, Vec<Option<String>>) {
    let deps = vec![
        dep("public", "rv_dep_l1", "v", "CREATE VIEW public.rv_dep_l1 AS SELECT id, name FROM public.rv_target"),
        dep("public", "rv_mat_dep", "m", "CREATE MATERIALIZED VIEW public.rv_mat_dep AS SELECT id FROM public.rv_target"),
        dep("public", "rv_dep_l2", "v", "CREATE VIEW public.rv_dep_l2 AS SELECT id FROM public.rv_dep_l1"),
    ];
    let grants = vec![
        Some("GRANT SELECT ON public.rv_target TO reader".to_string()),
        None,
        Some("GRANT SELECT ON public.rv_dep_l1 TO reader".to_string()),
    ];
    (deps, grants)
}

#[test]
fn replace_view_with_dependents_full_plan() {
    let (deps, grants) = replace_fixture();
    let steps = plan_replace_view("public", "rv_target", NEW_BODY, Some("v".to_string()), &deps, &grants)
        .unwrap();
    let expected_create = format!("CREATE VIEW \"public\".\"rv_target\" AS\n{NEW_BODY}");
    assert_eq!(
        rows(&steps),
        vec![
            (1, "DROP VIEW", "DROP VIEW IF EXISTS \"public\".\"rv_dep_l2\""),
            (2, "DROP MATERIALIZED VIEW", "DROP MATERIALIZED VIEW IF EXISTS \"public\".\"rv_mat_dep\""),
            (3, "DROP VIEW", "DROP VIEW IF EXISTS \"public\".\"rv_dep_l1\""),
            (4, "DROP VIEW", "DROP VIEW IF EXISTS \"public\".\"rv_target\""),
            (5, "CREATE VIEW", expected_create.as_str()),
            (6, "CREATE VIEW", deps[0].view_def.as_str()),
            (7, "CREATE MATERIALIZED VIEW", deps[1].view_def.as_str()),
            (8, "CREATE VIEW", deps[2].view_def.as_str()),
            (9, "GRANT", "GRANT SELECT ON public.rv_target TO reader"),
            (10, "GRANT", "GRANT SELECT ON public.rv_dep_l1 TO reader"),
            (11, "REFRESH MATERIALIZED VIEW", "REFRESH MATERIALIZED VIEW \"public\".\"rv_mat_dep\""),
        ]
    );
}

#[test]
fn replace_view_steps_are_numbered_from_one() {
    let (deps, grants) = replace_fixture();
    let steps = replace_view_steps("public", "rv_target", NEW_BODY, "v", &deps, &grants);
    for (i, s) in steps.iter().enumerate() {
        assert_eq!(s.step, (i + 1) as i32);
    }
}

#[test]
fn replace_view_phases_are_ordered() {
    let (deps, grants) = replace_fixture();
    let steps = replace_view_steps("public", "rv_target", NEW_BODY, "v", &deps, &grants);
    let phase = |op: &str| {
        ["DROP", "ALTER", "CREATE", "GRANT", "REFRESH"].iter().position(|w| op.starts_with(w)).unwrap()
    };
    let phases: Vec<usize> = steps.iter().map(|s| phase(&s.operation)).collect();
    assert!(phases.windows(2).all(|w| w[0] <= w[1]), "{phases:?}");
}

#[test]
fn replace_standalone_view_in_place() {
    let steps = plan_replace_view(
        "public",
        "rv_dep_l2",
        "SELECT id FROM public.rv_dep_l1",
        Some("v".to_string()),
        &vec![],
        &vec![None],
    )
    .unwrap();
    assert_eq!(steps.len(), 1);
    assert_eq!(steps[0].operation, "CREATE OR REPLACE VIEW");
    assert_eq!(
        steps[0].sql,
        "CREATE OR REPLACE VIEW \"public\".\"rv_dep_l2\" AS\nSELECT id FROM public.rv_dep_l1"
    );
}

#[test]
fn replace_standalone_matview_drops_recreates_and_refreshes() {
    let steps = replace_view_steps("s", "mv", "SELECT 1", "m", &vec![], &vec![]);
    assert_eq!(
        rows(&steps),
        vec![
            (1, "DROP MATERIALIZED VIEW", "DROP MATERIALIZED VIEW IF EXISTS \"s\".\"mv\""),
            (2, "CREATE MATERIALIZED VIEW", "CREATE MATERIALIZED VIEW \"s\".\"mv\" AS\nSELECT 1"),
            (3, "REFRESH MATERIALIZED VIEW", "REFRESH MATERIALIZED VIEW \"s\".\"mv\""),
        ]
    );
}

#[test]
fn replace_missing_view_is_refused() {
    let err = plan_replace_view("public", "no_such_view", "SELECT 1", None, &vec![], &vec![]).unwrap_err();
    assert!(matches!(&err, PlanError::ViewNotFound { schema, view } if schema == "public" && view == "no_such_view"));
    assert_eq!(err.message(), "view public.no_such_view does not exist");
}

#[test]
fn replace_view_quotes_identifiers() {
    let steps = replace_view_steps("My Schema", "we\"ird", "SELECT 1", "", &vec![], &vec![]);
    assert_eq!(steps[0].sql, "CREATE OR REPLACE VIEW \"My Schema\".\"we\"\"ird\" AS\nSELECT 1");
}

#[test]
fn create_statement_is_refused() {
    assert!(matches!(check_select_body(trim("  CREATE VIEW v AS SELECT 1\n")), Err(PlanError::CreateStatementGiven)));
    assert!(matches!(check_select_body("create or replace view v as select 1"), Err(PlanError::CreateStatementGiven)));
    assert!(matches!(check_select_body("CrEaTe"), Err(PlanError::CreateStatementGiven)));
    assert_eq!(
        PlanError::CreateStatementGiven.message(),
        "new_definition should be a SELECT body, not a full CREATE statement"
    );
}

#[test]
fn select_body_is_accepted() {
    assert!(check_select_body("SELECT 1").is_ok());
    assert!(check_select_body("creat").is_ok());
    assert!(check_select_body("").is_ok());
    assert!(check_select_body("créate").is_ok());
    assert!(check_select_body("createx").is_err());
}

#[test]
fn trim_removes_unicode_whitespace() {
    assert_eq!(trim("  \t SELECT 1 \n"), "SELECT 1");
    assert_eq!(trim("\u{a0}x\u{3000}"), "x");
    assert_eq!(trim("   "), "");
    assert_eq!(trim("a b"), "a b");
}

#[test]
fn quote_ident_doubles_quotes() {
    assert_eq!(pg_quote_ident("plain"), "\"plain\"");
    assert_eq!(pg_quote_ident("my\"view"), "\"my\"\"view\"");
    assert_eq!(pg_quote_ident(""), "\"\"");
    assert_eq!(pg_quote_ident("\""), "\"\"\"\"");
    assert_eq!(pg_quote_ident("ünï"), "\"ünï\"");
}

#[test]
fn quote_ident_keeps_distinct_names_distinct() {
    let names = ["a", "a\"", "a\"\"", "\"a", "", "\"", "ab"];
    for x in names {
        for y in names {
            assert_eq!(pg_quote_ident(x) == pg_quote_ident(y), x == y);
        }
    }
}

fn drop_fixture() -> (Vec<DepInfo>, Vec<(String, String)>, Vec<Option<String>>) {
    let deps = vec![
        dep("public", "dc_view_with_email", "v", "CREATE VIEW public.dc_view_with_email AS SELECT id, email FROM public.dc_base"),
        dep("public", "dc_mat_dep", "m", "CREATE MATERIALIZED VIEW public.dc_mat_dep AS SELECT email FROM public.dc_base"),
        dep("public", "dc_dep_l2", "v", "CREATE VIEW public.dc_dep_l2 AS SELECT id FROM public.dc_view_with_email"),
    ];
    let refs = vec![
        ("public".to_string(), "dc_view_with_email".to_string()),
        ("public".to_string(), "dc_mat_dep".to_string()),
    ];
    let grants = vec![Some("GRANT SELECT ON public.dc_view_with_email TO reader".to_string())];
    (deps, refs, grants)
}

#[test]
fn drop_column_full_plan() {
    let (deps, refs, grants) = drop_fixture();
    let steps = plan_drop_column("public", "dc_base", "email", true, &deps, &refs, &grants).unwrap();
    let todo = "-- TODO: remove reference to 'email'\n";
    let c1 = format!("{todo}{}", deps[0].view_def);
    let c2 = format!("{todo}{}", deps[1].view_def);
    assert_eq!(
        rows(&steps),
        vec![
            (1, "DROP VIEW", "DROP VIEW IF EXISTS \"public\".\"dc_dep_l2\""),
            (2, "DROP MATERIALIZED VIEW", "DROP MATERIALIZED VIEW IF EXISTS \"public\".\"dc_mat_dep\""),
            (3, "DROP VIEW", "DROP VIEW IF EXISTS \"public\".\"dc_view_with_email\""),
            (4, "ALTER TABLE", "ALTER TABLE \"public\".\"dc_base\" DROP COLUMN \"email\""),
            (5, "CREATE VIEW", c1.as_str()),
            (6, "CREATE MATERIALIZED VIEW", c2.as_str()),
            (7, "CREATE VIEW", deps[2].view_def.as_str()),
            (8, "GRANT", "GRANT SELECT ON public.dc_view_with_email TO reader"),
            (9, "REFRESH MATERIALIZED VIEW", "REFRESH MATERIALIZED VIEW \"public\".\"dc_mat_dep\""),
        ]
    );
}

#[test]
fn drop_unreferenced_column_is_one_step() {
    let steps = drop_column_steps("public", "dc_base", "notes", &vec![], &vec![], &vec![]);
    assert_eq!(rows(&steps), vec![(1, "ALTER TABLE", "ALTER TABLE \"public\".\"dc_base\" DROP COLUMN \"notes\"")]);
}

#[test]
fn drop_missing_column_is_refused() {
    let err = plan_drop_column("public", "dc_base", "no_such_col", false, &vec![], &vec![], &vec![]).unwrap_err();
    assert_eq!(err.message(), "table public.dc_base column no_such_col does not exist");
}

#[test]
fn todo_marker_needs_schema_and_view_to_match() {
    let deps = vec![dep("other", "v1", "v", "CREATE VIEW other.v1 AS SELECT 1")];
    let refs = vec![("public".to_string(), "v1".to_string())];
    let steps = drop_column_steps("public", "t", "c", &deps, &refs, &vec![]);
    assert_eq!(steps[2].sql, "CREATE VIEW other.v1 AS SELECT 1");
}

#[test]
fn view_replacement_trims_the_body() {
    let (deps, grants) = replace_fixture();
    let raw = format!("\n  {NEW_BODY} \t\n");
    let steps =
        plan_view_replacement("public", "rv_target", &raw, Some("v".to_string()), &deps, &grants).unwrap();
    assert_eq!(steps[4].sql, format!("CREATE VIEW \"public\".\"rv_target\" AS\n{NEW_BODY}"));
    assert_eq!(steps.len(), 11);
}

#[test]
fn view_replacement_refuses_create_before_existence() {
    let err = plan_view_replacement("public", "no_such_view", "\n  create view x as select 1", None, &vec![], &vec![])
        .unwrap_err();
    assert!(matches!(err, PlanError::CreateStatementGiven));
    let err = plan_view_replacement("public", "no_such_view", " SELECT 1 ", None, &vec![], &vec![]).unwrap_err();
    assert_eq!(err.message(), "view public.no_such_view does not exist");
}

#[test]
fn view_replacement_of_standalone_view() {
    let steps = plan_view_replacement("public", "v", "  SELECT 1\n", Some("v".to_string()), &vec![], &vec![])
        .unwrap();
    assert_eq!(rows(&steps), vec![(1, "CREATE OR REPLACE VIEW", "CREATE OR REPLACE VIEW \"public\".\"v\" AS\nSELECT 1")]);
}

#[test]
fn whitespace_matches_std_on_every_char() {
    for code in 0u32..=0x10FFFF {
        if let Some(c) = char::from_u32(code) {
            assert_eq!(is_whitespace(c), c.is_whitespace(), "U+{code:04X}");
        }
    }
}

#[test]
fn trim_matches_std() {
    for s in ["\n  select 1", "\u{2028}x\u{85}", "\u{200b}x", "", " \u{3000} ", "a\u{a0}b"] {
        assert_eq!(trim(s), s.trim());
    }
}
