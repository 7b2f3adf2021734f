//! Migration plans: the ordered SQL steps that replace a view or drop a table
//! column while dropping, recreating, re-granting and refreshing every view
//! that depends on it.
//!
//! The catalog is read elsewhere; the planners here take what was read (the
//! dependent views in ascending dependency level, the grant statements, the
//! views that reference a column) and decide the steps.

use vstd::prelude::*;

use crate::text::{
    is_matview, is_matview_kind, pg_quote_ident, quoted_ident, starts_with_create,
    starts_with_create_keyword, trim, trim_chars,
};

verus! {

/// One numbered step of a migration: what it does and the SQL that does it.
#[derive(Debug)]
pub struct MigrationStep {
    pub step: i32,
    pub operation: String,
    pub sql: String,
}

/// A view that depends on the object being changed, as read from the catalog.
#[derive(Debug)]
pub struct DepInfo {
    pub dep_schema: String,
    pub dep_view: String,
    pub view_kind: String,
    pub view_def: String,
}

/// A planned step before numbering: its operation label and its SQL.
pub struct SqlStep {
    pub operation: Seq<char>,
    pub sql: Seq<char>,
}

/// `steps` carries out `plan` in order, numbering the steps from 1.
pub open spec fn realizes(steps: Seq<MigrationStep>, plan: Seq<SqlStep>) -> bool {
    &&& steps.len() == plan.len()
    &&& forall|i: int|
        0 <= i < steps.len() ==> {
            &&& #[trigger] steps[i].step == i + 1
            &&& steps[i].operation@ == plan[i].operation
            &&& steps[i].sql@ == plan[i].sql
        }
}

/// `schema.name` with both parts quoted.
pub open spec fn qualified_name(schema: Seq<char>, name: Seq<char>) -> Seq<char> {
    quoted_ident(schema) + seq!['.'] + quoted_ident(name)
}

pub open spec fn dep_name(dep: DepInfo) -> Seq<char> {
    qualified_name(dep.dep_schema@, dep.dep_view@)
}

pub open spec fn dep_is_matview(dep: DepInfo) -> bool {
    is_matview_kind(dep.view_kind@)
}

/// The object kind named in DROP and CREATE statements.
pub open spec fn object_kind(matview: bool) -> Seq<char> {
    if matview {
        "MATERIALIZED VIEW"@
    } else {
        "VIEW"@
    }
}

pub open spec fn drop_step(matview: bool, qualified: Seq<char>) -> SqlStep {
    SqlStep {
        operation: "DROP "@ + object_kind(matview),
        sql: "DROP "@ + object_kind(matview) + " IF EXISTS "@ + qualified,
    }
}

pub open spec fn refresh_step(qualified: Seq<char>) -> SqlStep {
    SqlStep {
        operation: "REFRESH MATERIALIZED VIEW"@,
        sql: "REFRESH MATERIALIZED VIEW "@ + qualified,
    }
}

/// The dependents dropped leaf-first: the k-th step drops the dependent at
/// position `len - 1 - k` of the ascending-level list.
pub open spec fn dependents_dropped(deps: Seq<DepInfo>) -> Seq<SqlStep> {
    Seq::new(
        deps.len(),
        |k: int| drop_step(dep_is_matview(deps[deps.len() - 1 - k]), dep_name(deps[deps.len() - 1 - k])),
    )
}

/// Recreating one dependent from its stored definition, `sql` being the statement run.
pub open spec fn recreate_step(dep: DepInfo, sql: Seq<char>) -> SqlStep {
    SqlStep { operation: "CREATE "@ + object_kind(dep_is_matview(dep)), sql }
}

/// The dependents recreated base-first, each from its stored definition.
pub open spec fn dependents_recreated(deps: Seq<DepInfo>) -> Seq<SqlStep> {
    Seq::new(deps.len(), |k: int| recreate_step(deps[k], deps[k].view_def@))
}

/// One GRANT step for every grant statement that was read, in order.
pub open spec fn grants_restored(grants: Seq<Option<String>>) -> Seq<SqlStep>
    decreases grants.len(),
{
    if grants.len() == 0 {
        Seq::empty()
    } else {
        grants_restored(grants.drop_last()) + match grants.last() {
            Some(g) => seq![SqlStep { operation: "GRANT"@, sql: g@ }],
            None => Seq::empty(),
        }
    }
}

/// One REFRESH step for every materialized dependent, base-first.
pub open spec fn matviews_refreshed(deps: Seq<DepInfo>) -> Seq<SqlStep>
    decreases deps.len(),
{
    if deps.len() == 0 {
        Seq::empty()
    } else {
        matviews_refreshed(deps.drop_last()) + if dep_is_matview(deps.last()) {
            seq![refresh_step(dep_name(deps.last()))]
        } else {
            Seq::empty()
        }
    }
}

/// Replacing the target itself: DROP and CREATE when it is a materialized view
/// or has dependents, a single CREATE OR REPLACE VIEW otherwise.
pub open spec fn target_replaced(
    qualified_target: Seq<char>,
    definition: Seq<char>,
    target_matview: bool,
    has_dependents: bool,
) -> Seq<SqlStep> {
    if target_matview || has_dependents {
        seq![
            drop_step(target_matview, qualified_target),
            SqlStep {
                operation: "CREATE "@ + object_kind(target_matview),
                sql: "CREATE "@ + object_kind(target_matview) + " "@ + qualified_target + " AS\n"@
                    + definition,
            },
        ]
    } else {
        seq![
            SqlStep {
                operation: "CREATE OR REPLACE VIEW"@,
                sql: "CREATE OR REPLACE VIEW "@ + qualified_target + " AS\n"@ + definition,
            },
        ]
    }
}

/// The refresh of the target, when it is a materialized view.
pub open spec fn target_refreshed(qualified_target: Seq<char>, target_matview: bool) -> Seq<SqlStep> {
    if target_matview {
        seq![refresh_step(qualified_target)]
    } else {
        Seq::empty()
    }
}

/// The plan that replaces the body of view `schema.view` by `definition`.
pub open spec fn replace_view_plan(
    schema: Seq<char>,
    view: Seq<char>,
    definition: Seq<char>,
    target_kind: Seq<char>,
    deps: Seq<DepInfo>,
    grants: Seq<Option<String>>,
) -> Seq<SqlStep> {
    let qualified_target = qualified_name(schema, view);
    let target_matview = is_matview_kind(target_kind);
    dependents_dropped(deps) + target_replaced(
        qualified_target,
        definition,
        target_matview,
        deps.len() > 0,
    ) + dependents_recreated(deps) + grants_restored(grants) + target_refreshed(
        qualified_target,
        target_matview,
    ) + matviews_refreshed(deps)
}

/// Whether the view `dep` is among those found to reference the dropped column.
pub open spec fn references_column(column_refs: Seq<(String, String)>, dep: DepInfo) -> bool {
    exists|k: int|
        0 <= k < column_refs.len() && (#[trigger] column_refs[k]).0@ == dep.dep_schema@
            && column_refs[k].1@ == dep.dep_view@
}

/// The marker put above a definition that still names the dropped column.
pub open spec fn todo_marker(column: Seq<char>) -> Seq<char> {
    "-- TODO: remove reference to '"@ + column + "'\n"@
}

/// The statement that recreates `dep` after `column` was dropped.
pub open spec fn recreate_sql_after_drop(
    dep: DepInfo,
    column: Seq<char>,
    column_refs: Seq<(String, String)>,
) -> Seq<char> {
    if references_column(column_refs, dep) {
        todo_marker(column) + dep.view_def@
    } else {
        dep.view_def@
    }
}

/// The dependents recreated base-first after a column drop, marked where they
/// reference the dropped column.
pub open spec fn dependents_recreated_after_drop(
    deps: Seq<DepInfo>,
    column: Seq<char>,
    column_refs: Seq<(String, String)>,
) -> Seq<SqlStep> {
    Seq::new(
        deps.len(),
        |k: int| recreate_step(deps[k], recreate_sql_after_drop(deps[k], column, column_refs)),
    )
}

pub open spec fn alter_table_step(schema: Seq<char>, table: Seq<char>, column: Seq<char>) -> SqlStep {
    SqlStep {
        operation: "ALTER TABLE"@,
        sql: "ALTER TABLE "@ + qualified_name(schema, table) + " DROP COLUMN "@ + quoted_ident(
            column,
        ),
    }
}

/// The plan that drops `column` from table `schema.table`.
pub open spec fn drop_column_plan(
    schema: Seq<char>,
    table: Seq<char>,
    column: Seq<char>,
    deps: Seq<DepInfo>,
    column_refs: Seq<(String, String)>,
    grants: Seq<Option<String>>,
) -> Seq<SqlStep> {
    dependents_dropped(deps) + seq![alter_table_step(schema, table, column)]
        + dependents_recreated_after_drop(deps, column, column_refs) + grants_restored(grants)
        + matviews_refreshed(deps)
}

/// Why a plan cannot be made.
#[derive(Debug)]
pub enum PlanError {
    /// The new view body is a whole CREATE statement rather than a SELECT body.
    CreateStatementGiven,
    /// The view to replace does not exist.
    ViewNotFound { schema: String, view: String },
    /// The table or its column to drop does not exist.
    ColumnNotFound { schema: String, table: String, column: String },
}

impl PlanError {
    /// The error text reported to the user.
    pub open spec fn message_text(&self) -> Seq<char> {
        match self {
            PlanError::CreateStatementGiven => "new_definition should be a SELECT body, not a full CREATE statement"@,
            PlanError::ViewNotFound { schema, view } => "view "@ + schema@ + "."@ + view@
                + " does not exist"@,
            PlanError::ColumnNotFound { schema, table, column } => "table "@ + schema@ + "."@
                + table@ + " column "@ + column@ + " does not exist"@,
        }
    }

    /// The error text reported to the user.
    pub fn message(&self) -> (text: String)
        ensures
            text@ == self.message_text(),
    {
        match self {
            PlanError::CreateStatementGiven => String::from_str(
                "new_definition should be a SELECT body, not a full CREATE statement",
            ),
            PlanError::ViewNotFound { schema, view } => {
                let mut text = String::from_str("view ");
                text.append(schema.as_str());
                text.append(".");
                text.append(view.as_str());
                text.append(" does not exist");
                text
            },
            PlanError::ColumnNotFound { schema, table, column } => {
                let mut text = String::from_str("table ");
                text.append(schema.as_str());
                text.append(".");
                text.append(table.as_str());
                text.append(" column ");
                text.append(column.as_str());
                text.append(" does not exist");
                text
            },
        }
    }
}

/// Checks that the trimmed new body of a view is a SELECT body rather than a
/// whole CREATE statement. The caller guarantees that its sixth byte, if it
/// has one, starts a character.
pub fn check_select_body(definition: &str) -> (checked: Result<(), PlanError>)
    requires
        vstd::utf8::encode_utf8(definition@).len() < 6 || vstd::utf8::is_char_boundary(
            vstd::utf8::encode_utf8(definition@),
            6,
        ),
    ensures
        (match checked {
            Ok(()) => !starts_with_create_keyword(definition@),
            Err(e) => starts_with_create_keyword(definition@) && e is CreateStatementGiven,
        }),
{
    if starts_with_create(definition) {
        Err(PlanError::CreateStatementGiven)
    } else {
        Ok(())
    }
}

// ---------------------------------------------------------------------------
// Lemmas on the plan segments
// ---------------------------------------------------------------------------

proof fn lemma_realizes_push(
    steps: Seq<MigrationStep>,
    plan: Seq<SqlStep>,
    next: MigrationStep,
    planned: SqlStep,
)
    requires
        realizes(steps, plan),
        next.step == steps.len() + 1,
        next.operation@ == planned.operation,
        next.sql@ == planned.sql,
    ensures
        realizes(steps.push(next), plan.push(planned)),
{
    let s2 = steps.push(next);
    let p2 = plan.push(planned);
    assert forall|i: int| 0 <= i < s2.len() implies {
        &&& #[trigger] s2[i].step == i + 1
        &&& s2[i].operation@ == p2[i].operation
        &&& s2[i].sql@ == p2[i].sql
    } by {
        if i < steps.len() {
            assert(s2[i] == steps[i]);
            assert(p2[i] == plan[i]);
        }
    }
}

proof fn lemma_grants_restored_len(grants: Seq<Option<String>>)
    ensures
        grants_restored(grants).len() <= grants.len(),
    decreases grants.len(),
{
    if grants.len() > 0 {
        lemma_grants_restored_len(grants.drop_last());
    }
}

proof fn lemma_matviews_refreshed_len(deps: Seq<DepInfo>)
    ensures
        matviews_refreshed(deps).len() <= deps.len(),
    decreases deps.len(),
{
    if deps.len() > 0 {
        lemma_matviews_refreshed_len(deps.drop_last());
    }
}

// ---------------------------------------------------------------------------
// Executable pieces
// ---------------------------------------------------------------------------

/// Appends a step numbered one past the last.
fn push_step(
    steps: &mut Vec<MigrationStep>,
    Ghost(plan): Ghost<Seq<SqlStep>>,
    operation: String,
    sql: String,
    Ghost(planned): Ghost<SqlStep>,
)
    requires
        realizes(old(steps)@, plan),
        old(steps).len() < i32::MAX,
        operation@ == planned.operation,
        sql@ == planned.sql,
    ensures
        realizes(final(steps)@, plan.push(planned)),
{
    let step = (steps.len() + 1) as i32;
    let next = MigrationStep { step, operation, sql };
    proof {
        lemma_realizes_push(old(steps)@, plan, next, planned);
    }
    steps.push(next);
}

/// `schema.name` with both parts quoted.
pub fn qualify(schema: &str, name: &str) -> (qualified: String)
    ensures
        qualified@ == qualified_name(schema@, name@),
{
    let mut out = pg_quote_ident(schema);
    out.append(".");
    let quoted_name = pg_quote_ident(name);
    out.append(quoted_name.as_str());
    proof {
        reveal_strlit(".");
    }
    out
}

fn object_kind_text(matview: bool) -> (kind: &'static str)
    ensures
        kind@ == object_kind(matview),
{
    if matview {
        "MATERIALIZED VIEW"
    } else {
        "VIEW"
    }
}

fn drop_statement(matview: bool, qualified: &str) -> (out: (String, String))
    ensures
        out.0@ == drop_step(matview, qualified@).operation,
        out.1@ == drop_step(matview, qualified@).sql,
{
    let kind = object_kind_text(matview);
    let mut operation = String::from_str("DROP ");
    operation.append(kind);
    let mut sql = String::from_str("DROP ");
    sql.append(kind);
    sql.append(" IF EXISTS ");
    sql.append(qualified);
    (operation, sql)
}

fn refresh_statement(qualified: &str) -> (out: (String, String))
    ensures
        out.0@ == refresh_step(qualified@).operation,
        out.1@ == refresh_step(qualified@).sql,
{
    let operation = String::from_str("REFRESH MATERIALIZED VIEW");
    let mut sql = String::from_str("REFRESH MATERIALIZED VIEW ");
    sql.append(qualified);
    (operation, sql)
}

fn create_operation(matview: bool) -> (operation: String)
    ensures
        operation@ == "CREATE "@ + object_kind(matview),
{
    let mut operation = String::from_str("CREATE ");
    operation.append(object_kind_text(matview));
    operation
}

/// Appends the DROP steps of the dependents, leaf-first.
fn push_dependent_drops(
    steps: &mut Vec<MigrationStep>,
    Ghost(before): Ghost<Seq<SqlStep>>,
    deps: &Vec<DepInfo>,
)
    requires
        realizes(old(steps)@, before),
        old(steps).len() + deps.len() <= i32::MAX,
    ensures
        realizes(final(steps)@, before + dependents_dropped(deps@)),
{
    let n = deps.len();
    let ghost all = dependents_dropped(deps@);
    let mut j: usize = 0;
    assert(before + all.take(0) =~= before);
    while j < n
        invariant
            n == deps.len(),
            j <= n,
            all == dependents_dropped(deps@),
            realizes(steps@, before + all.take(j as int)),
            steps.len() == before.len() + j,
            before.len() + n <= i32::MAX,
        decreases n - j,
    {
        let dep = &deps[n - 1 - j];
        let matview = is_matview(dep.view_kind.as_str());
        let qualified = qualify(dep.dep_schema.as_str(), dep.dep_view.as_str());
        let (operation, sql) = drop_statement(matview, qualified.as_str());
        assert(before + all.take(j + 1) =~= (before + all.take(j as int)).push(all[j as int]));
        push_step(steps, Ghost(before + all.take(j as int)), operation, sql, Ghost(all[j as int]));
        j = j + 1;
    }
    assert(all.take(n as int) =~= all);
}

/// Appends one step per dependent, recreating it base-first; the statement of
/// each is its definition, under the TODO marker of `marked_column` where
/// `column_refs` lists it.
fn push_dependent_creates(
    steps: &mut Vec<MigrationStep>,
    Ghost(before): Ghost<Seq<SqlStep>>,
    deps: &Vec<DepInfo>,
    marked_column: Option<&str>,
    column_refs: &Vec<(String, String)>,
)
    requires
        realizes(old(steps)@, before),
        old(steps).len() + deps.len() <= i32::MAX,
    ensures
        realizes(
            final(steps)@,
            before + match marked_column {
                Some(column) => dependents_recreated_after_drop(deps@, column@, column_refs@),
                None => dependents_recreated(deps@),
            },
        ),
{
    let n = deps.len();
    let ghost all = match marked_column {
        Some(column) => dependents_recreated_after_drop(deps@, column@, column_refs@),
        None => dependents_recreated(deps@),
    };
    let mut j: usize = 0;
    assert(before + all.take(0) =~= before);
    while j < n
        invariant
            n == deps.len(),
            j <= n,
            all == match marked_column {
                Some(column) => dependents_recreated_after_drop(deps@, column@, column_refs@),
                None => dependents_recreated(deps@),
            },
            realizes(steps@, before + all.take(j as int)),
            steps.len() == before.len() + j,
            before.len() + n <= i32::MAX,
        decreases n - j,
    {
        let dep = &deps[j];
        let operation = create_operation(is_matview(dep.view_kind.as_str()));
        let sql = match marked_column {
            Some(column) => {
                if references_listed(column_refs, dep) {
                    let mut marked = String::from_str("-- TODO: remove reference to '");
                    marked.append(column);
                    marked.append("'\n");
                    marked.append(dep.view_def.as_str());
                    marked
                } else {
                    dep.view_def.clone()
                }
            },
            None => dep.view_def.clone(),
        };
        assert(before + all.take(j + 1) =~= (before + all.take(j as int)).push(all[j as int]));
        push_step(steps, Ghost(before + all.take(j as int)), operation, sql, Ghost(all[j as int]));
        j = j + 1;
    }
    assert(all.take(n as int) =~= all);
}

/// Tells whether `column_refs` lists the view `dep`.
fn references_listed(column_refs: &Vec<(String, String)>, dep: &DepInfo) -> (found: bool)
    ensures
        found == references_column(column_refs@, *dep),
{
    let n = column_refs.len();
    let mut k: usize = 0;
    while k < n
        invariant
            n == column_refs.len(),
            k <= n,
            forall|i: int|
                0 <= i < k ==> !((#[trigger] column_refs@[i]).0@ == dep.dep_schema@
                    && column_refs@[i].1@ == dep.dep_view@),
        decreases n - k,
    {
        let entry = &column_refs[k];
        if entry.0 == dep.dep_schema && entry.1 == dep.dep_view {
            assert(column_refs@[k as int] == *entry);
            return true;
        }
        k = k + 1;
    }
    false
}

/// Appends one GRANT step per grant statement that was read.
fn push_grants(
    steps: &mut Vec<MigrationStep>,
    Ghost(before): Ghost<Seq<SqlStep>>,
    grants: &Vec<Option<String>>,
)
    requires
        realizes(old(steps)@, before),
        old(steps).len() + grants.len() <= i32::MAX,
    ensures
        realizes(final(steps)@, before + grants_restored(grants@)),
{
    let n = grants.len();
    let mut j: usize = 0;
    assert(grants@.take(0) =~= Seq::<Option<String>>::empty());
    assert(before + grants_restored(grants@.take(0)) =~= before);
    while j < n
        invariant
            n == grants.len(),
            j <= n,
            realizes(steps@, before + grants_restored(grants@.take(j as int))),
            steps.len() <= before.len() + j,
            before.len() + n <= i32::MAX,
        decreases n - j,
    {
        let ghost prefix = before + grants_restored(grants@.take(j as int));
        assert(grants@.take(j + 1).drop_last() =~= grants@.take(j as int));
        match &grants[j] {
            Some(g) => {
                let ghost planned = SqlStep { operation: "GRANT"@, sql: g@ };
                assert(before + grants_restored(grants@.take(j + 1)) =~= prefix.push(planned));
                push_step(steps, Ghost(prefix), String::from_str("GRANT"), g.clone(), Ghost(planned));
            },
            None => {
                assert(before + grants_restored(grants@.take(j + 1)) =~= prefix);
            },
        }
        j = j + 1;
    }
    assert(grants@.take(n as int) =~= grants@);
}

/// Appends one REFRESH step per materialized dependent, base-first.
fn push_matview_refreshes(
    steps: &mut Vec<MigrationStep>,
    Ghost(before): Ghost<Seq<SqlStep>>,
    deps: &Vec<DepInfo>,
)
    requires
        realizes(old(steps)@, before),
        old(steps).len() + deps.len() <= i32::MAX,
    ensures
        realizes(final(steps)@, before + matviews_refreshed(deps@)),
{
    let n = deps.len();
    let mut j: usize = 0;
    assert(deps@.take(0) =~= Seq::<DepInfo>::empty());
    assert(before + matviews_refreshed(deps@.take(0)) =~= before);
    while j < n
        invariant
            n == deps.len(),
            j <= n,
            realizes(steps@, before + matviews_refreshed(deps@.take(j as int))),
            steps.len() <= before.len() + j,
            before.len() + n <= i32::MAX,
        decreases n - j,
    {
        let ghost prefix = before + matviews_refreshed(deps@.take(j as int));
        assert(deps@.take(j + 1).drop_last() =~= deps@.take(j as int));
        let dep = &deps[j];
        if is_matview(dep.view_kind.as_str()) {
            let qualified = qualify(dep.dep_schema.as_str(), dep.dep_view.as_str());
            let (operation, sql) = refresh_statement(qualified.as_str());
            let ghost planned = refresh_step(dep_name(*dep));
            assert(before + matviews_refreshed(deps@.take(j + 1)) =~= prefix.push(planned));
            push_step(steps, Ghost(prefix), operation, sql, Ghost(planned));
        } else {
            assert(before + matviews_refreshed(deps@.take(j + 1)) =~= prefix);
        }
        j = j + 1;
    }
    assert(deps@.take(n as int) =~= deps@);
}

/// The steps that replace the body of view `schema_name.view_name`, of
/// relation kind `target_kind`, by `definition`; `deps` are its dependent
/// views in ascending dependency level and `grants` the grant statements read
/// for it and them.
pub fn replace_view_steps(
    schema_name: &str,
    view_name: &str,
    definition: &str,
    target_kind: &str,
    deps: &Vec<DepInfo>,
    grants: &Vec<Option<String>>,
) -> (steps: Vec<MigrationStep>)
    requires
        3 * deps.len() + grants.len() + 3 <= i32::MAX,
    ensures
        realizes(
            steps@,
            replace_view_plan(
                schema_name@,
                view_name@,
                definition@,
                target_kind@,
                deps@,
                grants@,
            ),
        ),
{
    let qualified_target = qualify(schema_name, view_name);
    let target_matview = is_matview(target_kind);
    let has_dependents = deps.len() > 0;
    let ghost qt = qualified_target@;
    let mut steps: Vec<MigrationStep> = Vec::new();
    let ghost p0 = Seq::<SqlStep>::empty();
    push_dependent_drops(&mut steps, Ghost(p0), deps);
    let ghost p1 = p0 + dependents_dropped(deps@);
    let ghost target = target_replaced(qt, definition@, target_matview, has_dependents);
    if target_matview || has_dependents {
        let (operation, sql) = drop_statement(target_matview, qualified_target.as_str());
        push_step(&mut steps, Ghost(p1), operation, sql, Ghost(target[0]));
        let operation = create_operation(target_matview);
        let mut sql = String::from_str("CREATE ");
        sql.append(object_kind_text(target_matview));
        sql.append(" ");
        sql.append(qualified_target.as_str());
        sql.append(" AS\n");
        sql.append(definition);
        push_step(&mut steps, Ghost(p1.push(target[0])), operation, sql, Ghost(target[1]));
        assert(p1 + target =~= p1.push(target[0]).push(target[1]));
    } else {
        let operation = String::from_str("CREATE OR REPLACE VIEW");
        let mut sql = String::from_str("CREATE OR REPLACE VIEW ");
        sql.append(qualified_target.as_str());
        sql.append(" AS\n");
        sql.append(definition);
        push_step(&mut steps, Ghost(p1), operation, sql, Ghost(target[0]));
        assert(p1 + target =~= p1.push(target[0]));
    }
    let ghost p2 = p1 + target;
    push_dependent_creates(&mut steps, Ghost(p2), deps, None, &Vec::new());
    let ghost p3 = p2 + dependents_recreated(deps@);
    proof {
        lemma_grants_restored_len(grants@);
    }
    push_grants(&mut steps, Ghost(p3), grants);
    let ghost p4 = p3 + grants_restored(grants@);
    if target_matview {
        let (operation, sql) = refresh_statement(qualified_target.as_str());
        push_step(&mut steps, Ghost(p4), operation, sql, Ghost(refresh_step(qt)));
        assert(p4 + target_refreshed(qt, target_matview) =~= p4.push(refresh_step(qt)));
    } else {
        assert(p4 + target_refreshed(qt, target_matview) =~= p4);
    }
    let ghost p5 = p4 + target_refreshed(qt, target_matview);
    push_matview_refreshes(&mut steps, Ghost(p5), deps);
    assert(p5 + matviews_refreshed(deps@) =~= replace_view_plan(
        schema_name@,
        view_name@,
        definition@,
        target_kind@,
        deps@,
        grants@,
    ));
    steps
}

/// Plans the replacement of the body of view `schema_name.view_name` by the
/// trimmed SELECT body `definition`. `target_kind` is the relation kind read
/// for the view, `None` where the view does not exist.
pub fn plan_replace_view(
    schema_name: &str,
    view_name: &str,
    definition: &str,
    target_kind: Option<String>,
    deps: &Vec<DepInfo>,
    grants: &Vec<Option<String>>,
) -> (planned: Result<Vec<MigrationStep>, PlanError>)
    requires
        3 * deps.len() + grants.len() + 3 <= i32::MAX,
    ensures
        (match planned {
            Ok(steps) => target_kind matches Some(kind) && realizes(
                steps@,
                replace_view_plan(schema_name@, view_name@, definition@, kind@, deps@, grants@),
            ),
            Err(e) => e matches PlanError::ViewNotFound { schema, view } && schema@ == schema_name@
                && view@ == view_name@ && target_kind is None,
        }),
{
    match target_kind {
        None => Err(
            PlanError::ViewNotFound {
                schema: String::from_str(schema_name),
                view: String::from_str(view_name),
            },
        ),
        Some(kind) => Ok(
            replace_view_steps(schema_name, view_name, definition, kind.as_str(), deps, grants),
        ),
    }
}

/// Plans the replacement of the body of view `schema_name.view_name` by
/// `new_definition`: the body is trimmed of surrounding whitespace, refused
/// when it is a whole CREATE statement, and otherwise planned against the
/// relation kind read for the view (`None` where the view does not exist),
/// its dependents and the grants read. The caller guarantees that the sixth
/// byte of the trimmed body, if it has one, starts a character.
pub fn plan_view_replacement(
    schema_name: &str,
    view_name: &str,
    new_definition: &str,
    target_kind: Option<String>,
    deps: &Vec<DepInfo>,
    grants: &Vec<Option<String>>,
) -> (planned: Result<Vec<MigrationStep>, PlanError>)
    requires
        vstd::utf8::encode_utf8(trim_chars(new_definition@)).len() < 6
            || vstd::utf8::is_char_boundary(vstd::utf8::encode_utf8(trim_chars(new_definition@)), 6),
        3 * deps.len() + grants.len() + 3 <= i32::MAX,
    ensures
        (match planned {
            Ok(steps) => target_kind matches Some(kind) && !starts_with_create_keyword(
                trim_chars(new_definition@),
            ) && realizes(
                steps@,
                replace_view_plan(
                    schema_name@,
                    view_name@,
                    trim_chars(new_definition@),
                    kind@,
                    deps@,
                    grants@,
                ),
            ),
            Err(e) => if starts_with_create_keyword(trim_chars(new_definition@)) {
                e is CreateStatementGiven
            } else {
                e matches PlanError::ViewNotFound { schema, view } && schema@ == schema_name@
                    && view@ == view_name@ && target_kind is None
            },
        }),
{
    let trimmed = trim(new_definition);
    match check_select_body(trimmed) {
        Err(e) => Err(e),
        Ok(()) => plan_replace_view(schema_name, view_name, trimmed, target_kind, deps, grants),
    }
}

/// The steps that drop `column_name` from table `schema_name.table_name`;
/// `deps` are the views that depend on the column, in ascending dependency
/// level, `column_refs` the views among them that name the column directly,
/// and `grants` the grant statements read for them.
pub fn drop_column_steps(
    schema_name: &str,
    table_name: &str,
    column_name: &str,
    deps: &Vec<DepInfo>,
    column_refs: &Vec<(String, String)>,
    grants: &Vec<Option<String>>,
) -> (steps: Vec<MigrationStep>)
    requires
        3 * deps.len() + grants.len() + 1 <= i32::MAX,
    ensures
        realizes(
            steps@,
            drop_column_plan(
                schema_name@,
                table_name@,
                column_name@,
                deps@,
                column_refs@,
                grants@,
            ),
        ),
{
    let mut steps: Vec<MigrationStep> = Vec::new();
    let ghost p0 = Seq::<SqlStep>::empty();
    push_dependent_drops(&mut steps, Ghost(p0), deps);
    let ghost p1 = p0 + dependents_dropped(deps@);
    let mut sql = String::from_str("ALTER TABLE ");
    let qualified_table = qualify(schema_name, table_name);
    sql.append(qualified_table.as_str());
    sql.append(" DROP COLUMN ");
    let quoted_column = pg_quote_ident(column_name);
    sql.append(quoted_column.as_str());
    let ghost alter = alter_table_step(schema_name@, table_name@, column_name@);
    push_step(&mut steps, Ghost(p1), String::from_str("ALTER TABLE"), sql, Ghost(alter));
    let ghost p2 = p1.push(alter);
    push_dependent_creates(&mut steps, Ghost(p2), deps, Some(column_name), column_refs);
    let ghost p3 = p2 + dependents_recreated_after_drop(deps@, column_name@, column_refs@);
    proof {
        lemma_grants_restored_len(grants@);
    }
    push_grants(&mut steps, Ghost(p3), grants);
    let ghost p4 = p3 + grants_restored(grants@);
    push_matview_refreshes(&mut steps, Ghost(p4), deps);
    assert(p4 + matviews_refreshed(deps@) =~= drop_column_plan(
        schema_name@,
        table_name@,
        column_name@,
        deps@,
        column_refs@,
        grants@,
    ));
    steps
}

/// Plans the drop of `column_name` from table `schema_name.table_name`;
/// `column_exists` tells whether the catalog holds that column on that table.
pub fn plan_drop_column(
    schema_name: &str,
    table_name: &str,
    column_name: &str,
    column_exists: bool,
    deps: &Vec<DepInfo>,
    column_refs: &Vec<(String, String)>,
    grants: &Vec<Option<String>>,
) -> (planned: Result<Vec<MigrationStep>, PlanError>)
    requires
        3 * deps.len() + grants.len() + 1 <= i32::MAX,
    ensures
        (match planned {
            Ok(steps) => column_exists && realizes(
                steps@,
                drop_column_plan(
                    schema_name@,
                    table_name@,
                    column_name@,
                    deps@,
                    column_refs@,
                    grants@,
                ),
            ),
            Err(e) => e matches PlanError::ColumnNotFound { schema, table, column } && schema@
                == schema_name@ && table@ == table_name@ && column@ == column_name@ && !column_exists,
        }),
{
    if !column_exists {
        Err(
            PlanError::ColumnNotFound {
                schema: String::from_str(schema_name),
                table: String::from_str(table_name),
                column: String::from_str(column_name),
            },
        )
    } else {
        Ok(drop_column_steps(schema_name, table_name, column_name, deps, column_refs, grants))
    }
}

} // verus!
