//! What every migration plan guarantees, whatever the catalog held: the order
//! of its phases, the order in which dependents are dropped and recreated,
//! and that no grant and no materialized view is forgotten.

use vstd::prelude::*;

use crate::plan::{
    alter_table_step, dep_is_matview, dep_name, dependents_dropped, dependents_recreated,
    dependents_recreated_after_drop, drop_column_plan, drop_step, grants_restored,
    matviews_refreshed, object_kind, qualified_name, recreate_step,
    references_column, refresh_step, replace_view_plan, target_refreshed, target_replaced,
    todo_marker, DepInfo, SqlStep,
};
use crate::text::{is_matview_kind, quoted_ident};

verus! {

/// The phase a step belongs to, by the word its operation starts with:
/// DROP, then ALTER, then CREATE, then GRANT, then REFRESH.
pub open spec fn step_phase(operation: Seq<char>) -> int {
    if "DROP"@.is_prefix_of(operation) {
        0
    } else if "ALTER"@.is_prefix_of(operation) {
        1
    } else if "CREATE"@.is_prefix_of(operation) {
        2
    } else if "GRANT"@.is_prefix_of(operation) {
        3
    } else if "REFRESH"@.is_prefix_of(operation) {
        4
    } else {
        5
    }
}

/// No step of `plan` belongs to an earlier phase than a step before it.
pub open spec fn phases_ordered(plan: Seq<SqlStep>) -> bool {
    forall|i: int, j: int|
        0 <= i < j < plan.len() ==> step_phase(#[trigger] plan[i].operation) <= step_phase(
            #[trigger] plan[j].operation,
        )
}

pub open spec fn phases_within(plan: Seq<SqlStep>, lo: int, hi: int) -> bool {
    forall|i: int| 0 <= i < plan.len() ==> lo <= #[trigger] step_phase(plan[i].operation) <= hi
}

proof fn lemma_not_prefix(word: Seq<char>, op: Seq<char>)
    requires
        word.len() > 0,
        op.len() > 0,
        word[0] != op[0],
    ensures
        !word.is_prefix_of(op),
{
    if word.len() <= op.len() {
        assert(op.subrange(0, word.len() as int)[0] == op[0]);
    }
}

proof fn lemma_phase_words()
    ensures
        forall|m: bool| step_phase(#[trigger] ("DROP "@ + object_kind(m))) == 0,
        forall|m: bool| step_phase(#[trigger] ("CREATE "@ + object_kind(m))) == 2,
        step_phase("ALTER TABLE"@) == 1,
        step_phase("CREATE OR REPLACE VIEW"@) == 2,
        step_phase("GRANT"@) == 3,
        step_phase("REFRESH MATERIALIZED VIEW"@) == 4,
{
    reveal_strlit("DROP");
    reveal_strlit("ALTER");
    reveal_strlit("CREATE");
    reveal_strlit("GRANT");
    reveal_strlit("REFRESH");
    reveal_strlit("DROP ");
    reveal_strlit("CREATE ");
    reveal_strlit("ALTER TABLE");
    reveal_strlit("CREATE OR REPLACE VIEW");
    reveal_strlit("REFRESH MATERIALIZED VIEW");
    let drop_w = "DROP"@;
    let alter_w = "ALTER"@;
    let create_w = "CREATE"@;
    let grant_w = "GRANT"@;
    let refresh_w = "REFRESH"@;
    assert forall|m: bool| step_phase(#[trigger] ("DROP "@ + object_kind(m))) == 0 by {
        let op = "DROP "@ + object_kind(m);
        assert(drop_w =~= op.subrange(0, 4));
    }
    assert forall|m: bool| step_phase(#[trigger] ("CREATE "@ + object_kind(m))) == 2 by {
        let op = "CREATE "@ + object_kind(m);
        lemma_not_prefix(drop_w, op);
        lemma_not_prefix(alter_w, op);
        assert(create_w =~= op.subrange(0, 6));
    }
    let op = "ALTER TABLE"@;
    lemma_not_prefix(drop_w, op);
    assert(alter_w =~= op.subrange(0, 5));
    let op = "CREATE OR REPLACE VIEW"@;
    lemma_not_prefix(drop_w, op);
    lemma_not_prefix(alter_w, op);
    assert(create_w =~= op.subrange(0, 6));
    let op = "GRANT"@;
    lemma_not_prefix(drop_w, op);
    lemma_not_prefix(alter_w, op);
    lemma_not_prefix(create_w, op);
    assert(grant_w =~= op.subrange(0, 5));
    let op = "REFRESH MATERIALIZED VIEW"@;
    lemma_not_prefix(drop_w, op);
    lemma_not_prefix(alter_w, op);
    lemma_not_prefix(create_w, op);
    lemma_not_prefix(grant_w, op);
    assert(refresh_w =~= op.subrange(0, 7));
}

proof fn lemma_phases_concat(a: Seq<SqlStep>, b: Seq<SqlStep>, lo: int, mid: int, hi: int)
    requires
        lo <= mid <= hi,
        phases_ordered(a),
        phases_ordered(b),
        phases_within(a, lo, mid),
        phases_within(b, mid, hi),
    ensures
        phases_ordered(a + b),
        phases_within(a + b, lo, hi),
{
    let c = a + b;
    assert forall|i: int, j: int| 0 <= i < j < c.len() implies step_phase(
        #[trigger] c[i].operation,
    ) <= step_phase(#[trigger] c[j].operation) by {
        if j < a.len() {
            assert(c[i] == a[i] && c[j] == a[j]);
            assert(step_phase(a[i].operation) <= step_phase(a[j].operation));
        } else if i >= a.len() {
            assert(c[i] == b[i - a.len()] && c[j] == b[j - a.len()]);
            assert(step_phase(b[i - a.len()].operation) <= step_phase(b[j - a.len()].operation));
        } else {
            assert(c[i] == a[i] && c[j] == b[j - a.len()]);
            assert(step_phase(a[i].operation) <= mid);
            assert(mid <= step_phase(b[j - a.len()].operation));
        }
    }
    assert forall|i: int| 0 <= i < c.len() implies lo <= #[trigger] step_phase(c[i].operation)
        <= hi by {
        if i < a.len() {
            assert(c[i] == a[i]);
        } else {
            assert(c[i] == b[i - a.len()]);
        }
    }
}

proof fn lemma_single_phase(plan: Seq<SqlStep>, p: int)
    requires
        phases_within(plan, p, p),
    ensures
        phases_ordered(plan),
{
    assert forall|i: int, j: int| 0 <= i < j < plan.len() implies step_phase(
        #[trigger] plan[i].operation,
    ) <= step_phase(#[trigger] plan[j].operation) by {
        assert(step_phase(plan[i].operation) == p);
        assert(step_phase(plan[j].operation) == p);
    }
}

proof fn lemma_grants_phase(grants: Seq<Option<String>>)
    ensures
        phases_within(grants_restored(grants), 3, 3),
    decreases grants.len(),
{
    lemma_phase_words();
    if grants.len() > 0 {
        lemma_grants_phase(grants.drop_last());
        let head = grants_restored(grants.drop_last());
        let whole = grants_restored(grants);
        assert forall|i: int| 0 <= i < whole.len() implies 3 <= #[trigger] step_phase(
            whole[i].operation,
        ) <= 3 by {
            if i < head.len() {
                assert(whole[i] == head[i]);
            }
        }
    }
}

proof fn lemma_refreshes_phase(deps: Seq<DepInfo>)
    ensures
        phases_within(matviews_refreshed(deps), 4, 4),
    decreases deps.len(),
{
    lemma_phase_words();
    if deps.len() > 0 {
        lemma_refreshes_phase(deps.drop_last());
        let head = matviews_refreshed(deps.drop_last());
        let whole = matviews_refreshed(deps);
        assert forall|i: int| 0 <= i < whole.len() implies 4 <= #[trigger] step_phase(
            whole[i].operation,
        ) <= 4 by {
            if i < head.len() {
                assert(whole[i] == head[i]);
            }
        }
    }
}

/// In every plan that replaces a view, the steps run phase by phase: all
/// DROPs, then all CREATEs, then all GRANTs, then all REFRESHes.
pub proof fn lemma_replace_view_phases_ordered(
    schema: Seq<char>,
    view: Seq<char>,
    definition: Seq<char>,
    target_kind: Seq<char>,
    deps: Seq<DepInfo>,
    grants: Seq<Option<String>>,
)
    ensures
        phases_ordered(replace_view_plan(schema, view, definition, target_kind, deps, grants)),
{
    lemma_phase_words();
    let qt = qualified_name(schema, view);
    let m = is_matview_kind(target_kind);
    let drops = dependents_dropped(deps);
    let target = target_replaced(qt, definition, m, deps.len() > 0);
    let creates = dependents_recreated(deps);
    let grant_steps = grants_restored(grants);
    let own_refresh = target_refreshed(qt, m);
    let refreshes = matviews_refreshed(deps);
    assert(phases_within(drops, 0, 0));
    lemma_single_phase(drops, 0);
    assert(phases_within(target, 0, 2));
    assert(phases_ordered(target));
    assert(phases_within(creates, 2, 2));
    lemma_single_phase(creates, 2);
    lemma_grants_phase(grants);
    lemma_single_phase(grant_steps, 3);
    assert(phases_within(own_refresh, 4, 4));
    lemma_single_phase(own_refresh, 4);
    lemma_refreshes_phase(deps);
    lemma_single_phase(refreshes, 4);
    lemma_phases_concat(drops, target, 0, 0, 2);
    lemma_phases_concat(drops + target, creates, 0, 2, 2);
    lemma_phases_concat(drops + target + creates, grant_steps, 0, 2, 3);
    lemma_phases_concat(drops + target + creates + grant_steps, own_refresh, 0, 3, 4);
    lemma_phases_concat(drops + target + creates + grant_steps + own_refresh, refreshes, 0, 4, 4);
}

/// In every plan that drops a column, the steps run phase by phase: all DROPs,
/// then the ALTER TABLE, then all CREATEs, then all GRANTs, then all REFRESHes.
pub proof fn lemma_drop_column_phases_ordered(
    schema: Seq<char>,
    table: Seq<char>,
    column: Seq<char>,
    deps: Seq<DepInfo>,
    column_refs: Seq<(String, String)>,
    grants: Seq<Option<String>>,
)
    ensures
        phases_ordered(drop_column_plan(schema, table, column, deps, column_refs, grants)),
{
    lemma_phase_words();
    let drops = dependents_dropped(deps);
    let alter = seq![alter_table_step(schema, table, column)];
    let creates = dependents_recreated_after_drop(deps, column, column_refs);
    let grant_steps = grants_restored(grants);
    let refreshes = matviews_refreshed(deps);
    assert(phases_within(drops, 0, 0));
    lemma_single_phase(drops, 0);
    assert(phases_within(alter, 1, 1));
    lemma_single_phase(alter, 1);
    assert(phases_within(creates, 2, 2));
    lemma_single_phase(creates, 2);
    lemma_grants_phase(grants);
    lemma_single_phase(grant_steps, 3);
    lemma_refreshes_phase(deps);
    lemma_single_phase(refreshes, 4);
    lemma_phases_concat(drops, alter, 0, 0, 1);
    lemma_phases_concat(drops + alter, creates, 0, 1, 2);
    lemma_phases_concat(drops + alter + creates, grant_steps, 0, 2, 3);
    lemma_phases_concat(drops + alter + creates + grant_steps, refreshes, 0, 3, 4);
}

proof fn lemma_grants_kept(grants: Seq<Option<String>>, j: int)
    requires
        0 <= j < grants.len(),
        grants[j] is Some,
    ensures
        exists|i: int|
            0 <= i < grants_restored(grants).len() && #[trigger] grants_restored(grants)[i]
                == (SqlStep { operation: "GRANT"@, sql: grants[j]->0@ }),
    decreases grants.len(),
{
    let head = grants_restored(grants.drop_last());
    let whole = grants_restored(grants);
    if j == grants.len() - 1 {
        assert(whole[head.len() as int] == (SqlStep { operation: "GRANT"@, sql: grants[j]->0@ }));
    } else {
        assert(grants.drop_last()[j] == grants[j]);
        lemma_grants_kept(grants.drop_last(), j);
        let i = choose|i: int|
            0 <= i < head.len() && #[trigger] head[i] == (SqlStep {
                operation: "GRANT"@,
                sql: grants[j]->0@,
            });
        assert(whole[i] == head[i]);
    }
}

proof fn lemma_grants_none(grants: Seq<Option<String>>)
    requires
        forall|j: int| 0 <= j < grants.len() ==> (#[trigger] grants[j]) is None,
    ensures
        grants_restored(grants).len() == 0,
    decreases grants.len(),
{
    if grants.len() > 0 {
        assert(grants.last() is None);
        lemma_grants_none(grants.drop_last());
    }
}

proof fn lemma_matview_refreshed(deps: Seq<DepInfo>, k: int)
    requires
        0 <= k < deps.len(),
        dep_is_matview(deps[k]),
    ensures
        exists|i: int|
            0 <= i < matviews_refreshed(deps).len() && #[trigger] matviews_refreshed(deps)[i]
                == refresh_step(dep_name(deps[k])),
    decreases deps.len(),
{
    let head = matviews_refreshed(deps.drop_last());
    let whole = matviews_refreshed(deps);
    if k == deps.len() - 1 {
        assert(whole[head.len() as int] == refresh_step(dep_name(deps[k])));
    } else {
        assert(deps.drop_last()[k] == deps[k]);
        lemma_matview_refreshed(deps.drop_last(), k);
        let i = choose|i: int|
            0 <= i < head.len() && #[trigger] head[i] == refresh_step(dep_name(deps[k]));
        assert(whole[i] == head[i]);
    }
}

/// When a view is replaced, each dependent (listed in ascending dependency
/// level) is dropped leaf-first, before the target is dropped, and recreated
/// base-first from its own stored definition right after the target is
/// recreated: the dependent at position `k` of `n` is dropped by step `n - k`
/// and recreated by step `n + 3 + k`.
pub proof fn lemma_replace_view_dependents(
    schema: Seq<char>,
    view: Seq<char>,
    definition: Seq<char>,
    target_kind: Seq<char>,
    deps: Seq<DepInfo>,
    grants: Seq<Option<String>>,
    k: int,
)
    requires
        0 <= k < deps.len(),
    ensures
        ({
            let plan = replace_view_plan(schema, view, definition, target_kind, deps, grants);
            let n = deps.len() as int;
            &&& plan[n - 1 - k] == drop_step(dep_is_matview(deps[k]), dep_name(deps[k]))
            &&& plan[n] == drop_step(is_matview_kind(target_kind), qualified_name(schema, view))
            &&& plan[n + 1].operation == "CREATE "@ + object_kind(is_matview_kind(target_kind))
            &&& plan[n + 2 + k] == recreate_step(deps[k], deps[k].view_def@)
        }),
{
    let plan = replace_view_plan(schema, view, definition, target_kind, deps, grants);
    let n = deps.len() as int;
    let qt = qualified_name(schema, view);
    let m = is_matview_kind(target_kind);
    let drops = dependents_dropped(deps);
    let target = target_replaced(qt, definition, m, deps.len() > 0);
    let creates = dependents_recreated(deps);
    let rest = grants_restored(grants) + target_refreshed(qt, m) + matviews_refreshed(deps);
    assert(plan =~= drops + target + creates + rest);
    assert(drops[n - 1 - k] == drop_step(dep_is_matview(deps[k]), dep_name(deps[k])));
    assert(plan[n - 1 - k] == drops[n - 1 - k]);
    assert(plan[n] == target[0]);
    assert(plan[n + 1] == target[1]);
    assert(plan[n + 2 + k] == creates[k]);
}

/// When a column is dropped, each dependent (listed in ascending dependency
/// level) is dropped leaf-first before the ALTER TABLE and recreated base-first
/// after it: the dependent at position `k` of `n` is dropped by step `n - k`
/// and recreated by step `n + 2 + k`, from its stored definition, which carries
/// the TODO marker of the column exactly when the view references the column.
pub proof fn lemma_drop_column_dependents(
    schema: Seq<char>,
    table: Seq<char>,
    column: Seq<char>,
    deps: Seq<DepInfo>,
    column_refs: Seq<(String, String)>,
    grants: Seq<Option<String>>,
    k: int,
)
    requires
        0 <= k < deps.len(),
    ensures
        ({
            let plan = drop_column_plan(schema, table, column, deps, column_refs, grants);
            let n = deps.len() as int;
            &&& plan[n - 1 - k] == drop_step(dep_is_matview(deps[k]), dep_name(deps[k]))
            &&& plan[n] == alter_table_step(schema, table, column)
            &&& plan[n + 1 + k].operation == "CREATE "@ + object_kind(dep_is_matview(deps[k]))
            &&& references_column(column_refs, deps[k]) ==> plan[n + 1 + k].sql == todo_marker(
                column,
            ) + deps[k].view_def@
            &&& !references_column(column_refs, deps[k]) ==> plan[n + 1 + k].sql
                == deps[k].view_def@
        }),
{
    let plan = drop_column_plan(schema, table, column, deps, column_refs, grants);
    let n = deps.len() as int;
    let drops = dependents_dropped(deps);
    let alter = seq![alter_table_step(schema, table, column)];
    let creates = dependents_recreated_after_drop(deps, column, column_refs);
    let rest = grants_restored(grants) + matviews_refreshed(deps);
    assert(plan =~= drops + alter + creates + rest);
    assert(drops[n - 1 - k] == drop_step(dep_is_matview(deps[k]), dep_name(deps[k])));
    assert(plan[n - 1 - k] == drops[n - 1 - k]);
    assert(plan[n] == alter[0]);
    assert(plan[n + 1 + k] == creates[k]);
}

/// Every grant statement that was read is restored by a GRANT step of the plan
/// that replaces a view.
pub proof fn lemma_replace_view_grants_kept(
    schema: Seq<char>,
    view: Seq<char>,
    definition: Seq<char>,
    target_kind: Seq<char>,
    deps: Seq<DepInfo>,
    grants: Seq<Option<String>>,
    j: int,
)
    requires
        0 <= j < grants.len(),
        grants[j] is Some,
    ensures
        exists|i: int|
            0 <= i < replace_view_plan(schema, view, definition, target_kind, deps, grants).len()
                && #[trigger] replace_view_plan(
                schema,
                view,
                definition,
                target_kind,
                deps,
                grants,
            )[i] == (SqlStep { operation: "GRANT"@, sql: grants[j]->0@ }),
{
    let plan = replace_view_plan(schema, view, definition, target_kind, deps, grants);
    let qt = qualified_name(schema, view);
    let m = is_matview_kind(target_kind);
    let front = dependents_dropped(deps) + target_replaced(qt, definition, m, deps.len() > 0)
        + dependents_recreated(deps);
    let g = grants_restored(grants);
    let back = target_refreshed(qt, m) + matviews_refreshed(deps);
    assert(plan =~= front + g + back);
    lemma_grants_kept(grants, j);
    let i = choose|i: int|
        0 <= i < g.len() && #[trigger] g[i] == (SqlStep {
            operation: "GRANT"@,
            sql: grants[j]->0@,
        });
    assert(plan[front.len() + i] == g[i]);
}

/// Every grant statement that was read is restored by a GRANT step of the plan
/// that drops a column.
pub proof fn lemma_drop_column_grants_kept(
    schema: Seq<char>,
    table: Seq<char>,
    column: Seq<char>,
    deps: Seq<DepInfo>,
    column_refs: Seq<(String, String)>,
    grants: Seq<Option<String>>,
    j: int,
)
    requires
        0 <= j < grants.len(),
        grants[j] is Some,
    ensures
        exists|i: int|
            0 <= i < drop_column_plan(schema, table, column, deps, column_refs, grants).len()
                && #[trigger] drop_column_plan(schema, table, column, deps, column_refs, grants)[i]
                == (SqlStep { operation: "GRANT"@, sql: grants[j]->0@ }),
{
    let plan = drop_column_plan(schema, table, column, deps, column_refs, grants);
    let front = dependents_dropped(deps) + seq![alter_table_step(schema, table, column)]
        + dependents_recreated_after_drop(deps, column, column_refs);
    let g = grants_restored(grants);
    assert(plan =~= front + g + matviews_refreshed(deps));
    lemma_grants_kept(grants, j);
    let i = choose|i: int|
        0 <= i < g.len() && #[trigger] g[i] == (SqlStep {
            operation: "GRANT"@,
            sql: grants[j]->0@,
        });
    assert(plan[front.len() + i] == g[i]);
}

/// The plan that replaces a view refreshes every materialized view among the
/// dependents, and the target itself when it is one.
pub proof fn lemma_replace_view_matviews_refreshed(
    schema: Seq<char>,
    view: Seq<char>,
    definition: Seq<char>,
    target_kind: Seq<char>,
    deps: Seq<DepInfo>,
    grants: Seq<Option<String>>,
)
    ensures
        ({
            let plan = replace_view_plan(schema, view, definition, target_kind, deps, grants);
            &&& is_matview_kind(target_kind) ==> exists|i: int|
                0 <= i < plan.len() && #[trigger] plan[i] == refresh_step(
                    qualified_name(schema, view),
                )
            &&& forall|k: int|
                0 <= k < deps.len() && dep_is_matview(#[trigger] deps[k]) ==> exists|i: int|
                    0 <= i < plan.len() && plan[i] == refresh_step(dep_name(deps[k]))
        }),
{
    let plan = replace_view_plan(schema, view, definition, target_kind, deps, grants);
    let qt = qualified_name(schema, view);
    let m = is_matview_kind(target_kind);
    let front = dependents_dropped(deps) + target_replaced(qt, definition, m, deps.len() > 0)
        + dependents_recreated(deps) + grants_restored(grants);
    let own = target_refreshed(qt, m);
    let r = matviews_refreshed(deps);
    assert(plan =~= front + own + r);
    if m {
        assert(plan[front.len() as int] == refresh_step(qt));
    }
    assert forall|k: int| 0 <= k < deps.len() && dep_is_matview(#[trigger] deps[k]) implies exists|
        i: int,
    | 0 <= i < plan.len() && plan[i] == refresh_step(dep_name(deps[k])) by {
        lemma_matview_refreshed(deps, k);
        let i = choose|i: int| 0 <= i < r.len() && #[trigger] r[i] == refresh_step(dep_name(deps[k]));
        assert(plan[front.len() + own.len() + i] == r[i]);
    }
}

/// The plan that drops a column refreshes every materialized view among the
/// dependents.
pub proof fn lemma_drop_column_matviews_refreshed(
    schema: Seq<char>,
    table: Seq<char>,
    column: Seq<char>,
    deps: Seq<DepInfo>,
    column_refs: Seq<(String, String)>,
    grants: Seq<Option<String>>,
    k: int,
)
    requires
        0 <= k < deps.len(),
        dep_is_matview(deps[k]),
    ensures
        exists|i: int|
            0 <= i < drop_column_plan(schema, table, column, deps, column_refs, grants).len()
                && #[trigger] drop_column_plan(schema, table, column, deps, column_refs, grants)[i]
                == refresh_step(dep_name(deps[k])),
{
    let plan = drop_column_plan(schema, table, column, deps, column_refs, grants);
    let front = dependents_dropped(deps) + seq![alter_table_step(schema, table, column)]
        + dependents_recreated_after_drop(deps, column, column_refs) + grants_restored(grants);
    let r = matviews_refreshed(deps);
    assert(plan =~= front + r);
    lemma_matview_refreshed(deps, k);
    let i = choose|i: int| 0 <= i < r.len() && #[trigger] r[i] == refresh_step(dep_name(deps[k]));
    assert(plan[front.len() + i] == r[i]);
}

/// A plain view with no dependents and no grants to restore is replaced in
/// place by a single CREATE OR REPLACE VIEW step.
pub proof fn lemma_standalone_view_replaced_in_place(
    schema: Seq<char>,
    view: Seq<char>,
    definition: Seq<char>,
    target_kind: Seq<char>,
    deps: Seq<DepInfo>,
    grants: Seq<Option<String>>,
)
    requires
        !is_matview_kind(target_kind),
        deps.len() == 0,
        forall|j: int| 0 <= j < grants.len() ==> (#[trigger] grants[j]) is None,
    ensures
        replace_view_plan(schema, view, definition, target_kind, deps, grants) == seq![
            SqlStep {
                operation: "CREATE OR REPLACE VIEW"@,
                sql: "CREATE OR REPLACE VIEW "@ + qualified_name(schema, view) + " AS\n"@
                    + definition,
            },
        ],
{
    lemma_grants_none(grants);
    lemma_matviews_none(deps);
    assert(replace_view_plan(schema, view, definition, target_kind, deps, grants) =~= seq![
        SqlStep {
            operation: "CREATE OR REPLACE VIEW"@,
            sql: "CREATE OR REPLACE VIEW "@ + qualified_name(schema, view) + " AS\n"@ + definition,
        },
    ]);
}

/// Dropping a column that no view depends on, with no grants to restore, is a
/// single ALTER TABLE step.
pub proof fn lemma_unreferenced_column_dropped_alone(
    schema: Seq<char>,
    table: Seq<char>,
    column: Seq<char>,
    deps: Seq<DepInfo>,
    column_refs: Seq<(String, String)>,
    grants: Seq<Option<String>>,
)
    requires
        deps.len() == 0,
        forall|j: int| 0 <= j < grants.len() ==> (#[trigger] grants[j]) is None,
    ensures
        drop_column_plan(schema, table, column, deps, column_refs, grants) == seq![
            alter_table_step(schema, table, column),
        ],
{
    lemma_grants_none(grants);
    lemma_matviews_none(deps);
    assert(drop_column_plan(schema, table, column, deps, column_refs, grants) =~= seq![
        alter_table_step(schema, table, column),
    ]);
}

proof fn lemma_matviews_none(deps: Seq<DepInfo>)
    requires
        deps.len() == 0,
    ensures
        matviews_refreshed(deps).len() == 0,
{
}

/// The target of a view replacement is replaced in place by one CREATE OR
/// REPLACE VIEW step when it is a plain view without dependents, and
/// otherwise dropped and recreated by two adjacent steps right after the
/// dependents are dropped.
pub proof fn lemma_replace_view_target_steps(
    schema: Seq<char>,
    view: Seq<char>,
    definition: Seq<char>,
    target_kind: Seq<char>,
    deps: Seq<DepInfo>,
    grants: Seq<Option<String>>,
)
    ensures
        ({
            let plan = replace_view_plan(schema, view, definition, target_kind, deps, grants);
            let n = deps.len() as int;
            let qt = qualified_name(schema, view);
            let m = is_matview_kind(target_kind);
            &&& (!m && n == 0) ==> plan[0] == (SqlStep {
                operation: "CREATE OR REPLACE VIEW"@,
                sql: "CREATE OR REPLACE VIEW "@ + qt + " AS\n"@ + definition,
            })
            &&& (m || n > 0) ==> plan[n] == drop_step(m, qt) && plan[n + 1] == (SqlStep {
                operation: "CREATE "@ + object_kind(m),
                sql: "CREATE "@ + object_kind(m) + " "@ + qt + " AS\n"@ + definition,
            })
        }),
{
    let plan = replace_view_plan(schema, view, definition, target_kind, deps, grants);
    let n = deps.len() as int;
    let qt = qualified_name(schema, view);
    let m = is_matview_kind(target_kind);
    let drops = dependents_dropped(deps);
    let target = target_replaced(qt, definition, m, deps.len() > 0);
    let rest = dependents_recreated(deps) + grants_restored(grants) + target_refreshed(qt, m)
        + matviews_refreshed(deps);
    assert(plan =~= drops + target + rest);
    assert(plan[n] == target[0]);
    if m || n > 0 {
        assert(plan[n + 1] == target[1]);
    }
}

spec fn refreshes_matview_dep(deps: Seq<DepInfo>, step: SqlStep) -> bool {
    exists|k: int|
        0 <= k < deps.len() && (#[trigger] deps[k]).view_kind@ == seq!['m'] && step
            == refresh_step(qualified_name(deps[k].dep_schema@, deps[k].dep_view@))
}

proof fn lemma_refreshed_are_matviews(deps: Seq<DepInfo>)
    ensures
        forall|i: int|
            0 <= i < matviews_refreshed(deps).len() ==> refreshes_matview_dep(
                deps,
                #[trigger] matviews_refreshed(deps)[i],
            ),
    decreases deps.len(),
{
    if deps.len() > 0 {
        let t = deps.drop_last();
        lemma_refreshed_are_matviews(t);
        let head = matviews_refreshed(t);
        let whole = matviews_refreshed(deps);
        assert forall|i: int| 0 <= i < whole.len() implies refreshes_matview_dep(
            deps,
            #[trigger] whole[i],
        ) by {
            if i < head.len() {
                assert(whole[i] == head[i]);
                assert(refreshes_matview_dep(t, head[i]));
                let k = choose|k: int|
                    0 <= k < t.len() && (#[trigger] t[k]).view_kind@ == seq!['m'] && head[i]
                        == refresh_step(qualified_name(t[k].dep_schema@, t[k].dep_view@));
                assert(t[k] == deps[k]);
            } else {
                let k = deps.len() - 1;
                assert(deps[k] == deps.last());
                assert(dep_is_matview(deps.last()));
                assert(whole[i] == refresh_step(dep_name(deps.last())));
                assert(deps[k].view_kind@ == seq!['m']);
            }
        }
    }
}

/// Every REFRESH MATERIALIZED VIEW step of a view replacement refreshes a
/// materialized view: the target when its kind is `m`, or a dependent whose
/// kind is `m`; a plain view is never refreshed.
pub proof fn lemma_replace_view_refreshes_only_matviews(
    schema: Seq<char>,
    view: Seq<char>,
    definition: Seq<char>,
    target_kind: Seq<char>,
    deps: Seq<DepInfo>,
    grants: Seq<Option<String>>,
)
    ensures
        ({
            let plan = replace_view_plan(schema, view, definition, target_kind, deps, grants);
            forall|i: int|
                0 <= i < plan.len() && (#[trigger] plan[i]).operation
                    == "REFRESH MATERIALIZED VIEW"@ ==> {
                    ||| target_kind == seq!['m'] && plan[i].sql == "REFRESH MATERIALIZED VIEW "@
                        + quoted_ident(schema) + seq!['.'] + quoted_ident(view)
                    ||| exists|k: int|
                        0 <= k < deps.len() && (#[trigger] deps[k]).view_kind@ == seq!['m']
                            && plan[i].sql == "REFRESH MATERIALIZED VIEW "@ + quoted_ident(
                            deps[k].dep_schema@,
                        ) + seq!['.'] + quoted_ident(deps[k].dep_view@)
                }
        }),
{
    lemma_phase_words();
    let plan = replace_view_plan(schema, view, definition, target_kind, deps, grants);
    let qt = qualified_name(schema, view);
    let m = is_matview_kind(target_kind);
    let drops = dependents_dropped(deps);
    let target = target_replaced(qt, definition, m, deps.len() > 0);
    let creates = dependents_recreated(deps);
    let g = grants_restored(grants);
    let own = target_refreshed(qt, m);
    let r = matviews_refreshed(deps);
    let front = drops + target + creates + g;
    assert(phases_within(drops, 0, 0));
    lemma_single_phase(drops, 0);
    assert(phases_within(target, 0, 2));
    assert(phases_ordered(target));
    assert(phases_within(creates, 2, 2));
    lemma_single_phase(creates, 2);
    lemma_grants_phase(grants);
    lemma_single_phase(g, 3);
    lemma_phases_concat(drops, target, 0, 0, 2);
    lemma_phases_concat(drops + target, creates, 0, 2, 2);
    lemma_phases_concat(drops + target + creates, g, 0, 2, 3);
    assert(plan =~= front + own + r);
    lemma_refreshed_are_matviews(deps);
    assert forall|i: int|
        0 <= i < plan.len() && (#[trigger] plan[i]).operation
            == "REFRESH MATERIALIZED VIEW"@ implies {
        ||| target_kind == seq!['m'] && plan[i].sql == "REFRESH MATERIALIZED VIEW "@
            + quoted_ident(schema) + seq!['.'] + quoted_ident(view)
        ||| exists|k: int|
            0 <= k < deps.len() && (#[trigger] deps[k]).view_kind@ == seq!['m'] && plan[i].sql
                == "REFRESH MATERIALIZED VIEW "@ + quoted_ident(deps[k].dep_schema@) + seq!['.']
                + quoted_ident(deps[k].dep_view@)
    } by {
        if i < front.len() {
            assert(plan[i] == front[i]);
            assert(step_phase(front[i].operation) <= 3);
            assert(false);
        } else if i < front.len() + own.len() {
            assert(plan[i] == own[i - front.len()]);
            assert(m);
            assert(plan[i].sql == "REFRESH MATERIALIZED VIEW "@ + qt);
            assert("REFRESH MATERIALIZED VIEW "@ + qt =~= "REFRESH MATERIALIZED VIEW "@
                + quoted_ident(schema) + seq!['.'] + quoted_ident(view));
        } else {
            let j = i - front.len() - own.len();
            assert(plan[i] == r[j]);
            assert(refreshes_matview_dep(deps, r[j]));
            let k = choose|k: int|
                0 <= k < deps.len() && (#[trigger] deps[k]).view_kind@ == seq!['m'] && r[j]
                    == refresh_step(qualified_name(deps[k].dep_schema@, deps[k].dep_view@));
            let qd = qualified_name(deps[k].dep_schema@, deps[k].dep_view@);
            assert("REFRESH MATERIALIZED VIEW "@ + qd =~= "REFRESH MATERIALIZED VIEW "@
                + quoted_ident(deps[k].dep_schema@) + seq!['.'] + quoted_ident(deps[k].dep_view@));
        }
    }
}

/// Every REFRESH MATERIALIZED VIEW step of a column drop refreshes a
/// dependent whose kind is `m`; a plain view is never refreshed.
pub proof fn lemma_drop_column_refreshes_only_matviews(
    schema: Seq<char>,
    table: Seq<char>,
    column: Seq<char>,
    deps: Seq<DepInfo>,
    column_refs: Seq<(String, String)>,
    grants: Seq<Option<String>>,
)
    ensures
        ({
            let plan = drop_column_plan(schema, table, column, deps, column_refs, grants);
            forall|i: int|
                0 <= i < plan.len() && (#[trigger] plan[i]).operation
                    == "REFRESH MATERIALIZED VIEW"@ ==> exists|k: int|
                    0 <= k < deps.len() && (#[trigger] deps[k]).view_kind@ == seq!['m']
                        && plan[i].sql == "REFRESH MATERIALIZED VIEW "@ + quoted_ident(
                        deps[k].dep_schema@,
                    ) + seq!['.'] + quoted_ident(deps[k].dep_view@)
        }),
{
    lemma_phase_words();
    let plan = drop_column_plan(schema, table, column, deps, column_refs, grants);
    let drops = dependents_dropped(deps);
    let alter = seq![alter_table_step(schema, table, column)];
    let creates = dependents_recreated_after_drop(deps, column, column_refs);
    let g = grants_restored(grants);
    let r = matviews_refreshed(deps);
    let front = drops + alter + creates + g;
    assert(phases_within(drops, 0, 0));
    lemma_single_phase(drops, 0);
    assert(phases_within(alter, 1, 1));
    lemma_single_phase(alter, 1);
    assert(phases_within(creates, 2, 2));
    lemma_single_phase(creates, 2);
    lemma_grants_phase(grants);
    lemma_single_phase(g, 3);
    lemma_phases_concat(drops, alter, 0, 0, 1);
    lemma_phases_concat(drops + alter, creates, 0, 1, 2);
    lemma_phases_concat(drops + alter + creates, g, 0, 2, 3);
    assert(plan =~= front + r);
    lemma_refreshed_are_matviews(deps);
    assert forall|i: int|
        0 <= i < plan.len() && (#[trigger] plan[i]).operation
            == "REFRESH MATERIALIZED VIEW"@ implies exists|k: int|
        0 <= k < deps.len() && (#[trigger] deps[k]).view_kind@ == seq!['m'] && plan[i].sql
            == "REFRESH MATERIALIZED VIEW "@ + quoted_ident(deps[k].dep_schema@) + seq!['.']
            + quoted_ident(deps[k].dep_view@) by {
        if i < front.len() {
            assert(plan[i] == front[i]);
            assert(step_phase(front[i].operation) <= 3);
            assert(false);
        } else {
            let j = i - front.len();
            assert(plan[i] == r[j]);
            assert(refreshes_matview_dep(deps, r[j]));
            let k = choose|k: int|
                0 <= k < deps.len() && (#[trigger] deps[k]).view_kind@ == seq!['m'] && r[j]
                    == refresh_step(qualified_name(deps[k].dep_schema@, deps[k].dep_view@));
            let qd = qualified_name(deps[k].dep_schema@, deps[k].dep_view@);
            assert("REFRESH MATERIALIZED VIEW "@ + qd =~= "REFRESH MATERIALIZED VIEW "@
                + quoted_ident(deps[k].dep_schema@) + seq!['.'] + quoted_ident(deps[k].dep_view@));
        }
    }
}

/// When a column is dropped, the dependent at position `k` is recreated with
/// the TODO marker of the column exactly when one single entry of the column
/// references names both its schema and its view, and from its stored
/// definition unchanged otherwise.
pub proof fn lemma_drop_column_marker_needs_one_entry(
    schema: Seq<char>,
    table: Seq<char>,
    column: Seq<char>,
    deps: Seq<DepInfo>,
    column_refs: Seq<(String, String)>,
    grants: Seq<Option<String>>,
    k: int,
)
    requires
        0 <= k < deps.len(),
    ensures
        ({
            let plan = drop_column_plan(schema, table, column, deps, column_refs, grants);
            let sql = plan[deps.len() + 1 + k].sql;
            let named = exists|j: int|
                0 <= j < column_refs.len() && (#[trigger] column_refs[j]).0@ == deps[k].dep_schema@
                    && column_refs[j].1@ == deps[k].dep_view@;
            &&& named ==> sql == "-- TODO: remove reference to '"@ + column + "'\n"@
                + deps[k].view_def@
            &&& !named ==> sql == deps[k].view_def@
        }),
{
    lemma_drop_column_dependents(schema, table, column, deps, column_refs, grants, k);
    let named = exists|j: int|
        0 <= j < column_refs.len() && (#[trigger] column_refs[j]).0@ == deps[k].dep_schema@
            && column_refs[j].1@ == deps[k].dep_view@;
    assert(named == references_column(column_refs, deps[k]));
}

} // verus!
