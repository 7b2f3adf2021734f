//! The logic of the `pg_viewctl` command: parsing its targets, choosing the
//! query each subcommand sends, and writing the dependency report.

use vstd::prelude::*;

use crate::text::{decimal, decimal_i32, decimal_u64, signed_decimal};
use crate::target::{
    has_no_dot, join_with_dots, lemma_split_join, split_on_dots, split_target, string_views,
};

verus! {

/// A target of the form `schema.object`.
#[derive(Debug)]
pub struct SchemaObject {
    pub schema: String,
    pub object: String,
}

/// A target of the form `schema.object.column`.
#[derive(Debug)]
pub struct SchemaObjectColumn {
    pub schema: String,
    pub object: String,
    pub column: String,
}

/// A target that does not have the expected number of parts.
#[derive(Debug)]
pub enum TargetError {
    ExpectedSchemaObject { target: String },
    ExpectedSchemaObjectColumn { target: String },
}

impl TargetError {
    /// The error text reported to the user.
    pub open spec fn message_text(&self) -> Seq<char> {
        match self {
            TargetError::ExpectedSchemaObject { target } => "expected schema.object, got '"@
                + target@ + "'"@,
            TargetError::ExpectedSchemaObjectColumn { target } =>
                "expected schema.object.column, got '"@ + target@ + "'"@,
        }
    }

    /// The error text reported to the user.
    pub fn message(&self) -> (text: String)
        ensures
            text@ == self.message_text(),
    {
        match self {
            TargetError::ExpectedSchemaObject { target } => {
                let mut text = String::from_str("expected schema.object, got '");
                text.append(target.as_str());
                text.append("'");
                text
            },
            TargetError::ExpectedSchemaObjectColumn { target } => {
                let mut text = String::from_str("expected schema.object.column, got '");
                text.append(target.as_str());
                text.append("'");
                text
            },
        }
    }
}

/// Parses `schema.object`: the target must split into exactly two parts at its dots.
pub fn parse_two_part(target: &str) -> (parsed: Result<SchemaObject, TargetError>)
    ensures
        (match parsed {
            Ok(o) => split_on_dots(target@) == seq![o.schema@, o.object@],
            Err(e) => e matches TargetError::ExpectedSchemaObject { target: t } && t@ == target@
                && split_on_dots(target@).len() != 2,
        }),
{
    let parts = split_target(target);
    if parts.len() != 2 {
        return Err(TargetError::ExpectedSchemaObject { target: String::from_str(target) });
    }
    let schema = parts[0].clone();
    let object = parts[1].clone();
    proof {
        assert(string_views(parts@)[0] == parts@[0]@);
        assert(string_views(parts@)[1] == parts@[1]@);
        assert(split_on_dots(target@) =~= seq![schema@, object@]);
    }
    Ok(SchemaObject { schema, object })
}

/// Parses `schema.object.column`: the target must split into exactly three
/// parts at its dots.
pub fn parse_three_part(target: &str) -> (parsed: Result<SchemaObjectColumn, TargetError>)
    ensures
        (match parsed {
            Ok(o) => split_on_dots(target@) == seq![o.schema@, o.object@, o.column@],
            Err(e) => e matches TargetError::ExpectedSchemaObjectColumn { target: t } && t@
                == target@ && split_on_dots(target@).len() != 3,
        }),
{
    let parts = split_target(target);
    if parts.len() != 3 {
        return Err(TargetError::ExpectedSchemaObjectColumn { target: String::from_str(target) });
    }
    let schema = parts[0].clone();
    let object = parts[1].clone();
    let column = parts[2].clone();
    proof {
        assert(string_views(parts@)[0] == parts@[0]@);
        assert(string_views(parts@)[1] == parts@[1]@);
        assert(string_views(parts@)[2] == parts@[2]@);
        assert(split_on_dots(target@) =~= seq![schema@, object@, column@]);
    }
    Ok(SchemaObjectColumn { schema, object, column })
}

/// A target that parses as `schema.object` is exactly its two parts joined by
/// one dot, and neither part holds a dot.
pub proof fn lemma_two_part_target_roundtrip(target: Seq<char>, schema: Seq<char>, object: Seq<char>)
    requires
        split_on_dots(target) == seq![schema, object],
    ensures
        target == schema + seq!['.'] + object,
        has_no_dot(schema),
        has_no_dot(object),
{
    lemma_split_join(target);
    let parts = seq![schema, object];
    assert(parts[0] == schema && parts[1] == object);
    assert(parts.drop_last() =~= seq![schema]);
    assert(join_with_dots(seq![schema]) == schema);
}

/// A target that parses as `schema.object.column` is exactly its three parts
/// joined by dots, and no part holds a dot.
pub proof fn lemma_three_part_target_roundtrip(
    target: Seq<char>,
    schema: Seq<char>,
    object: Seq<char>,
    column: Seq<char>,
)
    requires
        split_on_dots(target) == seq![schema, object, column],
    ensures
        target == schema + seq!['.'] + object + seq!['.'] + column,
        has_no_dot(schema),
        has_no_dot(object),
        has_no_dot(column),
{
    lemma_split_join(target);
    let parts = seq![schema, object, column];
    assert(parts[0] == schema && parts[1] == object && parts[2] == column);
    assert(parts.drop_last() =~= seq![schema, object]);
    assert(seq![schema, object].drop_last() =~= seq![schema]);
    assert(join_with_dots(seq![schema]) == schema);
    assert(join_with_dots(seq![schema, object]) == schema + seq!['.'] + object);
    assert(join_with_dots(parts) == join_with_dots(seq![schema, object]) + seq!['.'] + column);
}

/// A change that the command plans or generates SQL for.
#[derive(Debug)]
pub enum Operation {
    /// Drop a column from a table.
    DropColumn { target: String },
    /// Replace a view definition.
    ReplaceView { target: String, definition: String },
    /// Alter a column type.
    AlterType { target: String, new_type: String },
    /// Rename a view column.
    RenameViewColumn { target: String, new_name: String },
}

/// How generated steps are written out.
#[derive(Debug)]
pub enum OutputFormat {
    Sql,
    Plain,
}

/// The object an operation is about.
pub open spec fn operation_target(operation: Operation) -> Seq<char> {
    match operation {
        Operation::DropColumn { target } => target@,
        Operation::ReplaceView { target, .. } => target@,
        Operation::AlterType { target, .. } => target@,
        Operation::RenameViewColumn { target, .. } => target@,
    }
}

fn target_of(operation: &Operation) -> (target: &str)
    ensures
        target@ == operation_target(*operation),
{
    match operation {
        Operation::DropColumn { target } => target.as_str(),
        Operation::ReplaceView { target, .. } => target.as_str(),
        Operation::AlterType { target, .. } => target.as_str(),
        Operation::RenameViewColumn { target, .. } => target.as_str(),
    }
}

/// The object whose dependents `plan` lists: the first two parts of the
/// operation's target, which must have at least two.
pub fn plan_target(operation: &Operation) -> (target: SchemaObject)
    requires
        split_on_dots(operation_target(*operation)).len() >= 2,
    ensures
        target.schema@ == split_on_dots(operation_target(*operation))[0],
        target.object@ == split_on_dots(operation_target(*operation))[1],
{
    let parts = split_target(target_of(operation));
    proof {
        assert(string_views(parts@)[0] == parts@[0]@);
        assert(string_views(parts@)[1] == parts@[1]@);
    }
    SchemaObject { schema: parts[0].clone(), object: parts[1].clone() }
}

/// A query to run, with its text parameters in order.
#[derive(Debug)]
pub struct QueryCall {
    pub sql: String,
    pub params: Vec<String>,
}

/// How many dot-separated parts the operation's target must have.
pub open spec fn expected_parts(operation: Operation) -> nat {
    match operation {
        Operation::ReplaceView { .. } => 2,
        _ => 3,
    }
}

/// The query that generates the steps of `operation`.
pub open spec fn generate_sql(operation: Operation) -> Seq<char> {
    match operation {
        Operation::DropColumn { .. } => "SELECT step, operation, sql FROM generate_drop_column($1, $2, $3)"@,
        Operation::ReplaceView { .. } => "SELECT step, operation, sql FROM generate_replace_view($1, $2, $3)"@,
        Operation::AlterType { .. } => "SELECT step, operation, sql FROM generate_alter_type($1, $2, $3, $4)"@,
        Operation::RenameViewColumn { .. } => "SELECT step, operation, sql FROM generate_rename_view_column($1, $2, $3, $4)"@,
    }
}

/// The parameters of that query: the parts of the target, then the new
/// definition, type or name where the operation has one.
pub open spec fn generate_params(operation: Operation, definition: Seq<char>) -> Seq<Seq<char>> {
    let parts = split_on_dots(operation_target(operation));
    match operation {
        Operation::DropColumn { .. } => parts,
        Operation::ReplaceView { .. } => parts.push(definition),
        Operation::AlterType { new_type, .. } => parts.push(new_type@),
        Operation::RenameViewColumn { new_name, .. } => parts.push(new_name@),
    }
}

fn strings_of_object(target: SchemaObject) -> (params: Vec<String>)
    ensures
        string_views(params@) == seq![target.schema@, target.object@],
{
    let mut params: Vec<String> = Vec::new();
    params.push(target.schema);
    params.push(target.object);
    assert(string_views(params@) =~= seq![target.schema@, target.object@]);
    params
}

fn strings_of_column(target: SchemaObjectColumn) -> (params: Vec<String>)
    ensures
        string_views(params@) == seq![target.schema@, target.object@, target.column@],
{
    let mut params: Vec<String> = Vec::new();
    params.push(target.schema);
    params.push(target.object);
    params.push(target.column);
    assert(string_views(params@) =~= seq![target.schema@, target.object@, target.column@]);
    params
}

fn push_param(params: &mut Vec<String>, value: &str)
    ensures
        string_views(final(params)@) == string_views(old(params)@).push(value@),
{
    params.push(String::from_str(value));
    assert(string_views(final(params)@) =~= string_views(old(params)@).push(value@));
}

/// The query that generates the steps of `operation`; `definition` is the new
/// view body, used by a view replacement only.
pub fn generate_query(operation: &Operation, definition: &str) -> (call: Result<
    QueryCall,
    TargetError,
>)
    ensures
        (match call {
            Ok(call) => split_on_dots(operation_target(*operation)).len() == expected_parts(
                *operation,
            ) && call.sql@ == generate_sql(*operation) && string_views(call.params@)
                == generate_params(*operation, definition@),
            Err(e) => split_on_dots(operation_target(*operation)).len() != expected_parts(
                *operation,
            ) && match e {
                TargetError::ExpectedSchemaObject { target } => expected_parts(*operation) == 2
                    && target@ == operation_target(*operation),
                TargetError::ExpectedSchemaObjectColumn { target } => expected_parts(*operation)
                    == 3 && target@ == operation_target(*operation),
            },
        }),
{
    match operation {
        Operation::DropColumn { target } => match parse_three_part(target.as_str()) {
            Ok(t) => Ok(
                QueryCall {
                    sql: String::from_str(
                        "SELECT step, operation, sql FROM generate_drop_column($1, $2, $3)",
                    ),
                    params: strings_of_column(t),
                },
            ),
            Err(e) => Err(e),
        },
        Operation::ReplaceView { target, .. } => match parse_two_part(target.as_str()) {
            Ok(t) => {
                let mut params = strings_of_object(t);
                push_param(&mut params, definition);
                Ok(
                    QueryCall {
                        sql: String::from_str(
                            "SELECT step, operation, sql FROM generate_replace_view($1, $2, $3)",
                        ),
                        params,
                    },
                )
            },
            Err(e) => Err(e),
        },
        Operation::AlterType { target, new_type } => match parse_three_part(target.as_str()) {
            Ok(t) => {
                let mut params = strings_of_column(t);
                push_param(&mut params, new_type.as_str());
                Ok(
                    QueryCall {
                        sql: String::from_str(
                            "SELECT step, operation, sql FROM generate_alter_type($1, $2, $3, $4)",
                        ),
                        params,
                    },
                )
            },
            Err(e) => Err(e),
        },
        Operation::RenameViewColumn { target, new_name } => match parse_three_part(
            target.as_str(),
        ) {
            Ok(t) => {
                let mut params = strings_of_column(t);
                push_param(&mut params, new_name.as_str());
                Ok(
                    QueryCall {
                        sql: String::from_str(
                            "SELECT step, operation, sql FROM generate_rename_view_column($1, $2, $3, $4)",
                        ),
                        params,
                    },
                )
            },
            Err(e) => Err(e),
        },
    }
}

/// Tells whether a definition source names standard input (`-`) rather than a file.
pub fn reads_stdin(source: &str) -> (stdin: bool)
    ensures
        stdin == (source@ == seq!['-']),
{
    if source.unicode_len() == 1 && source.get_char(0) == '-' {
        assert(source@ =~= seq!['-']);
        true
    } else {
        false
    }
}

/// One dependent found by the `plan` query.
#[derive(Debug)]
pub struct DependencyLevel {
    pub level: i32,
    pub dep_schema: String,
    pub dep_view: String,
}

/// The query that lists the dependents of `target`, by level.
pub fn plan_query(target: &SchemaObject) -> (call: QueryCall)
    ensures
        call.sql@ == "SELECT level, dep_schema, dep_view FROM pgvc_dependency_order($1, $2) WHERE level > 0"@,
        string_views(call.params@) == seq![target.schema@, target.object@],
{
    let params = strings_of_object(SchemaObject { schema: target.schema.clone(), object: target.object.clone() });
    QueryCall {
        sql: String::from_str(
            "SELECT level, dep_schema, dep_view FROM pgvc_dependency_order($1, $2) WHERE level > 0",
        ),
        params,
    }
}

/// One line of the report per dependent, in the order found.
pub open spec fn level_lines(deps: Seq<DependencyLevel>) -> Seq<char>
    decreases deps.len(),
{
    if deps.len() == 0 {
        Seq::empty()
    } else {
        level_lines(deps.drop_last()) + "  Level "@ + signed_decimal(deps.last().level as int)
            + ": "@ + deps.last().dep_schema@ + "."@ + deps.last().dep_view@ + "\n"@
    }
}

/// The report that `plan` prints for `schema.object` and its dependents.
pub open spec fn plan_report_text(
    schema: Seq<char>,
    object: Seq<char>,
    deps: Seq<DependencyLevel>,
) -> Seq<char> {
    "Dependencies of "@ + schema + "."@ + object + ":\n"@ + if deps.len() == 0 {
        "  (none)\n"@
    } else {
        level_lines(deps)
    } + "\n"@ + decimal(deps.len()) + " objects affected.\n"@
}

/// Writes the report of the dependents of `target`.
pub fn plan_report(target: &SchemaObject, deps: &Vec<DependencyLevel>) -> (report: String)
    ensures
        report@ == plan_report_text(target.schema@, target.object@, deps@),
{
    let mut report = String::from_str("Dependencies of ");
    report.append(target.schema.as_str());
    report.append(".");
    report.append(target.object.as_str());
    report.append(":\n");
    let ghost head = report@;
    let n = deps.len();
    if n == 0 {
        report.append("  (none)\n");
    } else {
        let mut i: usize = 0;
        assert(deps@.take(0) =~= Seq::<DependencyLevel>::empty());
        assert(report@ =~= head + level_lines(deps@.take(0)));
        while i < n
            invariant
                n == deps.len(),
                i <= n,
                report@ =~= head + level_lines(deps@.take(i as int)),
            decreases n - i,
        {
            let dep = &deps[i];
            assert(deps@.take(i + 1).drop_last() =~= deps@.take(i as int));
            assert(deps@.take(i + 1).last() == *dep);
            report.append("  Level ");
            let level = decimal_i32(dep.level);
            report.append(level.as_str());
            report.append(": ");
            report.append(dep.dep_schema.as_str());
            report.append(".");
            report.append(dep.dep_view.as_str());
            report.append("\n");
            i = i + 1;
        }
        assert(deps@.take(n as int) =~= deps@);
    }
    report.append("\n");
    let count = decimal_u64(n as u64);
    report.append(count.as_str());
    report.append(" objects affected.\n");
    report
}

/// Why the command cannot work with the database it reached.
#[derive(Debug)]
pub enum ConnectError {
    /// The `pg_viewctl` extension is not installed.
    ExtensionMissing,
}

impl ConnectError {
    /// The error text reported to the user.
    pub open spec fn message_text(&self) -> Seq<char> {
        "pg_viewctl extension is not installed in the database"@
    }

    /// The error text reported to the user.
    pub fn message(&self) -> (text: String)
        ensures
            text@ == self.message_text(),
    {
        String::from_str("pg_viewctl extension is not installed in the database")
    }
}

/// The statement that puts the extension's schema on the search path, given
/// the schema the extension was found in, or `None` where it is not installed.
pub fn search_path_statement(extension_schema: Option<String>) -> (statement: Result<
    String,
    ConnectError,
>)
    ensures
        (match statement {
            Ok(sql) => extension_schema matches Some(schema) && sql@ == "SET search_path TO "@
                + schema@ + ", public"@,
            Err(e) => extension_schema is None,
        }),
{
    match extension_schema {
        Some(schema) => {
            let mut sql = String::from_str("SET search_path TO ");
            sql.append(schema.as_str());
            sql.append(", public");
            Ok(sql)
        },
        None => Err(ConnectError::ExtensionMissing),
    }
}

/// The report has one line for every dependent, in the order found: adding a
/// dependent to the list adds exactly its own `  Level <level>: <schema>.<view>`
/// line after the lines of those before it, whatever its level.
pub proof fn lemma_report_lists_every_dependent(deps: Seq<DependencyLevel>, k: int)
    requires
        0 <= k < deps.len(),
    ensures
        level_lines(deps.take(k + 1)) == level_lines(deps.take(k)) + "  Level "@
            + signed_decimal(deps[k].level as int) + ": "@ + deps[k].dep_schema@ + "."@
            + deps[k].dep_view@ + "\n"@,
        level_lines(deps.take(deps.len() as int)) == level_lines(deps),
{
    assert(deps.take(k + 1).drop_last() =~= deps.take(k));
    assert(deps.take(k + 1).last() == deps[k]);
    assert(deps.take(deps.len() as int) =~= deps);
}

/// With dependents, the report is its heading, the lines of the dependents,
/// and the count of all of them.
pub proof fn lemma_report_with_dependents(
    schema: Seq<char>,
    object: Seq<char>,
    deps: Seq<DependencyLevel>,
)
    requires
        deps.len() > 0,
    ensures
        plan_report_text(schema, object, deps) == "Dependencies of "@ + schema + "."@ + object
            + ":\n"@ + level_lines(deps) + "\n"@ + decimal(deps.len()) + " objects affected.\n"@,
{
}

/// The query parameters of an operation are the parts of its target, in order,
/// followed unchanged by the new body, new type or new name it carries.
pub proof fn lemma_generate_params_pass_values_through(operation: Operation, definition: Seq<char>)
    ensures
        ({
            let parts = split_on_dots(operation_target(operation));
            let params = generate_params(operation, definition);
            &&& params.take(parts.len() as int) == parts
            &&& match operation {
                Operation::DropColumn { .. } => params.len() == parts.len(),
                Operation::ReplaceView { .. } => params.len() == parts.len() + 1 && params.last()
                    == definition,
                Operation::AlterType { new_type, .. } => params.len() == parts.len() + 1
                    && params.last() == new_type@,
                Operation::RenameViewColumn { new_name, .. } => params.len() == parts.len() + 1
                    && params.last() == new_name@,
            }
        }),
{
    let parts = split_on_dots(operation_target(operation));
    let params = generate_params(operation, definition);
    match operation {
        Operation::DropColumn { .. } => {
            assert(params.take(parts.len() as int) =~= parts);
        },
        _ => {
            assert(params.take(parts.len() as int) =~= parts);
        },
    }
}

/// A query the command sends for an operation carries its target's parts and
/// then the given new body, type or name, unchanged: four parameters for a
/// type change or a column rename, three for a column drop or a view
/// replacement.
pub proof fn lemma_generate_query_params(
    operation: Operation,
    definition: Seq<char>,
)
    requires
        split_on_dots(operation_target(operation)).len() == expected_parts(operation),
    ensures
        ({
            let params = generate_params(operation, definition);
            match operation {
                Operation::DropColumn { .. } => params.len() == 3,
                Operation::ReplaceView { .. } => params.len() == 3 && params[2] == definition,
                Operation::AlterType { new_type, .. } => params.len() == 4 && params[3] == new_type@,
                Operation::RenameViewColumn { new_name, .. } => params.len() == 4 && params[3]
                    == new_name@,
            }
        }),
{
    lemma_generate_params_pass_values_through(operation, definition);
}

} // verus!
