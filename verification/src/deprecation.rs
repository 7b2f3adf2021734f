//! Column deprecation: the warning shown for a deprecated view column and the
//! answers given when a column is deprecated or undeprecated.

use vstd::prelude::*;

verus! {

/// `schema.view.column`, as the messages name a column.
pub open spec fn column_path(schema: Seq<char>, view: Seq<char>, column: Seq<char>) -> Seq<char> {
    schema + "."@ + view + "."@ + column
}

fn column_path_text(schema_name: &str, view_name: &str, column_name: &str) -> (path: String)
    ensures
        path@ == column_path(schema_name@, view_name@, column_name@),
{
    let mut path = String::from_str(schema_name);
    path.append(".");
    path.append(view_name);
    path.append(".");
    path.append(column_name);
    path
}

/// The warning for a column deprecated with the given message and removal date.
pub open spec fn warning_text(
    schema: Seq<char>,
    view: Seq<char>,
    column: Seq<char>,
    message: Option<Seq<char>>,
    removal_date: Option<Seq<char>>,
) -> Seq<char> {
    "WARNING: column "@ + column_path(schema, view, column) + " is deprecated"@ + match message {
        Some(m) => " — "@ + m,
        None => Seq::empty(),
    } + match removal_date {
        Some(r) => " (removal: "@ + r + ")"@,
        None => Seq::empty(),
    }
}

pub open spec fn option_view(o: Option<String>) -> Option<Seq<char>> {
    match o {
        Some(s) => Some(s@),
        None => None,
    }
}

/// The warning for `schema_name.view_name.column_name`, given the deprecation
/// message and removal date recorded for it: none when neither is recorded.
pub fn deprecation_warning(
    schema_name: &str,
    view_name: &str,
    column_name: &str,
    message: Option<String>,
    removal_date: Option<String>,
) -> (warning: Option<String>)
    ensures
        (match warning {
            Some(w) => (message is Some || removal_date is Some) && w@ == warning_text(
                schema_name@,
                view_name@,
                column_name@,
                option_view(message),
                option_view(removal_date),
            ),
            None => message is None && removal_date is None,
        }),
{
    if message.is_none() && removal_date.is_none() {
        return None;
    }
    let mut text = String::from_str("WARNING: column ");
    let path = column_path_text(schema_name, view_name, column_name);
    text.append(path.as_str());
    text.append(" is deprecated");
    let ghost head = text@;
    match &message {
        Some(m) => {
            text.append(" — ");
            text.append(m.as_str());
        },
        None => {
            assert(text@ =~= head + Seq::<char>::empty());
        },
    }
    let ghost middle = text@;
    match &removal_date {
        Some(r) => {
            text.append(" (removal: ");
            text.append(r.as_str());
            text.append(")");
        },
        None => {
            assert(text@ =~= middle + Seq::<char>::empty());
        },
    }
    Some(text)
}

/// Why a column cannot be deprecated.
#[derive(Debug)]
pub enum DeprecationError {
    /// No view or materialized view has the column.
    ColumnNotFound { schema: String, view: String, column: String },
}

impl DeprecationError {
    /// The error text reported to the user.
    pub open spec fn message_text(&self) -> Seq<char> {
        match self {
            DeprecationError::ColumnNotFound { schema, view, column } => "column "@ + column_path(
                schema@,
                view@,
                column@,
            ) + " does not exist on any view or materialized view"@,
        }
    }

    /// The error text reported to the user.
    pub fn message(&self) -> (text: String)
        ensures
            text@ == self.message_text(),
    {
        match self {
            DeprecationError::ColumnNotFound { schema, view, column } => {
                let mut text = String::from_str("column ");
                let path = column_path_text(schema.as_str(), view.as_str(), column.as_str());
                text.append(path.as_str());
                text.append(" does not exist on any view or materialized view");
                text
            },
        }
    }
}

/// The answer to deprecating `schema_name.view_name.column_name`;
/// `column_exists` tells whether some view or materialized view has it.
pub fn deprecation_outcome(
    schema_name: &str,
    view_name: &str,
    column_name: &str,
    column_exists: bool,
) -> (outcome: Result<String, DeprecationError>)
    ensures
        (match outcome {
            Ok(text) => column_exists && text@ == "column "@ + column_path(
                schema_name@,
                view_name@,
                column_name@,
            ) + " deprecated"@,
            Err(e) => e matches DeprecationError::ColumnNotFound { schema, view, column } && schema@
                == schema_name@ && view@ == view_name@ && column@ == column_name@ && !column_exists,
        }),
{
    if !column_exists {
        return Err(
            DeprecationError::ColumnNotFound {
                schema: String::from_str(schema_name),
                view: String::from_str(view_name),
                column: String::from_str(column_name),
            },
        );
    }
    let mut text = String::from_str("column ");
    let path = column_path_text(schema_name, view_name, column_name);
    text.append(path.as_str());
    text.append(" deprecated");
    Ok(text)
}

/// The answer to undeprecating `schema_name.view_name.column_name`;
/// `was_deprecated` tells whether a deprecation record was removed.
pub fn undeprecation_message(
    schema_name: &str,
    view_name: &str,
    column_name: &str,
    was_deprecated: bool,
) -> (text: String)
    ensures
        text@ == "column "@ + column_path(schema_name@, view_name@, column_name@) + if was_deprecated {
            " undeprecated"@
        } else {
            " was not marked as deprecated"@
        },
{
    let mut text = String::from_str("column ");
    let path = column_path_text(schema_name, view_name, column_name);
    text.append(path.as_str());
    if was_deprecated {
        text.append(" undeprecated");
    } else {
        text.append(" was not marked as deprecated");
    }
    text
}

} // verus!
