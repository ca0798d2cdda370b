//! The version of the server, as a connection reports it.

use crate::json::views;
use crate::metadata::{column_index, string_at, string_in, Statement, StatementView};
use crate::rows::{OutputView, QueryOutput};
use crate::text::same;
use crate::walk::{answer_view, AnswerView};
use vstd::prelude::*;
use vstd::string::*;

verus! {

/// The statement that asks an engine for its version.
pub open spec fn version_wanted(engine: Seq<char>) -> StatementView {
    StatementView {
        text: if engine == "memgraph"@ {
            "SHOW VERSION INFO"@
        } else {
            "CALL dbms.components() YIELD name, versions, edition RETURN versions[0] AS version, edition LIMIT 1"@
        },
        cap: 1,
    }
}

/// The string under a column of the first row, or `unknown`.
pub open spec fn first_string(output: OutputView, column: Seq<char>) -> Seq<char> {
    match output.columns.index_of_first(column) {
        Some(at) => if output.rows.len() > 0 && string_at(output.rows[0], at) is Some {
            string_at(output.rows[0], at)->0
        } else {
            "unknown"@
        },
        None => "unknown"@,
    }
}

/// The version that an engine's answer gives.
pub open spec fn version_told(engine: Seq<char>, output: OutputView) -> Seq<char> {
    if engine == "memgraph"@ {
        "Memgraph"@
    } else {
        "Neo4j "@ + first_string(output, "version"@) + " ("@ + first_string(output, "edition"@)
            + ")"@
    }
}

/// The version that a new connection reports: the one that the answer gives, or the engine itself
/// when there is no answer.
pub open spec fn version_reported(engine: Seq<char>, answer: AnswerView) -> Seq<char> {
    match answer {
        Ok(output) => version_told(engine, output),
        Err(_) => engine,
    }
}

/// The statement that asks an engine for its version.
pub fn version_statement(engine: &str) -> (r: Statement)
    ensures
        r@ == version_wanted(engine@),
{
    let text = if same(engine, "memgraph") {
        "SHOW VERSION INFO"
    } else {
        "CALL dbms.components() YIELD name, versions, edition RETURN versions[0] AS version, edition LIMIT 1"
    };
    Statement { text: text.to_owned(), cap: 1 }
}

/// The string under a column of the first row, or `unknown`.
fn first_under(output: &QueryOutput, column: &str) -> (r: String)
    ensures
        r@ == first_string(output@, column@),
{
    if let Some(at) = column_index(output.columns.as_slice(), column) {
        if output.rows.len() > 0 {
            assert(output@.rows[0] == views(output.rows@[0]@));
            if let Some(text) = string_in(&output.rows[0], at) {
                return text.to_owned();
            }
        }
    }
    "unknown".to_owned()
}

/// The version that an engine's answer to the statement that asks for it gives; an error is handed
/// on.
pub fn load_version(engine: &str, answer: Result<QueryOutput, String>) -> (r: Result<
    String,
    String,
>)
    ensures
        match answer_view(answer) {
            Ok(output) => r is Ok && r->Ok_0@ == version_told(engine@, output),
            Err(message) => r is Err && r->Err_0@ == message,
        },
{
    match answer {
        Ok(output) => if same(engine, "memgraph") {
            Ok("Memgraph".to_owned())
        } else {
            let version = first_under(&output, "version");
            let edition = first_under(&output, "edition");
            Ok(
                "Neo4j ".to_owned().concat(version.as_str()).concat(" (").concat(
                    edition.as_str(),
                ).concat(")"),
            )
        },
        Err(message) => Err(message),
    }
}

} // verus!
