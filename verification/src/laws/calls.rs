//! How calls work together: what is opened can be used until it is closed, and failures hide what
//! they must.

use crate::connections::{copy_of, ConnectionView};
use crate::driver::{
    describe_members, health_members, looked_up, metadata_leads_to, query_leads_to,
    PackageView, PurposeView, RequestView, TaskView, TurnView,
};
use crate::json::JsonView;
use crate::laws::redaction::{apart, law_redacted_hides_uri, law_redacted_hides_values};
use crate::reply::{poisoned_reply, ReplyView};
use crate::text::occurs_in;
use crate::walk::{walk_start, AnswerView, WalkStepView};
use vstd::prelude::*;

verus! {

/// The table of connections: what stands under each identifier.
pub type Table<G> = Map<Seq<char>, ConnectionView<G>>;

/// A connection that was opened is found under its identifier, in the place of one that stood
/// there before, and the connections under other identifiers stay what they were.
pub proof fn law_connect_opens<G>(task: TaskView<G>, table: Table<G>, other: Seq<char>)
    requires
        task.purpose is Version,
    ensures
        looked_up(task.connections_after(table, false), task.connection_id, false)
            == Ok::<ConnectionView<G>, ReplyView>(task.connection),
        other != task.connection_id ==> looked_up(
            task.connections_after(table, false),
            other,
            false,
        ) == looked_up(table, other, false),
{
}

/// Only the end of a call that opens a connection changes the table of connections.
pub proof fn law_other_answers_keep_the_table<G>(task: TaskView<G>, table: Table<G>, poisoned: bool)
    requires
        !(task.purpose is Version) || poisoned,
    ensures
        task.connections_after(table, poisoned) == table,
{
}

/// A connection that was closed is not found any more, and the connections under other
/// identifiers stay what they were. Closing it once more finds nothing to close.
pub proof fn law_close_closes<G>(table: Table<G>, connection_id: Seq<char>, other: Seq<char>)
    ensures
        looked_up(table.remove(connection_id), connection_id, false) == Err::<
            ConnectionView<G>,
            ReplyView,
        >(
            ReplyView::Error {
                code: "connector.connectionNotFound"@,
                message: "no open connection: "@ + connection_id,
            },
        ),
        other != connection_id ==> looked_up(table.remove(connection_id), other, false)
            == looked_up(table, other, false),
        !table.remove(connection_id).contains_key(connection_id),
        table.remove(connection_id).remove(connection_id) == table.remove(connection_id),
{
    assert(table.remove(connection_id).remove(connection_id) =~= table.remove(connection_id));
}

/// A query with a statement on a connection that was opened runs that statement on a copy of the
/// connection.
pub proof fn law_opened_connection_can_be_queried<G: Clone>(
    task: TaskView<G>,
    table: Table<G>,
    request: RequestView,
    turn: TurnView<G>,
)
    requires
        task.purpose is Version,
        request.connection_id == task.connection_id,
        request.wanted_text() is Some,
        query_leads_to(request, task.connections_after(table, false), false, turn),
    ensures
        turn is Run,
        turn->task.connection_id == task.connection_id,
        copy_of(task.connection, turn->task.connection),
        turn->task.purpose is Query,
        turn->statement.text == request.wanted_text()->0,
        turn->statement.cap == request.max_rows,
{
}

/// A call for the schema of a connection that was opened starts a walk through its database on a
/// copy of the connection.
pub proof fn law_opened_connection_can_be_described<G: Clone>(
    task: TaskView<G>,
    table: Table<G>,
    turn: TurnView<G>,
)
    requires
        task.purpose is Version,
        metadata_leads_to(
            task.connection_id,
            task.connections_after(table, false),
            false,
            turn,
        ),
    ensures
        turn is Run,
        turn->task.connection_id == task.connection_id,
        copy_of(task.connection, turn->task.connection),
        turn->task.purpose is Metadata,
        walk_start(task.connection.config.database) == WalkStepView::Ask(
            turn->task.purpose->Metadata_0,
            turn->statement,
        ),
{
}

/// Once the table of connections cannot be trusted, every call that needs it is answered so:
/// queries with a statement, calls for the schema, and the end of a call that opens a connection.
pub proof fn law_poisoned_table_is_reported<G: Clone>(
    request: RequestView,
    table: Table<G>,
    turn: TurnView<G>,
    task: TaskView<G>,
    answer: AnswerView,
)
    ensures
        request.wanted_text() is Some && query_leads_to(request, table, true, turn) ==> turn
            == TurnView::<G>::Reply(poisoned_reply()),
        metadata_leads_to(request.connection_id, table, true, turn) ==> turn == TurnView::<
            G,
        >::Reply(poisoned_reply()),
        task.purpose is Version ==> task.next(answer, true) == TurnView::<G>::Reply(
            poisoned_reply(),
        ),
        task.connections_after(table, true) == table,
{
}

/// The error with which a query or a call for the schema fails shows none of the values that the
/// settings of its connection hide, unless they can overlap the mask.
pub proof fn law_failures_hide_values<G>(
    task: TaskView<G>,
    answer: AnswerView,
    poisoned: bool,
    value: Seq<char>,
)
    requires
        !(task.purpose is Version),
        task.connection.config.redaction_values.contains(value),
        apart(value, "****"@),
    ensures
        task.next(answer, poisoned) matches TurnView::Reply(ReplyView::Error { code, message })
            ==> !occurs_in(message, value),
{
    let config = task.connection.config;
    match task.purpose {
        PurposeView::Query => {
            if let Err(message) = answer {
                law_redacted_hides_values(config, message, value);
            }
        },
        PurposeView::Metadata(walk) => {
            if let WalkStepView::Failed(message) = walk.resumed(answer) {
                law_redacted_hides_values(config, message, value);
            }
        },
        PurposeView::Version => {},
    }
}

/// The error with which a query or a call for the schema fails does not show the URI of its
/// connection, unless that can overlap the texts that are put in.
pub proof fn law_failures_hide_uri<G>(task: TaskView<G>, answer: AnswerView, poisoned: bool)
    requires
        !(task.purpose is Version),
        apart(task.connection.config.uri, "<graph-uri>"@),
        task.connection.config.redaction_values.len() == 0 || apart(
            task.connection.config.uri,
            "****"@,
        ),
    ensures
        task.next(answer, poisoned) matches TurnView::Reply(ReplyView::Error { code, message })
            ==> !occurs_in(message, task.connection.config.uri),
{
    let config = task.connection.config;
    match task.purpose {
        PurposeView::Query => {
            if let Err(message) = answer {
                law_redacted_hides_uri(config, message);
            }
        },
        PurposeView::Metadata(walk) => {
            if let WalkStepView::Failed(message) = walk.resumed(answer) {
                law_redacted_hides_uri(config, message);
            }
        },
        PurposeView::Version => {},
    }
}

/// A connection is opened whether or not the server tells its version.
pub proof fn law_version_cannot_fail_connect<G>(task: TaskView<G>, answer: AnswerView)
    requires
        task.purpose is Version,
    ensures
        task.next(answer, false) is Reply,
        task.next(answer, false)->Reply_0 is Success,
{
}

/// A call for a description is answered with all that a call for the health is, and the two
/// documents of the package.
pub proof fn law_description_tells_health(
    package: PackageView,
    manifest: JsonView,
    config: JsonView,
)
    ensures
        health_members(package).submap_of(describe_members(package, manifest, config)),
        describe_members(package, manifest, config).contains_pair("manifest"@, manifest),
        describe_members(package, manifest, config).contains_pair("config"@, config),
{
    reveal_strlit("engine");
    reveal_strlit("abiVersion");
    reveal_strlit("driverLinked");
    reveal_strlit("manifest");
    reveal_strlit("config");
    assert("engine"@.len() == 6);
    assert("abiVersion"@.len() == 10);
    assert("driverLinked"@.len() == 12);
    assert("manifest"@.len() == 8);
    assert("config"@.len() == 6);
    assert("engine"@[0] == 'e');
    assert("config"@[0] == 'c');
    assert(health_members(package).submap_of(describe_members(package, manifest, config)));
}

} // verus!
