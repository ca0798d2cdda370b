//! What each call is answered with, member by member, in terms of the request, the package, the
//! open connections and what the server sent.

use crate::bolt::{driver_config, query_parameters, query_text};
use crate::config::{requested_config, GraphConfig};
use crate::connections::{copy_of, ConnectionView};
use crate::driver::{
    call_leads_to, opened_leads_to, told, Package, Purpose, PurposeView, Request, Task, Turn,
    TurnView,
};
use crate::fault::Fault;
use crate::json::{views, Json, JsonView};
use crate::laws::calls::Table;
use crate::metadata::Statement;
use crate::parse::read_text;
use crate::reply::{Reply, ReplyView};
use crate::rows::{QueryOutput, ReadStep, ReadStepView};
use crate::walk::{WalkStep, WalkStepView};
use vstd::prelude::*;

verus! {

/// The keys of answers differ from each other.
proof fn lemma_answer_keys_differ()
    ensures
        "engine"@.len() == 6,
        "abiVersion"@.len() == 10,
        "driverLinked"@.len() == 12,
        "manifest"@.len() == 8,
        "config"@.len() == 6,
        "connectionId"@.len() == 12,
        "database"@.len() == 8,
        "serverVersion"@.len() == 13,
        "columns"@.len() == 7,
        "rows"@.len() == 4,
        "truncated"@.len() == 9,
        "metadata"@.len() == 8,
        "closed"@.len() == 6,
        "engine"@ != "config"@,
        "connectionId"@ != "driverLinked"@,
{
    reveal_strlit("engine");
    reveal_strlit("abiVersion");
    reveal_strlit("driverLinked");
    reveal_strlit("manifest");
    reveal_strlit("config");
    reveal_strlit("connectionId");
    reveal_strlit("database");
    reveal_strlit("serverVersion");
    reveal_strlit("columns");
    reveal_strlit("rows");
    reveal_strlit("truncated");
    reveal_strlit("metadata");
    reveal_strlit("closed");
    assert("engine"@[0] != "config"@[0]);
    assert("connectionId"@[0] != "driverLinked"@[0]);
}

/// The methods differ from each other.
proof fn lemma_methods_differ()
    ensures
        "health"@.len() == 6,
        "ping"@.len() == 4,
        "describe"@.len() == 8,
        "capabilities"@.len() == 12,
        "manifest"@.len() == 8,
        "config"@.len() == 6,
        "connect"@.len() == 7,
        "query"@.len() == 5,
        "metadata"@.len() == 8,
        "close"@.len() == 5,
        "health"@ != "config"@,
        "describe"@ != "manifest"@,
        "describe"@ != "metadata"@,
        "manifest"@ != "metadata"@,
        "query"@ != "close"@,
{
    reveal_strlit("health");
    reveal_strlit("ping");
    reveal_strlit("describe");
    reveal_strlit("capabilities");
    reveal_strlit("manifest");
    reveal_strlit("config");
    reveal_strlit("connect");
    reveal_strlit("query");
    reveal_strlit("metadata");
    reveal_strlit("close");
    assert("health"@[0] != "config"@[0]);
    assert("describe"@[0] != "manifest"@[0]);
    assert("describe"@[0] != "metadata"@[0]);
    assert("manifest"@[1] != "metadata"@[1]);
    assert("query"@[0] != "close"@[0]);
}

/// `health` and `ping` tell the engine, the version of the calling convention that the package
/// gives, and that the driver is there, and nothing else; the connections stay.
pub proof fn law_health_tells_the_status<G: Clone>(
    request: Request,
    package: Package,
    before: Table<G>,
    poisoned: bool,
    turn: TurnView<G>,
    after: Table<G>,
) -> (members: Map<Seq<char>, JsonView>)
    requires
        request.method@ == "health"@ || request.method@ == "ping"@,
        call_leads_to(request@, package@, before, poisoned, turn, after),
    ensures
        turn == TurnView::<G>::Reply(ReplyView::Success(members)),
        members.dom() == set!["engine"@, "abiVersion"@, "driverLinked"@],
        members["engine"@] == JsonView::String("memgraph"@),
        members["abiVersion"@] == package.abi_version@,
        members["driverLinked"@] == JsonView::Bool(true),
        after == before,
{
    lemma_methods_differ();
    lemma_answer_keys_differ();
    let members = turn->Reply_0->Success_0;
    assert(members.dom() =~= set!["engine"@, "abiVersion"@, "driverLinked"@]);
    members
}

/// `describe` and `capabilities` tell the status too, and give the values that the texts of the
/// manifest and of the configuration read as; a text that is not JSON gives null.
pub proof fn law_describe_gives_the_documents<G: Clone>(
    request: Request,
    package: Package,
    before: Table<G>,
    poisoned: bool,
    turn: TurnView<G>,
    after: Table<G>,
) -> (members: Map<Seq<char>, JsonView>)
    requires
        request.method@ == "describe"@ || request.method@ == "capabilities"@,
        call_leads_to(request@, package@, before, poisoned, turn, after),
    ensures
        turn == TurnView::<G>::Reply(ReplyView::Success(members)),
        members.dom() == set!["engine"@, "abiVersion"@, "driverLinked"@, "manifest"@, "config"@],
        members["engine"@] == JsonView::String("memgraph"@),
        members["abiVersion"@] == package.abi_version@,
        members["driverLinked"@] == JsonView::Bool(true),
        read_text(package.manifest_json@) matches Some(json) ==> members["manifest"@] == json,
        read_text(package.manifest_json@) is None ==> members["manifest"@] == JsonView::Null,
        read_text(package.config_json@) matches Some(json) ==> members["config"@] == json,
        read_text(package.config_json@) is None ==> members["config"@] == JsonView::Null,
        after == before,
{
    lemma_methods_differ();
    lemma_answer_keys_differ();
    let members = turn->Reply_0->Success_0;
    assert(members.dom() =~= set![
        "engine"@,
        "abiVersion"@,
        "driverLinked"@,
        "manifest"@,
        "config"@,
    ]);
    members
}

/// `manifest` and `config` are answered with the text of the document, character for character.
pub proof fn law_documents_are_handed_out_raw<G: Clone>(
    request: Request,
    package: Package,
    before: Table<G>,
    poisoned: bool,
    turn: TurnView<G>,
    after: Table<G>,
)
    requires
        call_leads_to(request@, package@, before, poisoned, turn, after),
    ensures
        request.method@ == "manifest"@ ==> turn == TurnView::<G>::Reply(
            ReplyView::Raw(package.manifest_json@),
        ) && after == before,
        request.method@ == "config"@ ==> turn == TurnView::<G>::Reply(
            ReplyView::Raw(package.config_json@),
        ) && after == before,
{
    lemma_methods_differ();
}

/// Every other method is refused by its name.
pub proof fn law_other_methods_are_unknown<G: Clone>(
    request: Request,
    package: Package,
    before: Table<G>,
    poisoned: bool,
    turn: TurnView<G>,
    after: Table<G>,
)
    requires
        !seq![
            "health"@,
            "ping"@,
            "describe"@,
            "capabilities"@,
            "manifest"@,
            "config"@,
            "connect"@,
            "query"@,
            "metadata"@,
            "close"@,
        ].contains(request.method@),
        call_leads_to(request@, package@, before, poisoned, turn, after),
    ensures
        turn == TurnView::<G>::Reply(
            ReplyView::Error {
                code: "connector.unknownMethod"@,
                message: "unknown connector method: "@ + request.method@,
            },
        ),
        after == before,
{
    let known = seq![
        "health"@,
        "ping"@,
        "describe"@,
        "capabilities"@,
        "manifest"@,
        "config"@,
        "connect"@,
        "query"@,
        "metadata"@,
        "close"@,
    ];
    assert forall|i: int| 0 <= i < known.len() implies known[i] != request.method@ by {
        assert(known.contains(known[i]));
    }
    assert(known[0] != request.method@);
    assert(known[1] != request.method@);
    assert(known[2] != request.method@);
    assert(known[3] != request.method@);
    assert(known[4] != request.method@);
    assert(known[5] != request.method@);
    assert(known[6] != request.method@);
    assert(known[7] != request.method@);
    assert(known[8] != request.method@);
    assert(known[9] != request.method@);
}

/// `connect` has a connection opened under the identifier of the request, with the settings that
/// the request asks for, and keeps the connections until it is open.
pub proof fn law_connect_opens_as_requested<G: Clone>(
    request: Request,
    body: Json,
    package: Package,
    before: Table<G>,
    poisoned: bool,
    turn: TurnView<G>,
    after: Table<G>,
)
    requires
        request.method@ == "connect"@,
        request.body == Some(body),
        call_leads_to(request@, package@, before, poisoned, turn, after),
    ensures
        turn is Open,
        turn->Open_connection_id == request.connection_id@,
        turn->Open_config == requested_config("memgraph"@, body@),
        after == before,
{
    lemma_methods_differ();
}

/// A connection that could be opened is asked for its version next; one that could not is answered
/// with the message of the fault.
pub proof fn law_opening_goes_on_with_the_version<G>(
    connection_id: String,
    config: GraphConfig,
    outcome: Result<G, Fault>,
)
    ensures
        outcome matches Ok(graph) ==> {
            let turn = opened_leads_to(connection_id@, config@, outcome);
            &&& turn is Run
            &&& turn->task.connection_id == connection_id@
            &&& turn->task.connection.graph == graph
            &&& turn->task.connection.config.uri == config.uri@
            &&& turn->task.connection.config.username == config.username@
            &&& turn->task.connection.config.password == config.password@
            &&& turn->task.connection.config.database == config.database@
            &&& turn->task.connection.config.redaction_values.len()
                == config.redaction_values@.len()
            &&& forall|i: int|
                0 <= i < config.redaction_values@.len()
                    ==> #[trigger] turn->task.connection.config.redaction_values[i]
                    == config.redaction_values@[i]@
            &&& turn->task.purpose is Version
            &&& turn->statement.text == "SHOW VERSION INFO"@
            &&& turn->statement.cap == 1
        },
        outcome matches Err(fault) ==> opened_leads_to(connection_id@, config@, outcome)
            == TurnView::<G>::Reply(
            ReplyView::Error {
                code: "connector.connectFailed"@,
                message: fault.prefix() + fault.detail(),
            },
        ),
{
}

/// A new connection is reported with its identifier, its database and the version, which is
/// `Memgraph` for every answer and `memgraph` without one; then it is among the open connections,
/// and nothing else has changed.
pub proof fn law_connect_reports_the_connection<G>(
    task: Task<G>,
    answer: Result<QueryOutput, Fault>,
    before: Table<G>,
) -> (members: Map<Seq<char>, JsonView>)
    requires
        task.purpose is Version,
    ensures
        task@.next(told(answer), false) == TurnView::<G>::Reply(ReplyView::Success(members)),
        members.dom() == set![
            "engine"@,
            "connectionId"@,
            "driverLinked"@,
            "database"@,
            "serverVersion"@,
        ],
        members["engine"@] == JsonView::String("memgraph"@),
        members["connectionId"@] == JsonView::String(task.connection_id@),
        members["driverLinked"@] == JsonView::Bool(true),
        members["database"@] == JsonView::String(task.connection.config.database@),
        answer is Ok ==> members["serverVersion"@] == JsonView::String("Memgraph"@),
        answer is Err ==> members["serverVersion"@] == JsonView::String("memgraph"@),
        task@.connections_after(before, false) == before.insert(
            task.connection_id@,
            ConnectionView { graph: task.connection.graph, config: task.connection.config@ },
        ),
{
    lemma_answer_keys_differ();
    let members = task@.next(told(answer), false)->Reply_0->Success_0;
    assert(members.dom() =~= set![
        "engine"@,
        "connectionId"@,
        "driverLinked"@,
        "database"@,
        "serverVersion"@,
    ]);
    members
}

/// A query on an open connection runs exactly the text that the request gives, character for
/// character: `cypher` if it is given, else `sql`, else `query`, else `statement`. It runs it on a
/// copy of the connection under the request's identifier and wants as many rows as the request.
pub proof fn law_query_runs_the_given_text<G: Clone>(
    request: Request,
    package: Package,
    before: Table<G>,
    turn: TurnView<G>,
    after: Table<G>,
)
    requires
        request.method@ == "query"@,
        request.cypher is Some || request.sql is Some || request.query is Some
            || request.statement is Some,
        before.contains_key(request.connection_id@),
        call_leads_to(request@, package@, before, false, turn, after),
    ensures
        turn is Run,
        request.cypher is Some ==> turn->statement.text == request.cypher->0@,
        request.cypher is None && request.sql is Some ==> turn->statement.text == request.sql->0@,
        request.cypher is None && request.sql is None && request.query is Some
            ==> turn->statement.text == request.query->0@,
        request.cypher is None && request.sql is None && request.query is None
            ==> turn->statement.text == request.statement->0@,
        turn->statement.cap == request.max_rows,
        turn->task.connection_id == request.connection_id@,
        turn->task.purpose is Query,
        turn->task.connection.config == before[request.connection_id@].config,
        cloned(before[request.connection_id@].graph, turn->task.connection.graph),
        after == before,
{
    lemma_methods_differ();
}

/// A query without a statement is refused, whatever connections are open.
pub proof fn law_query_needs_a_statement<G: Clone>(
    request: Request,
    package: Package,
    before: Table<G>,
    poisoned: bool,
    turn: TurnView<G>,
    after: Table<G>,
)
    requires
        request.method@ == "query"@,
        request.cypher is None,
        request.sql is None,
        request.query is None,
        request.statement is None,
        call_leads_to(request@, package@, before, poisoned, turn, after),
    ensures
        turn == TurnView::<G>::Reply(
            ReplyView::Error {
                code: "connector.invalidRequest"@,
                message: "query requires a string cypher, sql, query, or statement field."@,
            },
        ),
        after == before,
{
    lemma_methods_differ();
}

/// A query with a statement and a call for the schema are refused where no connection is open
/// under the identifier, and where the table of connections cannot be trusted.
pub proof fn law_calls_need_an_open_connection<G: Clone>(
    request: Request,
    package: Package,
    before: Table<G>,
    poisoned: bool,
    turn: TurnView<G>,
    after: Table<G>,
)
    requires
        request.method@ == "metadata"@ || request.method@ == "query"@ && (request.cypher is Some
            || request.sql is Some || request.query is Some || request.statement is Some),
        poisoned || !before.contains_key(request.connection_id@),
        call_leads_to(request@, package@, before, poisoned, turn, after),
    ensures
        poisoned ==> turn == TurnView::<G>::Reply(
            ReplyView::Error {
                code: "connector.statePoisoned"@,
                message: "Connector connection state is poisoned."@,
            },
        ),
        !poisoned ==> turn == TurnView::<G>::Reply(
            ReplyView::Error {
                code: "connector.connectionNotFound"@,
                message: "no open connection: "@ + request.connection_id@,
            },
        ),
        after == before,
{
    lemma_methods_differ();
}

/// A call for the schema of an open connection asks for the node labels first, on a copy of that
/// connection, for the database of its settings.
pub proof fn law_metadata_starts_with_the_labels<G: Clone>(
    request: Request,
    package: Package,
    before: Table<G>,
    turn: TurnView<G>,
    after: Table<G>,
)
    requires
        request.method@ == "metadata"@,
        before.contains_key(request.connection_id@),
        call_leads_to(request@, package@, before, false, turn, after),
    ensures
        turn is Run,
        turn->statement.text == "CALL db.labels() YIELD label RETURN label"@,
        turn->statement.cap == 1000,
        turn->task.connection_id == request.connection_id@,
        turn->task.connection.config == before[request.connection_id@].config,
        cloned(before[request.connection_id@].graph, turn->task.connection.graph),
        turn->task.purpose is Metadata,
        turn->task.purpose->Metadata_0.database == before[request.connection_id@].config.database,
        turn->task.purpose->Metadata_0.stage is Labels,
        turn->task.purpose->Metadata_0.pending.len() == 0,
        turn->task.purpose->Metadata_0.objects.len() == 0,
        after == before,
{
    lemma_methods_differ();
}

/// `close` tells whether a connection was open under the identifier, and takes away that
/// connection and no other. Where the table cannot be trusted it says so and takes away none.
pub proof fn law_close_tells_what_was_open<G: Clone>(
    request: Request,
    package: Package,
    before: Table<G>,
    poisoned: bool,
    turn: TurnView<G>,
    after: Table<G>,
)
    requires
        request.method@ == "close"@,
        call_leads_to(request@, package@, before, poisoned, turn, after),
    ensures
        poisoned ==> after == before && turn == TurnView::<G>::Reply(
            ReplyView::Error {
                code: "connector.statePoisoned"@,
                message: "Connector connection state is poisoned."@,
            },
        ),
        !poisoned ==> {
            &&& turn is Reply
            &&& turn->Reply_0 is Success
            &&& turn->Reply_0->Success_0.dom() == set!["connectionId"@, "closed"@]
            &&& turn->Reply_0->Success_0["connectionId"@] == JsonView::String(
                request.connection_id@,
            )
            &&& turn->Reply_0->Success_0["closed"@] == JsonView::Bool(
                before.contains_key(request.connection_id@),
            )
            &&& !after.contains_key(request.connection_id@)
        },
        forall|other: Seq<char>| #![auto]
            other != request.connection_id@ ==> (after.contains_key(other) <==> before.contains_key(
                other,
            )) && after[other] == before[other],
{
    lemma_methods_differ();
    lemma_answer_keys_differ();
    if !poisoned {
        assert(turn->Reply_0->Success_0.dom() =~= set!["connectionId"@, "closed"@]);
    }
}

/// The answer to a query gives every column in its order, every cell of every row in its place,
/// and whether rows were left out; it changes no connection.
pub proof fn law_query_answers_with_every_row<G>(
    task: Task<G>,
    output: QueryOutput,
    before: Table<G>,
    poisoned: bool,
) -> (members: Map<Seq<char>, JsonView>)
    requires
        task.purpose is Query,
    ensures
        task@.next(told(Ok(output)), poisoned) == TurnView::<G>::Reply(
            ReplyView::Success(members),
        ),
        members.dom() == set!["connectionId"@, "columns"@, "rows"@, "truncated"@],
        members["connectionId"@] == JsonView::String(task.connection_id@),
        members["columns"@] is Array,
        members["columns"@]->Array_0.len() == output.columns@.len(),
        forall|i: int|
            0 <= i < output.columns@.len() ==> #[trigger] members["columns"@]->Array_0[i]
                == JsonView::String(output.columns@[i]@),
        members["rows"@] is Array,
        members["rows"@]->Array_0.len() == output.rows@.len(),
        forall|i: int|
            0 <= i < output.rows@.len() ==> {
                &&& #[trigger] members["rows"@]->Array_0[i] is Array
                &&& members["rows"@]->Array_0[i]->Array_0.len() == output.rows@[i]@.len()
            },
        forall|i: int, j: int|
            0 <= i < output.rows@.len() && 0 <= j < output.rows@[i]@.len()
                ==> #[trigger] members["rows"@]->Array_0[i]->Array_0[j] == output.rows@[i]@[j]@,
        members["truncated"@] == JsonView::Bool(output.truncated),
        task@.connections_after(before, poisoned) == before,
{
    lemma_answer_keys_differ();
    let members = task@.next(told(Ok(output)), poisoned)->Reply_0->Success_0;
    assert(members.dom() =~= set!["connectionId"@, "columns"@, "rows"@, "truncated"@]);
    assert forall|i: int| 0 <= i < output.rows@.len() implies {
        &&& #[trigger] members["rows"@]->Array_0[i] is Array
        &&& members["rows"@]->Array_0[i]->Array_0.len() == output.rows@[i]@.len()
    } by {
        assert(members["rows"@]->Array_0[i] == JsonView::Array(views(output.rows@[i]@)));
    }
    assert forall|i: int, j: int|
        0 <= i < output.rows@.len() && 0 <= j < output.rows@[i]@.len() implies #[trigger] members[
    "rows"@]->Array_0[i]->Array_0[j] == output.rows@[i]@[j]@ by {
        assert(members["rows"@]->Array_0[i] == JsonView::Array(views(output.rows@[i]@)));
    }
    members
}

/// A query that fails is answered with the redacted message of its fault; it changes no connection.
pub proof fn law_failed_query_tells_the_fault<G>(
    task: Task<G>,
    fault: Fault,
    before: Table<G>,
    poisoned: bool,
)
    requires
        task.purpose is Query,
    ensures
        task@.next(told(Err(fault)), poisoned) == TurnView::<G>::Reply(
            ReplyView::Error {
                code: "connector.queryFailed"@,
                message: task.connection.config@.redacted(fault.prefix() + fault.detail()),
            },
        ),
        task@.connections_after(before, poisoned) == before,
{
}

/// A call for the schema follows its walk: it runs the next statement on the same connection for
/// the same call, answers with the document that the walk ends with, or with its redacted error.
/// It changes no connection.
pub proof fn law_metadata_follows_the_walk<G>(
    task: Task<G>,
    answer: Result<QueryOutput, Fault>,
    before: Table<G>,
    poisoned: bool,
)
    requires
        task.purpose is Metadata,
    ensures
        ({
            let turn = task@.next(told(answer), poisoned);
            let members = turn->Reply_0->Success_0;
            match task.purpose->Metadata_0@.resumed(told(answer)) {
                WalkStepView::Ask(walk, statement) => {
                    &&& turn is Run
                    &&& turn->statement == statement
                    &&& turn->task.connection_id == task.connection_id@
                    &&& turn->task.connection == task.connection@
                    &&& turn->task.purpose is Metadata
                    &&& turn->task.purpose->Metadata_0 == walk
                },
                WalkStepView::Done(document) => {
                    &&& turn is Reply
                    &&& turn->Reply_0 is Success
                    &&& members.dom() == set!["connectionId"@, "metadata"@]
                    &&& members["connectionId"@] == JsonView::String(task.connection_id@)
                    &&& members["metadata"@] == document
                },
                WalkStepView::Failed(message) => turn == TurnView::<G>::Reply(
                    ReplyView::Error {
                        code: "connector.metadataFailed"@,
                        message: task.connection.config@.redacted(message),
                    },
                ),
            }
        }),
        task@.connections_after(before, poisoned) == before,
{
    lemma_answer_keys_differ();
    let turn = task@.next(told(answer), poisoned);
    let members = turn->Reply_0->Success_0;
    if task.purpose->Metadata_0@.resumed(told(answer)) is Done {
        assert(members.dom() =~= set!["connectionId"@, "metadata"@]);
    }
}

/// Where the table of connections cannot be trusted, a new connection is not kept and the call is
/// answered so.
pub proof fn law_poisoned_table_keeps_no_connection<G>(
    task: Task<G>,
    answer: Result<QueryOutput, Fault>,
    before: Table<G>,
)
    requires
        task.purpose is Version,
    ensures
        task@.next(told(answer), true) == TurnView::<G>::Reply(
            ReplyView::Error {
                code: "connector.statePoisoned"@,
                message: "Connector connection state is poisoned."@,
            },
        ),
        task@.connections_after(before, true) == before,
{
}

/// The message of a fault tells what failed and, behind that, the detail, character for character.
pub proof fn law_faults_tell_the_detail(text: String)
    ensures
        ({
            let message = |fault: Fault| fault.prefix() + fault.detail();
            &&& message(Fault::Runtime(text)) == "create tokio runtime failed: "@ + text@
            &&& message(Fault::NoRuntime) == "create tokio runtime failed."@
            &&& message(Fault::Config(text)) == "failed to build memgraph config: "@ + text@
            &&& message(Fault::Connect(text)) == "failed to connect to memgraph: "@ + text@
            &&& message(Fault::Execute(text)) == "memgraph query execution failed: "@ + text@
            &&& message(Fault::Fetch(text)) == "failed to fetch memgraph row: "@ + text@
            &&& message(Fault::Decode(text)) == "failed to decode memgraph row: "@ + text@
        }),
{
    reveal_strlit("memgraph");
    reveal_strlit("failed to build ");
    reveal_strlit(" config: ");
    reveal_strlit("failed to build memgraph config: ");
    reveal_strlit("failed to connect to ");
    reveal_strlit(": ");
    reveal_strlit("failed to connect to memgraph: ");
    reveal_strlit(" query execution failed: ");
    reveal_strlit("memgraph query execution failed: ");
    reveal_strlit("failed to fetch ");
    reveal_strlit(" row: ");
    reveal_strlit("failed to fetch memgraph row: ");
    reveal_strlit("failed to decode ");
    reveal_strlit("failed to decode memgraph row: ");
    assert("failed to build "@ + "memgraph"@ + " config: "@
        =~= "failed to build memgraph config: "@);
    assert("failed to connect to "@ + "memgraph"@ + ": "@ =~= "failed to connect to memgraph: "@);
    assert("memgraph"@ + " query execution failed: "@ =~= "memgraph query execution failed: "@);
    assert("failed to fetch "@ + "memgraph"@ + " row: "@ =~= "failed to fetch memgraph row: "@);
    assert("failed to decode "@ + "memgraph"@ + " row: "@ =~= "failed to decode memgraph row: "@);
    assert("create tokio runtime failed."@ + Seq::<char>::empty()
        =~= "create tokio runtime failed."@);
}

/// The view of a turn shows what the turn is: the members, the code and message or the text of its
/// answer, the settings to open with, or the statement and the task to run it for.
pub proof fn law_view_of_a_turn<G>(turn: Turn<G>)
    ensures
        match turn {
            Turn::Reply(Reply::Success(members)) => turn@ == TurnView::<G>::Reply(
                ReplyView::Success(members@),
            ),
            Turn::Reply(Reply::Error { code, message }) => {
                &&& turn@ is Reply
                &&& turn@->Reply_0 is Error
                &&& turn@->Reply_0->code == code@
                &&& turn@->Reply_0->message == message@
            },
            Turn::Reply(Reply::Raw(text)) => turn@ == TurnView::<G>::Reply(ReplyView::Raw(text@)),
            Turn::Open { connection_id, config } => {
                &&& turn@ is Open
                &&& turn@->Open_connection_id == connection_id@
                &&& turn@->Open_config == config@
            },
            Turn::Run { task, statement } => {
                &&& turn@ is Run
                &&& turn@->statement.text == statement.text@
                &&& turn@->statement.cap == statement.cap
                &&& turn@->task.connection_id == task.connection_id@
                &&& turn@->task.connection.graph == task.connection.graph
                &&& turn@->task.connection.config == task.connection.config@
                &&& turn@->task.purpose is Version <==> task.purpose is Version
                &&& turn@->task.purpose is Query <==> task.purpose is Query
                &&& task.purpose matches Purpose::Metadata(walk) ==> turn@->task.purpose
                    == PurposeView::Metadata(walk@)
            },
        },
{
}

/// The views of the steps of a reading and of a walk show what the steps are.
pub proof fn law_view_of_a_step(reading: ReadStep, walking: WalkStep)
    ensures
        match reading {
            ReadStep::Fetch(state) => reading@ == ReadStepView::Fetch(state@),
            ReadStep::Decode(state) => reading@ == ReadStepView::Decode(state@),
            ReadStep::Done(Ok(output)) => reading@ == ReadStepView::Done(Ok(output@)),
            ReadStep::Done(Err(fault)) => reading@ == ReadStepView::Done(Err(fault)),
        },
        match walking {
            WalkStep::Ask(walk, statement) => {
                &&& walking@ is Ask
                &&& walking@->Ask_0 == walk@
                &&& walking@->Ask_1.text == statement.text@
                &&& walking@->Ask_1.cap == statement.cap
            },
            WalkStep::Done(document) => walking@ == WalkStepView::Done(document@),
            WalkStep::Failed(message) => walking@ == WalkStepView::Failed(message@),
        },
{
}

/// The driver is handed the URI, the user, the password and the database of the settings, and the
/// text of a statement without parameters, all as they are.
pub proof fn law_driver_gets_settings_and_text(
    config: GraphConfig,
    statement: Statement,
    query: neo4rs::Query,
)
    requires
        statement@.handed_to_driver(query),
    ensures
        config@.handed_to_driver() == driver_config(
            config.uri@,
            config.username@,
            config.password@,
            config.database@,
        ),
        query_text(query) == statement.text@,
        forall|key: Seq<char>| !(#[trigger] query_parameters(query).contains(key)),
{
}

/// A copy of a connection has its settings, and a clone of its handle.
pub proof fn law_copies_have_the_settings<G: Clone>(
    original: ConnectionView<G>,
    copy: ConnectionView<G>,
)
    requires
        copy_of(original, copy),
    ensures
        copy.config == original.config,
        cloned(original.graph, copy.graph),
{
}

} // verus!
