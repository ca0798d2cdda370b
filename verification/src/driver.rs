//! Calls to the connector: what each is answered with, and what has to be done outside the
//! library before it can be answered.
//!
//! A call starts with [`call_json`]. As long as the turn that comes back is no answer, it says
//! what is to be done: open a connection and go on with [`opened`], or run a statement and go on
//! with [`answered`].

use crate::config::{requested_config, ConfigView, GraphConfig};
use crate::connections::{copy_of, ConnectionView, Connections, GraphConnection};
use crate::fault::Fault;
use crate::json::{views, Json, JsonView, Object};
use crate::metadata::{Statement, StatementView};
use crate::parse::{document, read_or_null, read_text};
use crate::reply::{poisoned_reply, state_poisoned, Reply, ReplyView};
use crate::rows::{row_views, OutputView, QueryOutput};
use crate::text::{same, texts};
use crate::version::{load_version, version_reported, version_statement, version_wanted};
use crate::walk::{walk_start, AnswerView, MetadataWalk, WalkStep, WalkStepView, WalkView};
use crate::{DRIVER_LINKED, ENGINE};
use vstd::prelude::*;
use vstd::string::*;

verus! {

/// What the package of the connector says about itself.
pub struct PackageView {
    pub abi_version: JsonView,
    pub manifest_json: Seq<char>,
    pub config_json: Seq<char>,
}

/// What the package of the connector says about itself: the version of the calling convention,
/// the text of the extension manifest and that of the connector configuration.
#[derive(Debug, PartialEq, Eq)]
pub struct Package {
    pub abi_version: Json,
    pub manifest_json: String,
    pub config_json: String,
}

impl Package {
    /// The package as a mathematical object.
    pub open spec fn view(&self) -> PackageView {
        PackageView {
            abi_version: self.abi_version@,
            manifest_json: self.manifest_json@,
            config_json: self.config_json@,
        }
    }
}

/// What a call asks for.
pub struct RequestView {
    pub method: Seq<char>,
    pub connection_id: Seq<char>,
    pub body: Option<JsonView>,
    pub cypher: Option<Seq<char>>,
    pub sql: Option<Seq<char>>,
    pub query: Option<Seq<char>>,
    pub statement: Option<Seq<char>>,
    pub max_rows: nat,
}

/// What a call asks for: its method, the request with the connection that it names, the fields in
/// which it may give a statement, and how many rows it wants at most.
#[derive(Debug, PartialEq, Eq)]
pub struct Request {
    pub method: String,
    pub connection_id: String,
    pub body: Option<Json>,
    pub cypher: Option<String>,
    pub sql: Option<String>,
    pub query: Option<String>,
    pub statement: Option<String>,
    pub max_rows: usize,
}

/// The text of a string that may be missing.
pub open spec fn optional_text(text: Option<String>) -> Option<Seq<char>> {
    match text {
        Some(text) => Some(text@),
        None => None,
    }
}

impl Request {
    /// The request as a mathematical object.
    pub open spec fn view(&self) -> RequestView {
        RequestView {
            method: self.method@,
            connection_id: self.connection_id@,
            body: match self.body {
                Some(json) => Some(json@),
                None => None,
            },
            cypher: optional_text(self.cypher),
            sql: optional_text(self.sql),
            query: optional_text(self.query),
            statement: optional_text(self.statement),
            max_rows: self.max_rows as nat,
        }
    }
}

impl RequestView {
    /// The statement to run: the first one given of `cypher`, `sql`, `query` and `statement`.
    pub open spec fn wanted_text(self) -> Option<Seq<char>> {
        if self.cypher is Some {
            self.cypher
        } else if self.sql is Some {
            self.sql
        } else if self.query is Some {
            self.query
        } else {
            self.statement
        }
    }
}

/// Whether a method works on a request.
pub open spec fn needs_body(method: Seq<char>) -> bool {
    ||| method == "connect"@
    ||| method == "query"@
    ||| method == "metadata"@
    ||| method == "close"@
}

/// What a statement is run for.
pub enum PurposeView {
    Version,
    Query,
    Metadata(WalkView),
}

/// What a statement is run for.
pub enum Purpose {
    /// To learn the version of the server of a new connection.
    Version,
    /// To answer a query.
    Query,
    /// To describe the schema.
    Metadata(MetadataWalk),
}

impl Purpose {
    /// The purpose as a mathematical object.
    pub open spec fn view(&self) -> PurposeView {
        match self {
            Purpose::Version => PurposeView::Version,
            Purpose::Query => PurposeView::Query,
            Purpose::Metadata(walk) => PurposeView::Metadata(walk@),
        }
    }
}

/// A call that waits for the answer to a statement.
pub struct TaskView<G> {
    pub connection_id: Seq<char>,
    pub connection: ConnectionView<G>,
    pub purpose: PurposeView,
}

/// A call that waits for the answer to a statement.
pub struct Task<G> {
    pub connection_id: String,
    pub connection: GraphConnection<G>,
    pub purpose: Purpose,
}

impl<G> Task<G> {
    /// The task as a mathematical object.
    pub open spec fn view(&self) -> TaskView<G> {
        TaskView {
            connection_id: self.connection_id@,
            connection: self.connection@,
            purpose: self.purpose@,
        }
    }
}

/// What comes next in a call.
pub enum TurnView<G> {
    Reply(ReplyView),
    Open { connection_id: Seq<char>, config: ConfigView },
    Run { task: TaskView<G>, statement: StatementView },
}

/// What comes next in a call: its answer, a connection to be opened with the given settings, or
/// a statement to be run on the connection of the task.
pub enum Turn<G> {
    Reply(Reply),
    Open { connection_id: String, config: GraphConfig },
    Run { task: Task<G>, statement: Statement },
}

impl<G> Turn<G> {
    /// The turn as a mathematical object.
    pub open spec fn view(&self) -> TurnView<G> {
        match self {
            Turn::Reply(reply) => TurnView::Reply(reply@),
            Turn::Open { connection_id, config } => TurnView::Open {
                connection_id: connection_id@,
                config: config@,
            },
            Turn::Run { task, statement } => TurnView::Run { task: task@, statement: statement@ },
        }
    }
}

/// What `health` and `ping` are answered with.
pub open spec fn health_members(package: PackageView) -> Map<Seq<char>, JsonView> {
    map![
        "engine"@ => JsonView::String(ENGINE@),
        "abiVersion"@ => package.abi_version,
        "driverLinked"@ => JsonView::Bool(DRIVER_LINKED),
    ]
}

/// What `describe` and `capabilities` are answered with, given the documents of the package.
pub open spec fn describe_members(
    package: PackageView,
    manifest: JsonView,
    config: JsonView,
) -> Map<Seq<char>, JsonView> {
    health_members(package).insert("manifest"@, manifest).insert("config"@, config)
}

/// What a method is answered with that needs no request.
pub open spec fn plain_reply(method: Seq<char>, package: PackageView) -> ReplyView {
    if method == "health"@ || method == "ping"@ {
        ReplyView::Success(health_members(package))
    } else if method == "describe"@ || method == "capabilities"@ {
        ReplyView::Success(
            describe_members(
                package,
                read_or_null(read_text(package.manifest_json)),
                read_or_null(read_text(package.config_json)),
            ),
        )
    } else if method == "manifest"@ {
        ReplyView::Raw(package.manifest_json)
    } else if method == "config"@ {
        ReplyView::Raw(package.config_json)
    } else {
        ReplyView::Error {
            code: "connector.unknownMethod"@,
            message: "unknown connector method: "@ + method,
        }
    }
}

/// The open connection under an identifier, or the answer that there is none.
pub open spec fn looked_up<G>(
    connections: Map<Seq<char>, ConnectionView<G>>,
    connection_id: Seq<char>,
    poisoned: bool,
) -> Result<ConnectionView<G>, ReplyView> {
    if poisoned {
        Err(poisoned_reply())
    } else if connections.contains_key(connection_id) {
        Ok(connections[connection_id])
    } else {
        Err(
            ReplyView::Error {
                code: "connector.connectionNotFound"@,
                message: "no open connection: "@ + connection_id,
            },
        )
    }
}

/// Whether a turn runs `statement` for `purpose` on a copy of `connection`.
pub open spec fn runs<G: Clone>(
    turn: TurnView<G>,
    connection_id: Seq<char>,
    connection: ConnectionView<G>,
    purpose: PurposeView,
    statement: StatementView,
) -> bool {
    &&& turn is Run
    &&& turn->task.connection_id == connection_id
    &&& copy_of(connection, turn->task.connection)
    &&& turn->task.purpose == purpose
    &&& turn->statement == statement
}

/// Whether a turn is what a query leads to: an error when no statement is given or no connection
/// is open under the identifier, else the statement.
pub open spec fn query_leads_to<G: Clone>(
    request: RequestView,
    connections: Map<Seq<char>, ConnectionView<G>>,
    poisoned: bool,
    turn: TurnView<G>,
) -> bool {
    match request.wanted_text() {
        None => turn == TurnView::<G>::Reply(
            ReplyView::Error {
                code: "connector.invalidRequest"@,
                message: "query requires a string cypher, sql, query, or statement field."@,
            },
        ),
        Some(text) => match looked_up(connections, request.connection_id, poisoned) {
            Err(reply) => turn == TurnView::<G>::Reply(reply),
            Ok(connection) => runs(
                turn,
                request.connection_id,
                connection,
                PurposeView::Query,
                StatementView { text, cap: request.max_rows },
            ),
        },
    }
}

/// Whether a turn is what a call for the schema leads to: an error when no connection is open
/// under the identifier, else the first statement of the walk.
pub open spec fn metadata_leads_to<G: Clone>(
    connection_id: Seq<char>,
    connections: Map<Seq<char>, ConnectionView<G>>,
    poisoned: bool,
    turn: TurnView<G>,
) -> bool {
    match looked_up(connections, connection_id, poisoned) {
        Err(reply) => turn == TurnView::<G>::Reply(reply),
        Ok(connection) => {
            let start = walk_start(connection.config.database);
            runs(
                turn,
                connection_id,
                connection,
                PurposeView::Metadata(start->Ask_0),
                start->Ask_1,
            )
        },
    }
}

/// What `close` is answered with.
pub open spec fn close_reply(connection_id: Seq<char>, existed: bool) -> ReplyView {
    ReplyView::Success(
        map![
            "connectionId"@ => JsonView::String(connection_id),
            "closed"@ => JsonView::Bool(existed),
        ],
    )
}

/// The turn with which a call that opens a connection starts.
pub open spec fn connect_leads_to<G>(connection_id: Seq<char>, body: JsonView) -> TurnView<G> {
    TurnView::Open { connection_id, config: requested_config(ENGINE@, body) }
}

/// What a call that closes a connection is answered with.
pub open spec fn close_leads_to<G>(
    connection_id: Seq<char>,
    connections: Map<Seq<char>, ConnectionView<G>>,
    poisoned: bool,
) -> ReplyView {
    if poisoned {
        poisoned_reply()
    } else {
        close_reply(connection_id, connections.contains_key(connection_id))
    }
}

/// Whether a call leads to a turn and takes the table of connections from `before` to `after`.
pub open spec fn call_leads_to<G: Clone>(
    request: RequestView,
    package: PackageView,
    before: Map<Seq<char>, ConnectionView<G>>,
    poisoned: bool,
    turn: TurnView<G>,
    after: Map<Seq<char>, ConnectionView<G>>,
) -> bool {
    if request.method == "connect"@ {
        &&& turn == connect_leads_to::<G>(request.connection_id, request.body->0)
        &&& after == before
    } else if request.method == "query"@ {
        &&& query_leads_to(request, before, poisoned, turn)
        &&& after == before
    } else if request.method == "metadata"@ {
        &&& metadata_leads_to(request.connection_id, before, poisoned, turn)
        &&& after == before
    } else if request.method == "close"@ {
        &&& turn == TurnView::<G>::Reply(close_leads_to(request.connection_id, before, poisoned))
        &&& after == if poisoned {
            before
        } else {
            before.remove(request.connection_id)
        }
    } else {
        &&& turn == TurnView::<G>::Reply(plain_reply(request.method, package))
        &&& after == before
    }
}

/// What a call that opens a connection leads to once that was tried.
pub open spec fn opened_leads_to<G>(
    connection_id: Seq<char>,
    config: ConfigView,
    outcome: Result<G, Fault>,
) -> TurnView<G> {
    match outcome {
        Ok(graph) => TurnView::Run {
            task: TaskView {
                connection_id,
                connection: ConnectionView { graph, config },
                purpose: PurposeView::Version,
            },
            statement: version_wanted(ENGINE@),
        },
        Err(fault) => TurnView::Reply(
            ReplyView::Error {
                code: "connector.connectFailed"@,
                message: fault.prefix() + fault.detail(),
            },
        ),
    }
}

/// What `connect` is answered with.
pub open spec fn connect_reply(
    connection_id: Seq<char>,
    database: Seq<char>,
    version: Seq<char>,
) -> ReplyView {
    ReplyView::Success(
        map![
            "engine"@ => JsonView::String(ENGINE@),
            "connectionId"@ => JsonView::String(connection_id),
            "driverLinked"@ => JsonView::Bool(DRIVER_LINKED),
            "database"@ => JsonView::String(database),
            "serverVersion"@ => JsonView::String(version),
        ],
    )
}

/// What `query` is answered with.
pub open spec fn query_reply(connection_id: Seq<char>, output: OutputView) -> ReplyView {
    ReplyView::Success(
        map![
            "connectionId"@ => JsonView::String(connection_id),
            "columns"@ => JsonView::Array(
                output.columns.map_values(|column: Seq<char>| JsonView::String(column)),
            ),
            "rows"@ => JsonView::Array(
                output.rows.map_values(|row: Seq<JsonView>| JsonView::Array(row)),
            ),
            "truncated"@ => JsonView::Bool(output.truncated),
        ],
    )
}

/// What `metadata` is answered with.
pub open spec fn metadata_reply(connection_id: Seq<char>, metadata: JsonView) -> ReplyView {
    ReplyView::Success(
        map![
            "connectionId"@ => JsonView::String(connection_id),
            "metadata"@ => metadata,
        ],
    )
}

/// The answer to a statement, with the message of a fault.
pub open spec fn told(answer: Result<QueryOutput, Fault>) -> AnswerView {
    match answer {
        Ok(output) => Ok(output@),
        Err(fault) => Err(fault.prefix() + fault.detail()),
    }
}

impl<G> TaskView<G> {
    /// An error of the task, with a message that hides what must not be shown.
    pub open spec fn failure(self, code: Seq<char>, message: Seq<char>) -> TurnView<G> {
        TurnView::Reply(
            ReplyView::Error { code, message: self.connection.config.redacted(message) },
        )
    }

    /// What the task leads to once its statement has been answered.
    pub open spec fn next(self, answer: AnswerView, poisoned: bool) -> TurnView<G> {
        match self.purpose {
            PurposeView::Version => if poisoned {
                TurnView::Reply(poisoned_reply())
            } else {
                TurnView::Reply(
                    connect_reply(
                        self.connection_id,
                        self.connection.config.database,
                        version_reported(ENGINE@, answer),
                    ),
                )
            },
            PurposeView::Query => match answer {
                Ok(output) => TurnView::Reply(query_reply(self.connection_id, output)),
                Err(message) => self.failure("connector.queryFailed"@, message),
            },
            PurposeView::Metadata(walk) => match walk.resumed(answer) {
                WalkStepView::Ask(walk, statement) => TurnView::Run {
                    task: TaskView { purpose: PurposeView::Metadata(walk), ..self },
                    statement,
                },
                WalkStepView::Done(metadata) => TurnView::Reply(
                    metadata_reply(self.connection_id, metadata),
                ),
                WalkStepView::Failed(message) => self.failure(
                    "connector.metadataFailed"@,
                    message,
                ),
            },
        }
    }

    /// The open connections once the statement of the task has been answered.
    pub open spec fn connections_after(
        self,
        connections: Map<Seq<char>, ConnectionView<G>>,
        poisoned: bool,
    ) -> Map<Seq<char>, ConnectionView<G>> {
        if self.purpose is Version && !poisoned {
            connections.insert(self.connection_id, self.connection)
        } else {
            connections
        }
    }
}

/// What `health` and `ping` are answered with.
pub fn health(package: &Package) -> (r: Object)
    ensures
        r@ == health_members(package@),
{
    let mut members = Object::new();
    members.insert("engine".to_owned(), Json::string(ENGINE));
    members.insert("abiVersion".to_owned(), package.abi_version.clone());
    members.insert("driverLinked".to_owned(), Json::Bool(DRIVER_LINKED));
    members
}

/// What `describe` and `capabilities` are answered with, given the documents of the package.
pub fn describe(package: &Package, manifest: Json, config: Json) -> (r: Object)
    ensures
        r@ == describe_members(package@, manifest@, config@),
{
    let mut members = health(package);
    members.insert("manifest".to_owned(), manifest);
    members.insert("config".to_owned(), config);
    members
}

/// The open connection under an identifier, or the answer that there is none.
pub fn connection<G: Clone>(
    connections: &Connections<G>,
    connection_id: &str,
    poisoned: bool,
) -> (r: Result<GraphConnection<G>, Reply>)
    ensures
        match looked_up(connections@, connection_id@, poisoned) {
            Ok(original) => r is Ok && copy_of(original, r->Ok_0@),
            Err(reply) => r is Err && r->Err_0@ == reply,
        },
{
    if poisoned {
        return Err(state_poisoned());
    }
    match connections.get(connection_id) {
        Some(found) => Ok(found.clone()),
        None => Err(
            Reply::error(
                "connector.connectionNotFound",
                "no open connection: ".to_owned().concat(connection_id),
            ),
        ),
    }
}

/// A call that opens a connection.
pub fn connect<G>(connection_id: &str, request: &Json) -> (r: Turn<G>)
    ensures
        r@ == (TurnView::<G>::Open {
            connection_id: connection_id@,
            config: requested_config(ENGINE@, request@),
        }),
        r@ == connect_leads_to::<G>(connection_id@, request@),
{
    match GraphConfig::from_request(request) {
        Ok(config) => Turn::Open { connection_id: connection_id.to_owned(), config },
        Err(message) => Turn::Reply(Reply::error("connector.invalidRequest", message)),
    }
}

/// A call that runs a statement.
pub fn query<G: Clone>(
    request: &Request,
    connections: &Connections<G>,
    poisoned: bool,
) -> (r: Turn<G>)
    ensures
        query_leads_to(request@, connections@, poisoned, r@),
{
    let text = if let Some(text) = &request.cypher {
        text
    } else if let Some(text) = &request.sql {
        text
    } else if let Some(text) = &request.query {
        text
    } else if let Some(text) = &request.statement {
        text
    } else {
        return Turn::Reply(
            Reply::error(
                "connector.invalidRequest",
                "query requires a string cypher, sql, query, or statement field.".to_owned(),
            ),
        );
    };
    match connection(connections, request.connection_id.as_str(), poisoned) {
        Ok(connection) => Turn::Run {
            task: Task {
                connection_id: request.connection_id.clone(),
                connection,
                purpose: Purpose::Query,
            },
            statement: Statement { text: text.clone(), cap: request.max_rows },
        },
        Err(reply) => Turn::Reply(reply),
    }
}

/// A call that describes the schema.
pub fn metadata<G: Clone>(
    connection_id: &str,
    connections: &Connections<G>,
    poisoned: bool,
) -> (r: Turn<G>)
    ensures
        metadata_leads_to(connection_id@, connections@, poisoned, r@),
{
    match connection(connections, connection_id, poisoned) {
        Ok(connection) => {
            let (walk, statement) = MetadataWalk::start(connection.config.database.as_str());
            Turn::Run {
                task: Task {
                    connection_id: connection_id.to_owned(),
                    connection,
                    purpose: Purpose::Metadata(walk),
                },
                statement,
            }
        },
        Err(reply) => Turn::Reply(reply),
    }
}

/// A call that closes a connection.
pub fn close<G>(
    connection_id: &str,
    connections: &mut Connections<G>,
    poisoned: bool,
) -> (r: Reply)
    ensures
        poisoned ==> r@ == poisoned_reply() && final(connections)@ == old(connections)@,
        !poisoned ==> r@ == close_reply(
            connection_id@,
            old(connections)@.contains_key(connection_id@),
        ) && final(connections)@ == old(connections)@.remove(connection_id@),
        r@ == close_leads_to(connection_id@, old(connections)@, poisoned),
{
    if poisoned {
        return state_poisoned();
    }
    let existed = connections.remove(connection_id);
    let mut members = Object::new();
    members.insert("connectionId".to_owned(), Json::string(connection_id));
    members.insert("closed".to_owned(), Json::Bool(existed));
    Reply::Success(members)
}

/// What `connect` is answered with.
fn connect_response(connection_id: &str, database: &str, version: String) -> (r: Reply)
    ensures
        r@ == connect_reply(connection_id@, database@, version@),
{
    let mut members = Object::new();
    members.insert("engine".to_owned(), Json::string(ENGINE));
    members.insert("connectionId".to_owned(), Json::string(connection_id));
    members.insert("driverLinked".to_owned(), Json::Bool(DRIVER_LINKED));
    members.insert("database".to_owned(), Json::string(database));
    members.insert("serverVersion".to_owned(), Json::String(version));
    Reply::Success(members)
}

/// What `metadata` is answered with.
fn metadata_response(connection_id: &str, metadata: Json) -> (r: Reply)
    ensures
        r@ == metadata_reply(connection_id@, metadata@),
{
    let mut members = Object::new();
    members.insert("connectionId".to_owned(), Json::string(connection_id));
    members.insert("metadata".to_owned(), metadata);
    Reply::Success(members)
}

/// What `query` is answered with.
fn query_response(connection_id: &str, output: QueryOutput) -> (r: Reply)
    ensures
        r@ == query_reply(connection_id@, output@),
{
    let ghost columns = output@.columns;
    let ghost rows = output@.rows;
    let n: usize = output.columns.len();
    let mut names: Vec<Json> = Vec::new();
    let mut i: usize = 0;
    while i < n
        invariant
            i <= n,
            n == output.columns@.len(),
            columns == texts(output.columns@),
            names@.len() == i,
            forall|k: int| 0 <= k < i ==> (#[trigger] names@[k])@ == JsonView::String(columns[k]),
        decreases n - i,
    {
        names.push(Json::String(output.columns[i].clone()));
        i = i + 1;
    }
    let mut lines: Vec<Json> = Vec::new();
    let m: usize = output.rows.len();
    let mut j: usize = 0;
    while j < m
        invariant
            j <= m,
            m == output.rows@.len(),
            rows == row_views(output.rows@),
            lines@.len() == j,
            forall|k: int| 0 <= k < j ==> (#[trigger] lines@[k])@ == JsonView::Array(rows[k]),
        decreases m - j,
    {
        let row = &output.rows[j];
        let width: usize = row.len();
        let mut cells: Vec<Json> = Vec::new();
        let mut k: usize = 0;
        while k < width
            invariant
                k <= width,
                width == row@.len(),
                cells@.len() == k,
                forall|c: int| 0 <= c < k ==> (#[trigger] cells@[c])@ == row@[c]@,
            decreases width - k,
        {
            cells.push(row[k].clone());
            k = k + 1;
        }
        assert(views(cells@) =~= views(row@)) by {
            assert forall|c: int| 0 <= c < width implies views(cells@)[c] == views(row@)[c] by {
                assert(cells@[c]@ == row@[c]@);
            }
        }
        lines.push(Json::Array(cells));
        j = j + 1;
    }
    proof {
        let name_views = columns.map_values(|column: Seq<char>| JsonView::String(column));
        let line_views = rows.map_values(|row: Seq<JsonView>| JsonView::Array(row));
        assert forall|k: int| 0 <= k < n implies views(names@)[k] == name_views[k] by {
            assert(names@[k]@ == JsonView::String(columns[k]));
        }
        assert(views(names@) =~= name_views);
        assert forall|k: int| 0 <= k < m implies views(lines@)[k] == line_views[k] by {
            assert(lines@[k]@ == JsonView::Array(rows[k]));
        }
        assert(views(lines@) =~= line_views);
    }
    let mut members = Object::new();
    members.insert("connectionId".to_owned(), Json::string(connection_id));
    members.insert("columns".to_owned(), Json::Array(names));
    members.insert("rows".to_owned(), Json::Array(lines));
    members.insert("truncated".to_owned(), Json::Bool(output.truncated));
    Reply::Success(members)
}

/// The methods that work on a request differ from each other and from those that do not.
proof fn lemma_methods_differ()
    ensures
        "connect"@ != "query"@,
        "connect"@ != "metadata"@,
        "connect"@ != "close"@,
        "query"@ != "metadata"@,
        "query"@ != "close"@,
        "metadata"@ != "close"@,
        !needs_body("health"@),
        !needs_body("ping"@),
        !needs_body("describe"@),
        !needs_body("capabilities"@),
        !needs_body("manifest"@),
        !needs_body("config"@),
{
    reveal_strlit("connect");
    reveal_strlit("query");
    reveal_strlit("metadata");
    reveal_strlit("close");
    reveal_strlit("health");
    reveal_strlit("ping");
    reveal_strlit("describe");
    reveal_strlit("capabilities");
    reveal_strlit("manifest");
    reveal_strlit("config");
    assert("connect"@.len() == 7);
    assert("query"@.len() == 5);
    assert("metadata"@.len() == 8);
    assert("close"@.len() == 5);
    assert("health"@.len() == 6);
    assert("ping"@.len() == 4);
    assert("describe"@.len() == 8);
    assert("capabilities"@.len() == 12);
    assert("manifest"@.len() == 8);
    assert("config"@.len() == 6);
    assert("query"@[0] != "close"@[0]);
    assert("metadata"@[0] != "describe"@[0]);
    assert("metadata"@[1] != "manifest"@[1]);
}

/// Starts a call. `poisoned` tells that the table of connections cannot be trusted any more.
pub fn call_json<G: Clone>(
    request: &Request,
    package: &Package,
    connections: &mut Connections<G>,
    poisoned: bool,
) -> (r: Turn<G>)
    requires
        needs_body(request.method@) ==> request.body is Some,
    ensures
        !needs_body(request.method@) ==> r@ == TurnView::<G>::Reply(
            plain_reply(request.method@, package@),
        ),
        request.method@ == "connect"@ ==> r@ == (TurnView::<G>::Open {
            connection_id: request.connection_id@,
            config: requested_config(ENGINE@, request@.body->0),
        }),
        request.method@ == "query"@ ==> query_leads_to(
            request@,
            old(connections)@,
            poisoned,
            r@,
        ),
        request.method@ == "metadata"@ ==> metadata_leads_to(
            request.connection_id@,
            old(connections)@,
            poisoned,
            r@,
        ),
        request.method@ == "close"@ && poisoned ==> r@ == TurnView::<G>::Reply(poisoned_reply()),
        request.method@ == "close"@ && !poisoned ==> r@ == TurnView::<G>::Reply(
            close_reply(
                request.connection_id@,
                old(connections)@.contains_key(request.connection_id@),
            ),
        ),
        final(connections)@ == (if request.method@ == "close"@ && !poisoned {
            old(connections)@.remove(request.connection_id@)
        } else {
            old(connections)@
        }),
        call_leads_to(
            request@,
            package@,
            old(connections)@,
            poisoned,
            r@,
            final(connections)@,
        ),
{
    proof {
        lemma_methods_differ();
    }
    let method = request.method.as_str();
    let connection_id = request.connection_id.as_str();
    if same(method, "health") || same(method, "ping") {
        Turn::Reply(Reply::Success(health(package)))
    } else if same(method, "describe") || same(method, "capabilities") {
        let manifest = document(package.manifest_json.as_str());
        let config = document(package.config_json.as_str());
        Turn::Reply(Reply::Success(describe(package, manifest, config)))
    } else if same(method, "manifest") {
        Turn::Reply(Reply::Raw(package.manifest_json.clone()))
    } else if same(method, "config") {
        Turn::Reply(Reply::Raw(package.config_json.clone()))
    } else if same(method, "connect") {
        connect(connection_id, request.body.as_ref().unwrap())
    } else if same(method, "query") {
        query(request, connections, poisoned)
    } else if same(method, "metadata") {
        metadata(connection_id, connections, poisoned)
    } else if same(method, "close") {
        Turn::Reply(close(connection_id, connections, poisoned))
    } else {
        Turn::Reply(
            Reply::error(
                "connector.unknownMethod",
                "unknown connector method: ".to_owned().concat(method),
            ),
        )
    }
}

/// Goes on with a call that opens a connection, once that was tried.
pub fn opened<G>(
    connection_id: String,
    config: GraphConfig,
    outcome: Result<G, Fault>,
) -> (r: Turn<G>)
    ensures
        match outcome {
            Ok(graph) => r@ == (TurnView::<G>::Run {
                task: TaskView {
                    connection_id: connection_id@,
                    connection: ConnectionView { graph, config: config@ },
                    purpose: PurposeView::Version,
                },
                statement: version_wanted(ENGINE@),
            }),
            Err(fault) => r@ == TurnView::<G>::Reply(
                ReplyView::Error {
                    code: "connector.connectFailed"@,
                    message: fault.prefix() + fault.detail(),
                },
            ),
        },
        r@ == opened_leads_to(connection_id@, config@, outcome),
{
    match outcome {
        Ok(graph) => Turn::Run {
            task: Task {
                connection_id,
                connection: GraphConnection { graph, config },
                purpose: Purpose::Version,
            },
            statement: version_statement(ENGINE),
        },
        Err(fault) => Turn::Reply(Reply::error("connector.connectFailed", fault.message())),
    }
}

/// Goes on with a call that ran a statement, once that was answered.
pub fn answered<G>(
    task: Task<G>,
    answer: Result<QueryOutput, Fault>,
    connections: &mut Connections<G>,
    poisoned: bool,
) -> (r: Turn<G>)
    ensures
        r@ == task@.next(told(answer), poisoned),
        final(connections)@ == task@.connections_after(old(connections)@, poisoned),
{
    let answer: Result<QueryOutput, String> = match answer {
        Ok(output) => Ok(output),
        Err(fault) => Err(fault.message()),
    };
    let Task { connection_id, connection, purpose } = task;
    match purpose {
        Purpose::Version => {
            let version = match load_version(ENGINE, answer) {
                Ok(version) => version,
                Err(_) => ENGINE.to_owned(),
            };
            if poisoned {
                return Turn::Reply(state_poisoned());
            }
            let reply = connect_response(
                connection_id.as_str(),
                connection.config.database.as_str(),
                version,
            );
            connections.insert(connection_id, connection);
            Turn::Reply(reply)
        },
        Purpose::Query => match answer {
            Ok(output) => Turn::Reply(query_response(connection_id.as_str(), output)),
            Err(message) => Turn::Reply(
                Reply::error(
                    "connector.queryFailed",
                    connection.config.redact(message.as_str()),
                ),
            ),
        },
        Purpose::Metadata(walk) => match walk.resume(answer) {
            WalkStep::Ask(walk, statement) => Turn::Run {
                task: Task { connection_id, connection, purpose: Purpose::Metadata(walk) },
                statement,
            },
            WalkStep::Done(document) => Turn::Reply(
                metadata_response(connection_id.as_str(), document),
            ),
            WalkStep::Failed(message) => Turn::Reply(
                Reply::error(
                    "connector.metadataFailed",
                    connection.config.redact(message.as_str()),
                ),
            ),
        },
    }
}

} // verus!
