//! What the description of a schema says, member by member, in terms of the rows that the server
//! sent.

use crate::json::{views, Json, JsonView};
use crate::metadata::{
    label_keys_wanted, labels_wanted, properties_at, property,
    relationship_keys_wanted, relationship_types_wanted, schema_document, schema_object,
    strings_at, strings_under,
};
use crate::rows::{row_views, OutputView};
use crate::text::decimal;
use crate::version::{version_reported, version_told, version_wanted};
use crate::walk::AnswerView;
use vstd::prelude::*;

verus! {

/// Whether a row has a string at a position.
pub open spec fn names_something(row: Seq<JsonView>, at: int) -> bool {
    at < row.len() && row[at] is String
}

/// Whether `origin` numbers the rows that have a string at a position, each once, in their order.
pub open spec fn numbers_named_rows(
    origin: Seq<int>,
    rows: Seq<Seq<JsonView>>,
    at: int,
) -> bool {
    &&& forall|i: int|
        0 <= i < origin.len() ==> 0 <= #[trigger] origin[i] < rows.len() && names_something(
            rows[origin[i]],
            at,
        )
    &&& forall|i: int, j: int| 0 <= i < j < origin.len() ==> origin[i] < origin[j]
    &&& forall|r: int|
        0 <= r < rows.len() && names_something(#[trigger] rows[r], at) ==> origin.contains(r)
}

/// Whether a value describes the property that a row names at a position: its name, that it is a
/// property that may be missing, and the number of the row, counted from one.
pub open spec fn describes_row(
    item: JsonView,
    rows: Seq<Seq<JsonView>>,
    at: int,
    r: int,
) -> bool {
    &&& item is Object
    &&& item->Object_0.dom() == set!["name"@, "dataType"@, "nullable"@, "ordinal"@]
    &&& item->Object_0["name"@] == rows[r][at]
    &&& item->Object_0["dataType"@] == JsonView::String("property"@)
    &&& item->Object_0["nullable"@] == JsonView::Bool(true)
    &&& item->Object_0["ordinal"@] == JsonView::Number(decimal((r + 1) as nat))
}

/// The keys of descriptions differ from each other.
proof fn lemma_description_keys_differ()
    ensures
        "name"@.len() == 4,
        "dataType"@.len() == 8,
        "nullable"@.len() == 8,
        "ordinal"@.len() == 7,
        "schema"@.len() == 6,
        "kind"@.len() == 4,
        "columns"@.len() == 7,
        "indexes"@.len() == 7,
        "primaryKey"@.len() == 10,
        "foreignKeys"@.len() == 11,
        "objects"@.len() == 7,
        "dataType"@ != "nullable"@,
        "name"@ != "kind"@,
        "columns"@ != "indexes"@,
{
    reveal_strlit("name");
    reveal_strlit("dataType");
    reveal_strlit("nullable");
    reveal_strlit("ordinal");
    reveal_strlit("schema");
    reveal_strlit("kind");
    reveal_strlit("columns");
    reveal_strlit("indexes");
    reveal_strlit("primaryKey");
    reveal_strlit("foreignKeys");
    reveal_strlit("objects");
    assert("dataType"@[0] != "nullable"@[0]);
    assert("name"@[0] != "kind"@[0]);
    assert("columns"@[0] != "indexes"@[0]);
}

/// A numbering of the rows goes on with one more row.
proof fn lemma_one_more_row(
    origin: Seq<int>,
    rows: Seq<Seq<JsonView>>,
    at: int,
) -> (all: Seq<int>)
    requires
        rows.len() > 0,
        numbers_named_rows(origin, rows.drop_last(), at),
    ensures
        all == if names_something(rows.last(), at) {
            origin.push(rows.len() - 1)
        } else {
            origin
        },
        numbers_named_rows(all, rows, at),
{
    let rest = rows.drop_last();
    let last = rows.len() - 1;
    let all = if names_something(rows.last(), at) {
        origin.push(last)
    } else {
        origin
    };
    assert forall|i: int| 0 <= i < all.len() implies 0 <= #[trigger] all[i] < rows.len()
        && names_something(rows[all[i]], at) by {
        if i < origin.len() {
            assert(all[i] == origin[i]);
            assert(rows[origin[i]] == rest[origin[i]]);
        }
    }
    assert forall|i: int, j: int| 0 <= i < j < all.len() implies all[i] < all[j] by {
        if j < origin.len() {
            assert(origin[i] < origin[j]);
        } else {
            assert(0 <= origin[i] < rest.len());
        }
    }
    assert forall|r: int|
        0 <= r < rows.len() && names_something(#[trigger] rows[r], at) implies all.contains(r) by {
        if r < last {
            assert(rest[r] == rows[r]);
            assert(origin.contains(r));
            let i = choose|i: int| 0 <= i < origin.len() && origin[i] == r;
            assert(all[i] == r);
        } else {
            assert(all[origin.len() as int] == r);
        }
    }
    all
}

/// The properties described are those of the rows that name one, in the order of the rows.
proof fn lemma_properties_of_rows(rows: Seq<Seq<JsonView>>, at: int) -> (origin: Seq<int>)
    requires
        0 <= at,
    ensures
        numbers_named_rows(origin, rows, at),
        properties_at(rows, at).len() == origin.len(),
        forall|i: int|
            0 <= i < origin.len() ==> describes_row(
                #[trigger] properties_at(rows, at)[i],
                rows,
                at,
                origin[i],
            ),
    decreases rows.len(),
{
    if rows.len() == 0 {
        Seq::empty()
    } else {
        let rest = rows.drop_last();
        let before = lemma_properties_of_rows(rest, at);
        let origin = lemma_one_more_row(before, rows, at);
        let items = properties_at(rows, at);
        assert forall|i: int| 0 <= i < origin.len() implies describes_row(
            #[trigger] items[i],
            rows,
            at,
            origin[i],
        ) by {
            if i < before.len() {
                assert(items[i] == properties_at(rest, at)[i]);
                assert(describes_row(properties_at(rest, at)[i], rest, at, before[i]));
                assert(rest[before[i]] == rows[before[i]]);
            } else {
                lemma_description_keys_differ();
                let item = property(rows.last()[at]->String_0, rows.len());
                assert(items[i] == item);
                assert(item->Object_0.dom() =~= set![
                    "name"@,
                    "dataType"@,
                    "nullable"@,
                    "ordinal"@,
                ]);
            }
        }
        origin
    }
}

/// A node label or a relationship type, whatever its kind, database and name, is described with
/// the properties that the rows name: each row with a string under the column `key` gives one item,
/// with that name and the number of the row, the items come in the order of the rows, and there
/// are no others.
pub proof fn law_described_columns_are_the_named_rows(
    database: Seq<char>,
    name: Seq<char>,
    kind: Seq<char>,
    columns: Seq<Seq<char>>,
    rows: Seq<Seq<JsonView>>,
    at: int,
) -> (origin: Seq<int>)
    requires
        0 <= at < columns.len(),
        columns[at] == "key"@,
        forall|j: int| 0 <= j < at ==> columns[j] != "key"@,
    ensures
        numbers_named_rows(origin, rows, at),
        schema_object(database, name, kind, columns, rows) is Object,
        schema_object(database, name, kind, columns, rows)->Object_0["columns"@] is Array,
        schema_object(database, name, kind, columns, rows)->Object_0["columns"@]->Array_0.len()
            == origin.len(),
        forall|i: int|
            0 <= i < origin.len() ==> describes_row(
                #[trigger] schema_object(
                    database,
                    name,
                    kind,
                    columns,
                    rows,
                )->Object_0["columns"@]->Array_0[i],
                rows,
                at,
                origin[i],
            ),
{
    lemma_description_keys_differ();
    columns.index_of_first_ensures("key"@);
    assert(columns.index_of_first("key"@) == Some(at));
    let items = schema_object(
        database,
        name,
        kind,
        columns,
        rows,
    )->Object_0["columns"@]->Array_0;
    assert(items == properties_at(rows, at));
    let origin = lemma_properties_of_rows(rows, at);
    assert forall|i: int| 0 <= i < origin.len() implies describes_row(
        #[trigger] items[i],
        rows,
        at,
        origin[i],
    ) by {
        assert(items[i] == properties_at(rows, at)[i]);
    }
    origin
}

/// Without a column `key` there are no properties to describe.
pub proof fn law_no_key_column_no_properties(
    database: Seq<char>,
    name: Seq<char>,
    kind: Seq<char>,
    columns: Seq<Seq<char>>,
    rows: Seq<Seq<JsonView>>,
)
    requires
        !columns.contains("key"@),
    ensures
        schema_object(database, name, kind, columns, rows) is Object,
        schema_object(database, name, kind, columns, rows)->Object_0["columns"@]
            == JsonView::Array(Seq::empty()),
{
    lemma_description_keys_differ();
    columns.index_of_first_ensures("key"@);
}

/// The other members of a description: the database, the name and the kind as they are given, and
/// nothing about indexes and keys.
pub proof fn law_described_object_is_named(
    database: Seq<char>,
    name: Seq<char>,
    kind: Seq<char>,
    columns: Seq<Seq<char>>,
    rows: Seq<Seq<JsonView>>,
) -> (members: Map<Seq<char>, JsonView>)
    ensures
        schema_object(database, name, kind, columns, rows) == JsonView::Object(members),
        members.dom() == set![
            "schema"@,
            "name"@,
            "kind"@,
            "columns"@,
            "indexes"@,
            "primaryKey"@,
            "foreignKeys"@,
        ],
        members["schema"@] == JsonView::String(database),
        members["name"@] == JsonView::String(name),
        members["kind"@] == JsonView::String(kind),
        members["indexes"@] == JsonView::Array(Seq::empty()),
        members["primaryKey"@] == JsonView::Array(Seq::empty()),
        members["foreignKeys"@] == JsonView::Array(Seq::empty()),
{
    lemma_description_keys_differ();
    let members = schema_object(database, name, kind, columns, rows)->Object_0;
    assert(members.dom() =~= set![
        "schema"@,
        "name"@,
        "kind"@,
        "columns"@,
        "indexes"@,
        "primaryKey"@,
        "foreignKeys"@,
    ]);
    members
}

/// The document holds one schema, under the name of the database, with all objects in their order.
pub proof fn law_document_holds_every_object(database: Seq<char>, objects: Seq<JsonView>) -> (schema:
    Map<Seq<char>, JsonView>)
    ensures
        schema_document(database, objects) is Object,
        schema_document(database, objects)->Object_0.dom() == set!["schemas"@],
        schema_document(database, objects)->Object_0["schemas"@] is Array,
        schema_document(database, objects)->Object_0["schemas"@]->Array_0.len() == 1,
        schema_document(database, objects)->Object_0["schemas"@]->Array_0[0] == JsonView::Object(
            schema,
        ),
        schema.dom() == set!["name"@, "objects"@],
        schema["name"@] == JsonView::String(database),
        schema["objects"@] is Array,
        schema["objects"@]->Array_0.len() == objects.len(),
        forall|i: int|
            0 <= i < objects.len() ==> #[trigger] schema["objects"@]->Array_0[i] == objects[i],
{
    lemma_description_keys_differ();
    let members = schema_document(database, objects)->Object_0;
    assert(members.dom() =~= set!["schemas"@]);
    let schema = members["schemas"@]->Array_0[0]->Object_0;
    assert(schema.dom() =~= set!["name"@, "objects"@]);
    schema
}

/// The strings listed at a position are those of the rows that have one, in the order of the rows.
proof fn lemma_strings_of_rows(rows: Seq<Seq<JsonView>>, at: int) -> (origin: Seq<int>)
    requires
        0 <= at,
    ensures
        numbers_named_rows(origin, rows, at),
        strings_at(rows, at).len() == origin.len(),
        forall|i: int|
            0 <= i < origin.len() ==> JsonView::String(#[trigger] strings_at(rows, at)[i])
                == rows[origin[i]][at],
    decreases rows.len(),
{
    if rows.len() == 0 {
        Seq::empty()
    } else {
        let rest = rows.drop_last();
        let before = lemma_strings_of_rows(rest, at);
        let origin = lemma_one_more_row(before, rows, at);
        let found = strings_at(rows, at);
        assert forall|i: int| 0 <= i < origin.len() implies JsonView::String(#[trigger] found[i])
            == rows[origin[i]][at] by {
            if i < before.len() {
                assert(found[i] == strings_at(rest, at)[i]);
                assert(rest[before[i]] == rows[before[i]]);
            }
        }
        origin
    }
}

/// The names that an answer lists under a column are the strings of its rows there, in the order of
/// the rows, and no others: this is how node labels and relationship types are found.
pub proof fn law_listed_names_are_the_named_rows(
    output: OutputView,
    column: Seq<char>,
    at: int,
) -> (origin: Seq<int>)
    requires
        0 <= at < output.columns.len(),
        output.columns[at] == column,
        forall|j: int| 0 <= j < at ==> output.columns[j] != column,
    ensures
        numbers_named_rows(origin, output.rows, at),
        strings_under(output, column).len() == origin.len(),
        forall|i: int|
            0 <= i < origin.len() ==> JsonView::String(#[trigger] strings_under(output, column)[i])
                == output.rows[origin[i]][at],
{
    output.columns.index_of_first_ensures(column);
    assert(output.columns.index_of_first(column) == Some(at));
    lemma_strings_of_rows(output.rows, at)
}

/// Nothing is listed under a column that an answer does not have.
pub proof fn law_no_column_no_names(output: OutputView, column: Seq<char>)
    requires
        !output.columns.contains(column),
    ensures
        strings_under(output, column).len() == 0,
{
    output.columns.index_of_first_ensures(column);
}

/// The statements that list labels and types, and how many records are wanted of each statement.
pub proof fn law_statements_of_the_walk(name: Seq<char>)
    ensures
        labels_wanted().text == "CALL db.labels() YIELD label RETURN label"@,
        labels_wanted().cap == 1000,
        relationship_types_wanted().text
            == "CALL db.relationshipTypes() YIELD relationshipType RETURN relationshipType"@,
        relationship_types_wanted().cap == 1000,
        label_keys_wanted(name).cap == 100,
        relationship_keys_wanted(name).cap == 100,
{
}

/// One record is wanted of the statement that asks for the version: the one that this engine knows,
/// or that of a server with components.
pub proof fn law_statement_for_the_version(engine: Seq<char>)
    ensures
        version_wanted(engine).cap == 1,
        version_wanted("memgraph"@).text == "SHOW VERSION INFO"@,
        engine != "memgraph"@ ==> version_wanted(engine).text
            == "CALL dbms.components() YIELD name, versions, edition RETURN versions[0] AS version, edition LIMIT 1"@,
{
}

/// The text that a row gives at a position: its string there, or `unknown`.
pub open spec fn known_or_not(output: OutputView, at: int) -> Seq<char> {
    if output.rows.len() > 0 && names_something(output.rows[0], at) {
        output.rows[0][at]->String_0
    } else {
        "unknown"@
    }
}

/// This engine has one version for every answer. Other engines have the version and the edition
/// that the first row gives under the first columns of these names, each of them unknown where it
/// gives no string. Without an answer the engine itself is reported.
pub proof fn law_version_of_an_answer(
    engine: Seq<char>,
    output: OutputView,
    version: int,
    edition: int,
    message: Seq<char>,
)
    requires
        0 <= version <= output.columns.len(),
        forall|j: int| 0 <= j < version ==> output.columns[j] != "version"@,
        version < output.columns.len() ==> output.columns[version] == "version"@,
        0 <= edition <= output.columns.len(),
        forall|j: int| 0 <= j < edition ==> output.columns[j] != "edition"@,
        edition < output.columns.len() ==> output.columns[edition] == "edition"@,
    ensures
        version_told("memgraph"@, output) == "Memgraph"@,
        engine != "memgraph"@ ==> version_told(engine, output) == "Neo4j "@ + (if version
            < output.columns.len() {
            known_or_not(output, version)
        } else {
            "unknown"@
        }) + " ("@ + (if edition < output.columns.len() {
            known_or_not(output, edition)
        } else {
            "unknown"@
        }) + ")"@,
        version_reported(engine, AnswerView::Ok(output)) == version_told(engine, output),
        version_reported(engine, AnswerView::Err(message)) == engine,
{
    output.columns.index_of_first_ensures("version"@);
    output.columns.index_of_first_ensures("edition"@);
    if version < output.columns.len() {
        assert(output.columns.contains(output.columns[version]));
        assert(output.columns.index_of_first("version"@) == Some(version));
    } else {
        assert(!output.columns.contains("version"@));
    }
    if edition < output.columns.len() {
        assert(output.columns.contains(output.columns[edition]));
        assert(output.columns.index_of_first("edition"@) == Some(edition));
    } else {
        assert(!output.columns.contains("edition"@));
    }
}

/// The view of a value has its kind, its text, its items and its members; the views of rows have
/// every cell in its place.
pub proof fn law_views_show_everything(json: Json, items: Seq<Json>, rows: Seq<Vec<Json>>)
    ensures
        json is Null <==> json@ is Null,
        json matches Json::Bool(b) ==> json@ == JsonView::Bool(b),
        json matches Json::Number(numeral) ==> json@ == JsonView::Number(numeral@),
        json matches Json::String(text) ==> json@ == JsonView::String(text@),
        json matches Json::Array(inner) ==> {
            &&& json@ is Array
            &&& json@->Array_0.len() == inner@.len()
            &&& forall|i: int|
                0 <= i < inner@.len() ==> #[trigger] json@->Array_0[i] == inner@[i]@
        },
        json matches Json::Object(object) ==> json@ == JsonView::Object(object@),
        views(items).len() == items.len(),
        forall|i: int| 0 <= i < items.len() ==> #[trigger] views(items)[i] == items[i]@,
        row_views(rows).len() == rows.len(),
        forall|i: int|
            0 <= i < rows.len() ==> (#[trigger] row_views(rows)[i]).len() == rows[i]@.len(),
        forall|i: int, j: int|
            0 <= i < rows.len() && 0 <= j < rows[i]@.len() ==> #[trigger] row_views(rows)[i][j]
                == rows[i]@[j]@,
{
}

/// The member of an object is the one under its key; other values have no members and, but for
/// strings, no text.
pub proof fn law_members_and_texts(json: JsonView, key: Seq<char>)
    ensures
        json is Object && json->Object_0.contains_key(key) ==> json.field(key) == Some(
            json->Object_0[key],
        ),
        !(json is Object && json->Object_0.contains_key(key)) ==> json.field(key) is None,
        json is String ==> json.text() == Some(json->String_0),
        !(json is String) ==> json.text() is None,
{
}

} // verus!
