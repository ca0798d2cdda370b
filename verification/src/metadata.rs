//! The schema of a graph: the statements that ask for it, and the document made of the answers.

use crate::json::{views, Json, JsonView, Object};
use crate::rows::{row_views, OutputView, QueryOutput};
use crate::text::{decimal, decimal_of, replace, replaced, same, texts};
use vstd::prelude::*;
use vstd::string::*;

verus! {

/// What a statement is, and how many records are wanted of it.
pub struct StatementView {
    pub text: Seq<char>,
    pub cap: nat,
}

/// A Cypher statement, and how many records are wanted of it.
#[derive(Debug, PartialEq, Eq)]
pub struct Statement {
    pub text: String,
    pub cap: usize,
}

impl Statement {
    /// The statement as a mathematical object.
    pub open spec fn view(&self) -> StatementView {
        StatementView { text: self.text@, cap: self.cap as nat }
    }
}

/// A name as it is written between back quotes: each back quote in it is doubled.
pub open spec fn escaped(name: Seq<char>) -> Seq<char> {
    replaced(name, "`"@, "``"@)
}

/// The statement that lists the node labels.
pub open spec fn labels_wanted() -> StatementView {
    StatementView { text: "CALL db.labels() YIELD label RETURN label"@, cap: 1000 }
}

/// The statement that lists the relationship types.
pub open spec fn relationship_types_wanted() -> StatementView {
    StatementView {
        text: "CALL db.relationshipTypes() YIELD relationshipType RETURN relationshipType"@,
        cap: 1000,
    }
}

/// The statement that lists the property keys of the nodes with a label.
pub open spec fn label_keys_wanted(label: Seq<char>) -> StatementView {
    StatementView {
        text: "MATCH (n:`"@ + escaped(label)
            + "`) UNWIND keys(n) AS key RETURN DISTINCT key LIMIT 100"@,
        cap: 100,
    }
}

/// The statement that lists the property keys of the relationships of a type.
pub open spec fn relationship_keys_wanted(rel_type: Seq<char>) -> StatementView {
    StatementView {
        text: "MATCH ()-[r:`"@ + escaped(rel_type)
            + "`]->() UNWIND keys(r) AS key RETURN DISTINCT key LIMIT 100"@,
        cap: 100,
    }
}

/// The string in a row at a position, if there is one.
pub open spec fn string_at(row: Seq<JsonView>, at: int) -> Option<Seq<char>> {
    if at < row.len() {
        row[at].text()
    } else {
        None
    }
}

/// The strings of the rows at a position, in the order of the rows.
pub open spec fn strings_at(rows: Seq<Seq<JsonView>>, at: int) -> Seq<Seq<char>>
    decreases rows.len(),
{
    if rows.len() == 0 {
        Seq::empty()
    } else {
        match string_at(rows.last(), at) {
            Some(text) => strings_at(rows.drop_last(), at).push(text),
            None => strings_at(rows.drop_last(), at),
        }
    }
}

/// The strings under a column, in the order of the rows; none without such a column.
pub open spec fn strings_under(output: OutputView, column: Seq<char>) -> Seq<Seq<char>> {
    match output.columns.index_of_first(column) {
        Some(at) => strings_at(output.rows, at),
        None => Seq::empty(),
    }
}

/// The description of a property.
pub open spec fn property(name: Seq<char>, ordinal: nat) -> JsonView {
    JsonView::Object(
        map![
            "name"@ => JsonView::String(name),
            "dataType"@ => JsonView::String("property"@),
            "nullable"@ => JsonView::Bool(true),
            "ordinal"@ => JsonView::Number(decimal(ordinal)),
        ],
    )
}

/// The descriptions of the properties that the rows name at a position. A property's ordinal is
/// the number of its row, counted from one over all rows.
pub open spec fn properties_at(rows: Seq<Seq<JsonView>>, at: int) -> Seq<JsonView>
    decreases rows.len(),
{
    if rows.len() == 0 {
        Seq::empty()
    } else {
        match string_at(rows.last(), at) {
            Some(name) => properties_at(rows.drop_last(), at).push(property(name, rows.len())),
            None => properties_at(rows.drop_last(), at),
        }
    }
}

/// The descriptions of the properties that an answer names under the column `key`.
pub open spec fn properties(
    columns: Seq<Seq<char>>,
    rows: Seq<Seq<JsonView>>,
) -> Seq<JsonView> {
    match columns.index_of_first("key"@) {
        Some(at) => properties_at(rows, at),
        None => Seq::empty(),
    }
}

/// The description of a node label or relationship type.
pub open spec fn schema_object(
    database: Seq<char>,
    name: Seq<char>,
    kind: Seq<char>,
    columns: Seq<Seq<char>>,
    rows: Seq<Seq<JsonView>>,
) -> JsonView {
    JsonView::Object(
        map![
            "schema"@ => JsonView::String(database),
            "name"@ => JsonView::String(name),
            "kind"@ => JsonView::String(kind),
            "columns"@ => JsonView::Array(properties(columns, rows)),
            "indexes"@ => JsonView::Array(Seq::empty()),
            "primaryKey"@ => JsonView::Array(Seq::empty()),
            "foreignKeys"@ => JsonView::Array(Seq::empty()),
        ],
    )
}

/// The document that describes a database by its objects.
pub open spec fn schema_document(database: Seq<char>, objects: Seq<JsonView>) -> JsonView {
    JsonView::Object(
        map![
            "schemas"@ => JsonView::Array(
                seq![
                    JsonView::Object(
                        map![
                            "name"@ => JsonView::String(database),
                            "objects"@ => JsonView::Array(objects),
                        ],
                    ),
                ],
            ),
        ],
    )
}

/// A name as it is written between back quotes.
pub fn escape_name(name: &str) -> (r: String)
    ensures
        r@ == escaped(name@),
{
    replace(name, "`", "``")
}

/// The statement that lists the node labels.
pub fn labels_statement() -> (r: Statement)
    ensures
        r@ == labels_wanted(),
{
    Statement { text: "CALL db.labels() YIELD label RETURN label".to_owned(), cap: 1000 }
}

/// The statement that lists the relationship types.
pub fn relationship_types_statement() -> (r: Statement)
    ensures
        r@ == relationship_types_wanted(),
{
    Statement {
        text:
            "CALL db.relationshipTypes() YIELD relationshipType RETURN relationshipType".to_owned(),
        cap: 1000,
    }
}

/// The statement that lists the property keys of the nodes with a label.
pub fn label_statement(label: &str) -> (r: Statement)
    ensures
        r@ == label_keys_wanted(label@),
{
    let mut text = "MATCH (n:`".to_owned();
    text.append(escape_name(label).as_str());
    text.append("`) UNWIND keys(n) AS key RETURN DISTINCT key LIMIT 100");
    Statement { text, cap: 100 }
}

/// The statement that lists the property keys of the relationships of a type.
pub fn relationship_statement(rel_type: &str) -> (r: Statement)
    ensures
        r@ == relationship_keys_wanted(rel_type@),
{
    let mut text = "MATCH ()-[r:`".to_owned();
    text.append(escape_name(rel_type).as_str());
    text.append("`]->() UNWIND keys(r) AS key RETURN DISTINCT key LIMIT 100");
    Statement { text, cap: 100 }
}

/// The position of the first column of a name.
pub fn column_index(columns: &[String], name: &str) -> (r: Option<usize>)
    ensures
        r is Some <==> texts(columns@).index_of_first(name@) is Some,
        r matches Some(at) ==> texts(columns@).index_of_first(name@) == Some(at as int),
        r matches Some(at) ==> at < columns@.len(),
{
    let ghost all = texts(columns@);
    proof {
        all.index_of_first_ensures(name@);
    }
    let n: usize = columns.len();
    let mut i: usize = 0;
    while i < n
        invariant
            i <= n,
            n == columns@.len(),
            all == texts(columns@),
            forall|j: int| 0 <= j < i ==> (#[trigger] all[j]) != name@,
        decreases n - i,
    {
        if same(columns[i].as_str(), name) {
            proof {
                assert(all[i as int] == name@);
                all.index_of_first_ensures(name@);
            }
            return Some(i);
        }
        assert(all[i as int] != name@);
        i = i + 1;
    }
    None
}

/// The string in a row at a position, if there is one.
pub fn string_in(row: &Vec<Json>, at: usize) -> (r: Option<&str>)
    ensures
        r is Some <==> string_at(views(row@), at as int) is Some,
        r matches Some(text) ==> text@ == string_at(views(row@), at as int)->0,
{
    if at < row.len() {
        row[at].as_str()
    } else {
        None
    }
}

/// The strings under a column, in the order of the rows; none without such a column.
pub fn column_strings(output: &QueryOutput, column: &str) -> (r: Vec<String>)
    ensures
        texts(r@) == strings_under(output@, column@),
{
    let mut found: Vec<String> = Vec::new();
    assert(texts(found@) =~= Seq::<Seq<char>>::empty());
    if let Some(at) = column_index(output.columns.as_slice(), column) {
        let ghost all = row_views(output.rows@);
        let n: usize = output.rows.len();
        let mut i: usize = 0;
        while i < n
            invariant
                i <= n,
                n == output.rows@.len(),
                all == row_views(output.rows@),
                texts(found@) == strings_at(all.take(i as int), at as int),
            decreases n - i,
        {
            assert(all.take(i + 1).drop_last() =~= all.take(i as int));
            assert(all.take(i + 1).last() == views(output.rows@[i as int]@));
            if let Some(text) = string_in(&output.rows[i], at) {
                let ghost before = texts(found@);
                found.push(text.to_owned());
                assert(texts(found@) =~= before.push(text@));
            }
            i = i + 1;
        }
        assert(all.take(n as int) =~= all);
    }
    found
}

/// A value without items.
fn empty_array() -> (r: Json)
    ensures
        r@ == JsonView::Array(Seq::empty()),
{
    let items: Vec<Json> = Vec::new();
    assert(views(items@) =~= Seq::<JsonView>::empty());
    Json::Array(items)
}

/// The description of a property.
fn property_value(name: &str, ordinal: usize) -> (r: Json)
    ensures
        r@ == property(name@, ordinal as nat),
{
    let mut members = Object::new();
    members.insert("name".to_owned(), Json::string(name));
    members.insert("dataType".to_owned(), Json::string("property"));
    members.insert("nullable".to_owned(), Json::Bool(true));
    members.insert("ordinal".to_owned(), Json::Number(decimal_of(ordinal)));
    Json::Object(members)
}

/// The description of a node label or relationship type, made of the answer that lists its
/// property keys.
pub fn property_metadata_object(
    database: &str,
    name: &str,
    kind: &str,
    columns: &[String],
    rows: Vec<Vec<Json>>,
) -> (r: Json)
    ensures
        r@ == schema_object(database@, name@, kind@, texts(columns@), row_views(rows@)),
{
    let mut described: Vec<Json> = Vec::new();
    assert(views(described@) =~= Seq::<JsonView>::empty());
    if let Some(at) = column_index(columns, "key") {
        let ghost all = row_views(rows@);
        let n: usize = rows.len();
        let mut i: usize = 0;
        while i < n
            invariant
                i <= n,
                n == rows.len(),
                all == row_views(rows@),
                views(described@) == properties_at(all.take(i as int), at as int),
            decreases n - i,
        {
            assert(all.take(i + 1).drop_last() =~= all.take(i as int));
            assert(all.take(i + 1).last() == views(rows@[i as int]@));
            if let Some(key) = string_in(&rows[i], at) {
                let ghost before = views(described@);
                let value = property_value(key, i + 1);
                described.push(value);
                assert(views(described@) =~= before.push(value@));
            }
            i = i + 1;
        }
        assert(all.take(n as int) =~= all);
    }
    let mut members = Object::new();
    members.insert("schema".to_owned(), Json::string(database));
    members.insert("name".to_owned(), Json::string(name));
    members.insert("kind".to_owned(), Json::string(kind));
    members.insert("columns".to_owned(), Json::Array(described));
    members.insert("indexes".to_owned(), empty_array());
    members.insert("primaryKey".to_owned(), empty_array());
    members.insert("foreignKeys".to_owned(), empty_array());
    Json::Object(members)
}

/// The document that describes a database by its objects.
pub(crate) fn document_of(database: &str, objects: Vec<Json>) -> (r: Json)
    ensures
        r@ == schema_document(database@, views(objects@)),
{
    let mut schema = Object::new();
    schema.insert("name".to_owned(), Json::string(database));
    schema.insert("objects".to_owned(), Json::Array(objects));
    let mut schemas: Vec<Json> = Vec::new();
    let ghost members = schema@;
    schemas.push(Json::Object(schema));
    assert(views(schemas@) =~= seq![JsonView::Object(members)]);
    let mut document = Object::new();
    document.insert("schemas".to_owned(), Json::Array(schemas));
    Json::Object(document)
}

} // verus!
