use memgraph_connector::json::Json;
use memgraph_connector::metadata::{
    column_index, column_strings, escape_name, label_statement, labels_statement,
    property_metadata_object, relationship_statement, relationship_types_statement, string_in,
    Statement,
};
use memgraph_connector::parse::document;
use memgraph_connector::rows::QueryOutput;
use memgraph_connector::version::{load_version, version_statement};
use memgraph_connector::walk::{MetadataWalk, WalkStep};

fn column(name: &str, cells: Vec<Json>) -> QueryOutput {
    QueryOutput {
        columns: vec![name.to_string()],
        rows: cells.into_iter().map(|cell| vec![cell]).collect(),
        truncated: false,
    }
}

fn strings(name: &str, texts: &[&str]) -> QueryOutput {
    column(name, texts.iter().map(|text| Json::string(text)).collect())
}

#[test]
fn builds_property_metadata_object() {
    let columns = vec!["key".to_string()];
    let rows = vec![vec![Json::string("name")], vec![Json::string("age")]];
    let metadata = property_metadata_object("neo4j", "Person", "nodeLabel", &columns, rows);
    assert_eq!(metadata.get("name"), Some(&Json::string("Person")));
    let Some(Json::Array(described)) = metadata.get("columns") else {
        panic!("columns is an array");
    };
    assert_eq!(described[1].get("name"), Some(&Json::string("age")));
}

#[test]
fn numbers_properties_by_their_rows() {
    let columns = vec!["other".to_string(), "key".to_string()];
    let rows = vec![
        vec![Json::Null, Json::string("name")],
        vec![Json::string("short")],
        vec![Json::Null, Json::Bool(true)],
        vec![Json::Null, Json::string("age")],
    ];
    assert_eq!(
        property_metadata_object("db", "Person", "nodeLabel", &columns, rows),
        document(
            r#"{
                "schema": "db", "name": "Person", "kind": "nodeLabel",
                "columns": [
                    {"name": "name", "dataType": "property", "nullable": true, "ordinal": 1},
                    {"name": "age", "dataType": "property", "nullable": true, "ordinal": 4}
                ],
                "indexes": [], "primaryKey": [], "foreignKeys": []
            }"#
        )
    );
    let nothing =
        property_metadata_object("db", "P", "nodeLabel", &[], vec![vec![Json::string("name")]]);
    assert_eq!(nothing.get("columns"), Some(&Json::Array(Vec::new())));
}

#[test]
fn escapes_names_in_statements() {
    assert_eq!(escape_name("a`b``"), "a``b````");
    assert_eq!(escape_name("plain"), "plain");
    assert_eq!(
        label_statement("a`b"),
        Statement {
            text: "MATCH (n:`a``b`) UNWIND keys(n) AS key RETURN DISTINCT key LIMIT 100"
                .to_string(),
            cap: 100,
        }
    );
    assert_eq!(
        relationship_statement("KNOWS").text,
        "MATCH ()-[r:`KNOWS`]->() UNWIND keys(r) AS key RETURN DISTINCT key LIMIT 100"
    );
}

#[test]
fn finds_strings_under_columns() {
    let output = column(
        "label",
        vec![Json::string("A"), Json::Null, Json::string("B")],
    );
    assert_eq!(column_strings(&output, "label"), vec!["A", "B"]);
    assert!(column_strings(&output, "other").is_empty());
    let twice = vec!["a".to_string(), "b".to_string(), "a".to_string()];
    assert_eq!(column_index(&twice, "a"), Some(0));
    assert_eq!(column_index(&twice, "c"), None);
    assert_eq!(string_in(&vec![Json::Null], 0), None);
    assert_eq!(string_in(&vec![Json::string("x")], 1), None);
}

fn walk(answers: Vec<Result<QueryOutput, String>>) -> (Vec<String>, Option<WalkStep>) {
    let mut asked = Vec::new();
    let (first, statement) = MetadataWalk::start("db");
    let mut step = WalkStep::Ask(first, statement);
    for answer in answers {
        step = match step {
            WalkStep::Ask(walk, statement) => {
                asked.push(statement.text);
                walk.resume(answer)
            }
            done => return (asked, Some(done)),
        };
    }
    (asked, Some(step))
}

#[test]
fn walks_through_the_schema() {
    let (asked, step) = walk(vec![
        Ok(strings("label", &["Person"])),
        Ok(strings("key", &["name"])),
        Ok(strings("relationshipType", &["KNOWS"])),
        Ok(strings("key", &[])),
    ]);
    assert_eq!(
        asked,
        vec![
            labels_statement().text,
            label_statement("Person").text,
            relationship_types_statement().text,
            relationship_statement("KNOWS").text,
        ]
    );
    let Some(WalkStep::Done(json)) = step else {
        panic!("the walk is done");
    };
    assert_eq!(
        json,
        document(
            r#"{"schemas": [{"name": "db", "objects": [
                {"schema": "db", "name": "Person", "kind": "nodeLabel",
                 "columns": [
                    {"name": "name", "dataType": "property", "nullable": true, "ordinal": 1}
                 ],
                 "indexes": [], "primaryKey": [], "foreignKeys": []},
                {"schema": "db", "name": "KNOWS", "kind": "relationshipType",
                 "columns": [], "indexes": [], "primaryKey": [], "foreignKeys": []}
            ]}]}"#
        )
    );
}

#[test]
fn unlisted_relationship_types_count_as_none() {
    let (_, step) = walk(vec![
        Ok(QueryOutput::default()),
        Err("no such procedure".to_string()),
    ]);
    let Some(WalkStep::Done(json)) = step else {
        panic!("the walk is done");
    };
    assert_eq!(
        json,
        document(r#"{"schemas": [{"name": "db", "objects": []}]}"#)
    );
}

#[test]
fn errors_end_the_walk() {
    let broken = || Err("broken".to_string());
    for answers in [
        vec![broken()],
        vec![Ok(strings("label", &["A", "B"])), Ok(strings("key", &[])), broken()],
        vec![
            Ok(QueryOutput::default()),
            Ok(strings("relationshipType", &["R"])),
            broken(),
        ],
        vec![
            Ok(strings("label", &["A"])),
            Ok(strings("key", &["k"])),
            Ok(strings("relationshipType", &["R", "S"])),
            Ok(strings("key", &[])),
            broken(),
            Ok(strings("key", &[])),
        ],
    ] {
        let (_, step) = walk(answers);
        assert!(matches!(step, Some(WalkStep::Failed(message)) if message == "broken"));
    }
}

#[test]
fn lists_are_capped() {
    assert_eq!(labels_statement().cap, 1000);
    assert_eq!(relationship_types_statement().cap, 1000);
    assert_eq!(relationship_statement("R").cap, 100);
}

#[test]
fn versions_by_engine() {
    let output = QueryOutput {
        columns: vec!["version".to_string(), "edition".to_string()],
        rows: vec![vec![Json::string("5.1"), Json::Null]],
        truncated: false,
    };
    let empty = QueryOutput::default();
    let told = |text: &str| Ok(text.to_string());
    assert_eq!(load_version("memgraph", Ok(empty)), told("Memgraph"));
    assert_eq!(load_version("neo4j", Ok(output)), told("Neo4j 5.1 (unknown)"));
    assert_eq!(
        load_version("neo4j", Ok(QueryOutput::default())),
        told("Neo4j unknown (unknown)")
    );
    for engine in ["memgraph", "neo4j"] {
        let refused = load_version(engine, Err("x".to_string()));
        assert_eq!(refused, Err("x".to_string()));
    }
    assert_eq!(version_statement("memgraph").text, "SHOW VERSION INFO");
    assert_eq!(version_statement("memgraph").cap, 1);
    assert!(version_statement("neo4j").text.starts_with("CALL dbms.components()"));
}

#[test]
fn escaped_names_read_back() {
    let names = ["", "plain", "`", "``", "a`b", "`a``b`", "a``b"];
    for a in names {
        assert_eq!(escape_name(a).replace("``", "`"), a);
        for b in names {
            assert_eq!(escape_name(a) == escape_name(b), a == b);
        }
    }
    assert_eq!(
        relationship_statement("`").text,
        "MATCH ()-[r:````]->() UNWIND keys(r) AS key RETURN DISTINCT key LIMIT 100"
    );
}

#[test]
fn strings_of_several_rows_keep_their_order() {
    let columns = vec!["key".to_string(), "key".to_string()];
    let rows = vec![
        vec![Json::string("b"), Json::string("x")],
        vec![Json::string("a"), Json::string("y")],
    ];
    let metadata = property_metadata_object("db", "L", "nodeLabel", &columns, rows);
    let Some(Json::Array(described)) = metadata.get("columns") else {
        panic!("columns is an array");
    };
    assert_eq!(described[0].get("name"), Some(&Json::string("b")));
    assert_eq!(
        described[1].get("ordinal"),
        Some(&Json::Number("2".to_string()))
    );
}
