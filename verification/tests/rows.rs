use memgraph_connector::fault::Fault;
use memgraph_connector::json::{Json, Object};
use memgraph_connector::rows::{executed, QueryOutput, ReadStep};

fn record(entries: &[(&str, &str)]) -> Object {
    let mut object = Object::new();
    for (key, text) in entries {
        object.insert(key.to_string(), Json::string(text));
    }
    object
}

fn read(cap: usize, delivered: Vec<Object>) -> Result<QueryOutput, Fault> {
    let mut rows = delivered.into_iter();
    let mut next = None;
    let mut step = executed(cap, Ok(()));
    loop {
        step = match step {
            ReadStep::Fetch(reading) => {
                next = rows.next();
                reading.fetched(Ok(next.is_some()))
            }
            ReadStep::Decode(reading) => reading.decoded(Ok(next.take().unwrap())),
            ReadStep::Done(outcome) => return outcome,
        };
    }
}

#[test]
fn tabulates_records() {
    let output = read(
        10,
        vec![
            record(&[("b", "1"), ("a", "2")]),
            record(&[("c", "3"), ("a", "4")]),
        ],
    )
    .unwrap();
    assert_eq!(output.columns, vec!["a", "b", "c"]);
    assert_eq!(
        output.rows,
        vec![
            vec![Json::string("2"), Json::string("1"), Json::Null],
            vec![Json::string("4"), Json::Null, Json::string("3")],
        ]
    );
    assert!(!output.truncated);
}

#[test]
fn cuts_off_at_the_number_wanted() {
    let records = || vec![record(&[("a", "1")]), record(&[("b", "2")])];
    let output = read(1, records()).unwrap();
    assert_eq!(output.columns, vec!["a"]);
    assert_eq!(output.rows, vec![vec![Json::string("1")]]);
    assert!(output.truncated);
    assert!(!read(2, records()).unwrap().truncated);
    let none = read(0, records()).unwrap();
    assert!(none.rows.is_empty() && none.columns.is_empty() && none.truncated);
    assert_eq!(read(0, Vec::new()).unwrap(), QueryOutput::default());
}

#[test]
fn a_row_too_many_is_not_decoded() {
    let step = executed(0, Ok(()));
    let step = match step {
        ReadStep::Fetch(reading) => reading.fetched(Ok(true)),
        other => other,
    };
    assert!(matches!(step, ReadStep::Done(Ok(output)) if output.truncated));
}

#[test]
fn failures_end_the_reading() {
    let text = || "broken".to_string();
    assert!(matches!(
        executed(1, Err(text())),
        ReadStep::Done(Err(Fault::Execute(message))) if message == "broken"
    ));
    let fetching = |cap: usize| match executed(cap, Ok(())) {
        ReadStep::Fetch(reading) => reading,
        _ => panic!("executed"),
    };
    assert!(matches!(
        fetching(1).fetched(Err(text())),
        ReadStep::Done(Err(Fault::Fetch(message))) if message == "broken"
    ));
    let decoding = match fetching(1).fetched(Ok(true)) {
        ReadStep::Decode(reading) => reading,
        _ => panic!("fetched"),
    };
    assert!(matches!(
        decoding.decoded(Err(text())),
        ReadStep::Done(Err(Fault::Decode(message))) if message == "broken"
    ));
}

#[test]
fn faults_have_messages() {
    let text = || "x".to_string();
    for (fault, message) in [
        (Fault::Runtime(text()), "create tokio runtime failed: x"),
        (Fault::NoRuntime, "create tokio runtime failed."),
        (Fault::Config(text()), "failed to build memgraph config: x"),
        (Fault::Connect(text()), "failed to connect to memgraph: x"),
        (Fault::Execute(text()), "memgraph query execution failed: x"),
        (Fault::Fetch(text()), "failed to fetch memgraph row: x"),
        (Fault::Decode(text()), "failed to decode memgraph row: x"),
    ] {
        assert_eq!(fault.message(), message);
    }
}

#[test]
fn a_larger_number_wanted_extends_the_table() {
    let records = || {
        vec![
            record(&[("b", "1")]),
            record(&[("a", "2"), ("b", "3")]),
            record(&[("c", "4")]),
        ]
    };
    for fewer in 0..4 {
        for more in fewer..5 {
            let small = read(fewer, records()).unwrap();
            let large = read(more, records()).unwrap();
            assert!(large.columns.starts_with(&small.columns));
            assert!(small.rows.len() <= large.rows.len());
            for (short, long) in small.rows.iter().zip(&large.rows) {
                assert!(long.starts_with(short));
            }
            assert!(small.truncated || !large.truncated);
        }
    }
}
