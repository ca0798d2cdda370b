//! The walk through a graph's schema: which statement is to be asked next, given the answers so
//! far, until the document is complete.

use crate::json::{views, Json, JsonView};
use crate::metadata::{
    column_strings, document_of, label_keys_wanted, label_statement, labels_statement,
    labels_wanted, property_metadata_object, relationship_keys_wanted, relationship_statement,
    relationship_types_statement, relationship_types_wanted, schema_document, schema_object,
    strings_under, Statement, StatementView,
};
use crate::rows::{no_output, OutputView, QueryOutput};
use crate::text::texts;
use vstd::prelude::*;

verus! {

/// What a walk is waiting for.
#[derive(Debug, PartialEq, Eq)]
pub enum Stage {
    /// The list of node labels.
    Labels,
    /// The property keys of the first pending node label.
    Label,
    /// The list of relationship types.
    RelationshipTypes,
    /// The property keys of the first pending relationship type.
    RelationshipType,
}

/// How far a walk has come.
pub struct WalkView {
    pub database: Seq<char>,
    pub stage: Stage,
    pub pending: Seq<Seq<char>>,
    pub objects: Seq<JsonView>,
}

/// What is to be done next.
pub enum WalkStepView {
    Ask(WalkView, StatementView),
    Done(JsonView),
    Failed(Seq<char>),
}

/// The answer to a statement: its outcome or an error message.
pub type AnswerView = Result<OutputView, Seq<char>>;

impl WalkView {
    /// On to the first pending label, or to the relationship types when none is left.
    pub open spec fn next_label(self) -> WalkStepView {
        if self.pending.len() > 0 {
            WalkStepView::Ask(
                WalkView { stage: Stage::Label, ..self },
                label_keys_wanted(self.pending[0]),
            )
        } else {
            WalkStepView::Ask(
                WalkView { stage: Stage::RelationshipTypes, ..self },
                relationship_types_wanted(),
            )
        }
    }

    /// On to the first pending relationship type, or to the end when none is left.
    pub open spec fn next_relationship_type(self) -> WalkStepView {
        if self.pending.len() > 0 {
            WalkStepView::Ask(
                WalkView { stage: Stage::RelationshipType, ..self },
                relationship_keys_wanted(self.pending[0]),
            )
        } else {
            WalkStepView::Done(schema_document(self.database, self.objects))
        }
    }

    /// The first pending name is done: `output` lists its property keys.
    pub open spec fn described(self, kind: Seq<char>, output: OutputView) -> WalkView {
        WalkView {
            pending: self.pending.drop_first(),
            objects: self.objects.push(
                schema_object(self.database, self.pending[0], kind, output.columns, output.rows),
            ),
            ..self
        }
    }

    /// What an answer leads to. An error ends the walk, except that relationship types that
    /// cannot be listed count as none.
    pub open spec fn resumed(self, answer: AnswerView) -> WalkStepView {
        match self.stage {
            Stage::Labels => match answer {
                Ok(output) => WalkView {
                    pending: strings_under(output, "label"@),
                    ..self
                }.next_label(),
                Err(message) => WalkStepView::Failed(message),
            },
            Stage::Label => match answer {
                Ok(output) => self.described("nodeLabel"@, output).next_label(),
                Err(message) => WalkStepView::Failed(message),
            },
            Stage::RelationshipTypes => {
                let output = match answer {
                    Ok(output) => output,
                    Err(_) => no_output(),
                };
                WalkView {
                    pending: strings_under(output, "relationshipType"@),
                    ..self
                }.next_relationship_type()
            },
            Stage::RelationshipType => match answer {
                Ok(output) => self.described("relationshipType"@, output).next_relationship_type(),
                Err(message) => WalkStepView::Failed(message),
            },
        }
    }
}

/// The first step of a walk.
pub open spec fn walk_start(database: Seq<char>) -> WalkStepView {
    WalkStepView::Ask(
        WalkView {
            database,
            stage: Stage::Labels,
            pending: Seq::empty(),
            objects: Seq::empty(),
        },
        labels_wanted(),
    )
}

/// A walk through the schema of a database.
pub struct MetadataWalk {
    database: String,
    stage: Stage,
    names: Vec<String>,
    next: usize,
    objects: Vec<Json>,
}

/// What is to be done next: ask a statement and resume the walk with its answer, or nothing more.
pub enum WalkStep {
    Ask(MetadataWalk, Statement),
    Done(Json),
    Failed(String),
}

impl WalkStep {
    /// The step as a mathematical object.
    pub open spec fn view(&self) -> WalkStepView {
        match self {
            WalkStep::Ask(walk, statement) => WalkStepView::Ask(walk@, statement@),
            WalkStep::Done(document) => WalkStepView::Done(document@),
            WalkStep::Failed(message) => WalkStepView::Failed(message@),
        }
    }
}

/// The answer as a mathematical object.
pub open spec fn answer_view(answer: Result<QueryOutput, String>) -> AnswerView {
    match answer {
        Ok(output) => Ok(output@),
        Err(message) => Err(message@),
    }
}

impl MetadataWalk {
    /// How far the walk has come.
    pub closed spec fn view(&self) -> WalkView {
        WalkView {
            database: self.database@,
            stage: self.stage,
            pending: texts(self.names@).skip(self.next as int),
            objects: views(self.objects@),
        }
    }

    /// A walk that waits for the property keys of a name has that name.
    #[verifier::type_invariant]
    spec fn consistent(self) -> bool {
        &&& self.next <= self.names.len()
        &&& self.stage is Label || self.stage is RelationshipType ==> self.next < self.names.len()
    }

    /// Starts a walk through the schema of `database`; gives the statement to ask first.
    pub fn start(database: &str) -> (r: (MetadataWalk, Statement))
        ensures
            WalkStepView::Ask(r.0@, r.1@) == walk_start(database@),
    {
        let walk = MetadataWalk {
            database: database.to_owned(),
            stage: Stage::Labels,
            names: Vec::new(),
            next: 0,
            objects: Vec::new(),
        };
        assert(walk@.pending =~= Seq::<Seq<char>>::empty());
        assert(walk@.objects =~= Seq::<JsonView>::empty());
        (walk, labels_statement())
    }

    /// On to the first pending label, or to the relationship types when none is left.
    fn next_label(
        database: String,
        names: Vec<String>,
        next: usize,
        objects: Vec<Json>,
    ) -> (r: WalkStep)
        requires
            next <= names@.len(),
        ensures
            r@ == (WalkView {
                database: database@,
                stage: Stage::Label,
                pending: texts(names@).skip(next as int),
                objects: views(objects@),
            }).next_label(),
    {
        if next < names.len() {
            let statement = label_statement(names[next].as_str());
            WalkStep::Ask(
                MetadataWalk { database, stage: Stage::Label, names, next, objects },
                statement,
            )
        } else {
            WalkStep::Ask(
                MetadataWalk { database, stage: Stage::RelationshipTypes, names, next, objects },
                relationship_types_statement(),
            )
        }
    }

    /// On to the first pending relationship type, or to the end when none is left.
    fn next_relationship_type(
        database: String,
        names: Vec<String>,
        next: usize,
        objects: Vec<Json>,
    ) -> (r: WalkStep)
        requires
            next <= names@.len(),
        ensures
            r@ == (WalkView {
                database: database@,
                stage: Stage::RelationshipType,
                pending: texts(names@).skip(next as int),
                objects: views(objects@),
            }).next_relationship_type(),
    {
        if next < names.len() {
            let statement = relationship_statement(names[next].as_str());
            WalkStep::Ask(
                MetadataWalk { database, stage: Stage::RelationshipType, names, next, objects },
                statement,
            )
        } else {
            WalkStep::Done(document_of(database.as_str(), objects))
        }
    }

    /// Goes on with the answer to the statement that was asked last.
    pub fn resume(self, answer: Result<QueryOutput, String>) -> (r: WalkStep)
        ensures
            r@ == self@.resumed(answer_view(answer)),
    {
        proof {
            use_type_invariant(&self);
        }
        let ghost before = self@;
        let MetadataWalk { database, stage, names, next, objects } = self;
        match stage {
            Stage::Labels => match answer {
                Ok(output) => {
                    let found = column_strings(&output, "label");
                    assert(texts(found@).skip(0) =~= texts(found@));
                    Self::next_label(database, found, 0, objects)
                },
                Err(message) => WalkStep::Failed(message),
            },
            Stage::Label => match answer {
                Ok(output) => {
                    let object = property_metadata_object(
                        database.as_str(),
                        names[next].as_str(),
                        "nodeLabel",
                        output.columns.as_slice(),
                        output.rows,
                    );
                    let mut objects = objects;
                    objects.push(object);
                    assert(views(objects@) =~= before.objects.push(object@));
                    assert(texts(names@).skip(next + 1) =~= before.pending.drop_first());
                    Self::next_label(database, names, next + 1, objects)
                },
                Err(message) => WalkStep::Failed(message),
            },
            Stage::RelationshipTypes => {
                let output = match answer {
                    Ok(output) => output,
                    Err(_) => QueryOutput::default(),
                };
                let found = column_strings(&output, "relationshipType");
                assert(texts(found@).skip(0) =~= texts(found@));
                Self::next_relationship_type(database, found, 0, objects)
            },
            Stage::RelationshipType => match answer {
                Ok(output) => {
                    let object = property_metadata_object(
                        database.as_str(),
                        names[next].as_str(),
                        "relationshipType",
                        output.columns.as_slice(),
                        output.rows,
                    );
                    let mut objects = objects;
                    objects.push(object);
                    assert(views(objects@) =~= before.objects.push(object@));
                    assert(texts(names@).skip(next + 1) =~= before.pending.drop_first());
                    Self::next_relationship_type(database, names, next + 1, objects)
                },
                Err(message) => WalkStep::Failed(message),
            },
        }
    }
}

} // verus!
