//! What the description of a schema holds, and how a walk comes to it.

use crate::json::JsonView;
use crate::metadata::{
    label_keys_wanted, labels_wanted, properties_at, property, relationship_keys_wanted,
    relationship_types_wanted, schema_document, schema_object, string_at, strings_under,
    StatementView,
};
use crate::rows::{no_output, OutputView};
use crate::walk::{walk_start, AnswerView, Stage, WalkStepView, WalkView};
use vstd::prelude::*;

verus! {

/// Goes on with a walk, one answer after the other, until it ends or the answers do.
pub open spec fn walked(step: WalkStepView, answers: Seq<AnswerView>) -> WalkStepView
    decreases answers.len(),
{
    match step {
        WalkStepView::Ask(walk, _) => if answers.len() == 0 {
            step
        } else {
            walked(walk.resumed(answers[0]), answers.drop_first())
        },
        _ => step,
    }
}

/// The statements that a walk asks, given the answers, up to the first that is not answered.
pub open spec fn asked(step: WalkStepView, answers: Seq<AnswerView>) -> Seq<StatementView>
    decreases answers.len(),
{
    match step {
        WalkStepView::Ask(walk, statement) => if answers.len() == 0 {
            seq![statement]
        } else {
            seq![statement] + asked(walk.resumed(answers[0]), answers.drop_first())
        },
        _ => Seq::empty(),
    }
}

/// The descriptions of names, given an answer for each that lists its property keys.
pub open spec fn described_all(
    database: Seq<char>,
    kind: Seq<char>,
    names: Seq<Seq<char>>,
    outputs: Seq<OutputView>,
) -> Seq<JsonView> {
    Seq::new(
        names.len(),
        |i: int|
            schema_object(database, names[i], kind, outputs[i].columns, outputs[i].rows),
    )
}

/// The answers of statements that all succeed.
pub open spec fn succeeded(outputs: Seq<OutputView>) -> Seq<AnswerView> {
    outputs.map_values(|output: OutputView| Ok::<OutputView, Seq<char>>(output))
}

/// The outcome of a statement whose failure counts as an empty outcome.
pub open spec fn output_or_none(answer: AnswerView) -> OutputView {
    match answer {
        Ok(output) => output,
        Err(_) => no_output(),
    }
}

/// The step at which a walk asks about the first of `names`, or goes on when there is none.
spec fn at_names(walk: WalkView, labels: bool) -> WalkStepView {
    if labels {
        walk.next_label()
    } else {
        walk.next_relationship_type()
    }
}

/// The kind of the objects that a walk describes.
spec fn kind_of(labels: bool) -> Seq<char> {
    if labels {
        "nodeLabel"@
    } else {
        "relationshipType"@
    }
}

/// The statement about a name.
spec fn about(labels: bool, name: Seq<char>) -> StatementView {
    if labels {
        label_keys_wanted(name)
    } else {
        relationship_keys_wanted(name)
    }
}

/// Answers for the first pending names bring a walk past them, with a description of each.
proof fn lemma_names_walked(
    walk: WalkView,
    labels: bool,
    outputs: Seq<OutputView>,
    answers: Seq<AnswerView>,
)
    requires
        outputs.len() <= walk.pending.len(),
    ensures
        ({
            let n = outputs.len() as int;
            let objects = walk.objects + described_all(
                walk.database,
                kind_of(labels),
                walk.pending.take(n),
                outputs,
            );
            let after = at_names(
                WalkView { pending: walk.pending.skip(n), objects, ..walk },
                labels,
            );
            let all = succeeded(outputs) + answers;
            &&& walked(at_names(walk, labels), all) == walked(after, answers)
            &&& asked(at_names(walk, labels), all) == walk.pending.take(n).map_values(
                |name: Seq<char>| about(labels, name),
            ) + asked(after, answers)
        }),
    decreases outputs.len(),
{
    let n = outputs.len() as int;
    let objects = walk.objects + described_all(
        walk.database,
        kind_of(labels),
        walk.pending.take(n),
        outputs,
    );
    let after = at_names(WalkView { pending: walk.pending.skip(n), objects, ..walk }, labels);
    let all = succeeded(outputs) + answers;
    let statements = walk.pending.take(n).map_values(|name: Seq<char>| about(labels, name));
    if outputs.len() == 0 {
        assert(walk.pending.skip(0) =~= walk.pending);
        assert(objects =~= walk.objects);
        assert(all =~= answers);
        assert(statements + asked(after, answers) =~= asked(after, answers));
        assert(at_names(walk, labels) == after);
    } else {
        let stage = if labels {
            Stage::Label
        } else {
            Stage::RelationshipType
        };
        let waiting = WalkView { stage, ..walk };
        let next = waiting.described(kind_of(labels), outputs[0]);
        let rest = outputs.drop_first();
        assert(all[0] == Ok::<OutputView, Seq<char>>(outputs[0]));
        assert(all.drop_first() =~= succeeded(rest) + answers);
        assert(waiting.resumed(all[0]) == at_names(next, labels));
        lemma_names_walked(next, labels, rest, answers);
        assert(next.pending.skip(n - 1) =~= walk.pending.skip(n));
        assert(next.objects + described_all(
            walk.database,
            kind_of(labels),
            next.pending.take(n - 1),
            rest,
        ) =~= objects);
        let next_after = at_names(
            WalkView { pending: walk.pending.skip(n), objects, ..next },
            labels,
        );
        assert(next_after == after);
        let next_statements = next.pending.take(n - 1).map_values(
            |name: Seq<char>| about(labels, name),
        );
        assert(seq![about(labels, walk.pending[0])] + next_statements =~= statements);
        assert(seq![about(labels, walk.pending[0])] + (next_statements + asked(after, answers))
            =~= statements + asked(after, answers));
    }
}

/// Answers for all pending names bring a walk past them, with a description of each.
proof fn lemma_all_names_walked(
    walk: WalkView,
    labels: bool,
    outputs: Seq<OutputView>,
    answers: Seq<AnswerView>,
)
    requires
        outputs.len() == walk.pending.len(),
    ensures
        ({
            let objects = walk.objects + described_all(
                walk.database,
                kind_of(labels),
                walk.pending,
                outputs,
            );
            let after = at_names(
                WalkView { pending: Seq::empty(), objects, ..walk },
                labels,
            );
            let all = succeeded(outputs) + answers;
            &&& walked(at_names(walk, labels), all) == walked(after, answers)
            &&& asked(at_names(walk, labels), all) == walk.pending.map_values(
                |name: Seq<char>| about(labels, name),
            ) + asked(after, answers)
        }),
{
    let n = outputs.len() as int;
    lemma_names_walked(walk, labels, outputs, answers);
    assert(walk.pending.take(n) =~= walk.pending);
    assert(walk.pending.skip(n) =~= Seq::<Seq<char>>::empty());
}

/// A walk whose statements all succeed, but perhaps the one that lists the relationship types,
/// ends with a description of each node label and then of each relationship type, in the order
/// in which they were listed. It asks for the labels, then about each label, then for the
/// relationship types, then about each type.
pub proof fn law_walk_describes_everything(
    database: Seq<char>,
    labels: OutputView,
    label_keys: Seq<OutputView>,
    types: AnswerView,
    type_keys: Seq<OutputView>,
)
    requires
        label_keys.len() == strings_under(labels, "label"@).len(),
        type_keys.len() == strings_under(output_or_none(types), "relationshipType"@).len(),
    ensures
        ({
            let label_names = strings_under(labels, "label"@);
            let type_names = strings_under(output_or_none(types), "relationshipType"@);
            let answers = seq![Ok::<OutputView, Seq<char>>(labels)] + (succeeded(label_keys) + (
            seq![types] + succeeded(type_keys)));
            &&& walked(walk_start(database), answers) == WalkStepView::Done(
                schema_document(
                    database,
                    described_all(database, "nodeLabel"@, label_names, label_keys) + described_all(
                        database,
                        "relationshipType"@,
                        type_names,
                        type_keys,
                    ),
                ),
            )
            &&& asked(walk_start(database), answers) == seq![labels_wanted()]
                + label_names.map_values(|name: Seq<char>| label_keys_wanted(name))
                + seq![relationship_types_wanted()] + type_names.map_values(
                |name: Seq<char>| relationship_keys_wanted(name),
            )
        }),
{
    let label_names = strings_under(labels, "label"@);
    let type_names = strings_under(output_or_none(types), "relationshipType"@);
    let late = seq![types] + succeeded(type_keys);
    let middle = succeeded(label_keys) + late;
    let answers = seq![Ok::<OutputView, Seq<char>>(labels)] + middle;
    let start = walk_start(database)->Ask_0;
    let listed = WalkView { pending: label_names, ..start };
    assert(answers[0] == Ok::<OutputView, Seq<char>>(labels));
    assert(answers.drop_first() =~= middle);
    assert(start.resumed(answers[0]) == at_names(listed, true));
    lemma_all_names_walked(listed, true, label_keys, late);
    let label_objects = described_all(database, "nodeLabel"@, label_names, label_keys);
    assert(listed.objects + label_objects =~= label_objects);
    let between = WalkView {
        pending: Seq::empty(),
        objects: label_objects,
        stage: Stage::RelationshipTypes,
        ..listed
    };
    let types_listed = WalkView { pending: type_names, ..between };
    assert(late[0] == types);
    assert(late.drop_first() =~= succeeded(type_keys));
    assert(between.resumed(types) == at_names(types_listed, false));
    let none = Seq::<AnswerView>::empty();
    lemma_all_names_walked(types_listed, false, type_keys, none);
    assert(succeeded(type_keys) + none =~= succeeded(type_keys));
    let label_statements = label_names.map_values(|name: Seq<char>| label_keys_wanted(name));
    let type_statements = type_names.map_values(|name: Seq<char>| relationship_keys_wanted(name));
    assert(label_names.map_values(|name: Seq<char>| about(true, name)) =~= label_statements);
    assert(type_names.map_values(|name: Seq<char>| about(false, name)) =~= type_statements);
    let end = at_names(
        WalkView {
            pending: Seq::empty(),
            objects: label_objects + described_all(
                database,
                "relationshipType"@,
                type_names,
                type_keys,
            ),
            ..types_listed
        },
        false,
    );
    assert(asked(end, none) =~= Seq::<StatementView>::empty());
    assert(type_statements + asked(end, none) =~= type_statements);
    assert(seq![labels_wanted()] + (label_statements + (seq![relationship_types_wanted()]
        + type_statements)) =~= seq![labels_wanted()] + label_statements
        + seq![relationship_types_wanted()] + type_statements);
}

/// A walk for which the node labels cannot be listed ends with the message of that error.
pub proof fn law_listing_errors_end_the_walk(
    database: Seq<char>,
    message: Seq<char>,
    later: Seq<AnswerView>,
)
    ensures
        walked(
            walk_start(database),
            seq![Err::<OutputView, Seq<char>>(message)] + later,
        ) == WalkStepView::Failed(message),
{
    let failing = seq![Err::<OutputView, Seq<char>>(message)] + later;
    assert(failing[0] == Err::<OutputView, Seq<char>>(message));
    reveal_with_fuel(walked, 2);
}

/// A walk ends with the message of the first error about a node label, whatever is answered later.
pub proof fn law_label_errors_end_the_walk(
    database: Seq<char>,
    labels: OutputView,
    label_keys: Seq<OutputView>,
    message: Seq<char>,
    later: Seq<AnswerView>,
)
    requires
        label_keys.len() < strings_under(labels, "label"@).len(),
    ensures
        walked(
            walk_start(database),
            seq![Ok::<OutputView, Seq<char>>(labels)] + (succeeded(label_keys) + (
            seq![Err::<OutputView, Seq<char>>(message)] + later)),
        ) == WalkStepView::Failed(message),
{
    let failing = seq![Err::<OutputView, Seq<char>>(message)] + later;
    assert(failing[0] == Err::<OutputView, Seq<char>>(message));
    let middle = succeeded(label_keys) + failing;
    let answers = seq![Ok::<OutputView, Seq<char>>(labels)] + middle;
    let start = walk_start(database)->Ask_0;
    let listed = WalkView { pending: strings_under(labels, "label"@), ..start };
    assert(answers.drop_first() =~= middle);
    assert(start.resumed(answers[0]) == at_names(listed, true));
    lemma_names_walked(listed, true, label_keys, failing);
    reveal_with_fuel(walked, 2);
}

/// A walk ends with the message of the first error about a relationship type, whatever is answered
/// later.
pub proof fn law_type_errors_end_the_walk(
    database: Seq<char>,
    labels: OutputView,
    label_keys: Seq<OutputView>,
    types: OutputView,
    type_keys: Seq<OutputView>,
    message: Seq<char>,
    later: Seq<AnswerView>,
)
    requires
        label_keys.len() == strings_under(labels, "label"@).len(),
        type_keys.len() < strings_under(types, "relationshipType"@).len(),
    ensures
        walked(
            walk_start(database),
            seq![Ok::<OutputView, Seq<char>>(labels)] + (succeeded(label_keys) + (
            seq![Ok::<OutputView, Seq<char>>(types)] + (succeeded(type_keys) + (
            seq![Err::<OutputView, Seq<char>>(message)] + later)))),
        ) == WalkStepView::Failed(message),
{
    let failing = seq![Err::<OutputView, Seq<char>>(message)] + later;
    let about_types = succeeded(type_keys) + failing;
    let late = seq![Ok::<OutputView, Seq<char>>(types)] + about_types;
    let middle = succeeded(label_keys) + late;
    let answers = seq![Ok::<OutputView, Seq<char>>(labels)] + middle;
    let start = walk_start(database)->Ask_0;
    let listed = WalkView { pending: strings_under(labels, "label"@), ..start };
    assert(answers[0] == Ok::<OutputView, Seq<char>>(labels));
    assert(answers.drop_first() =~= middle);
    assert(start.resumed(answers[0]) == at_names(listed, true));
    lemma_all_names_walked(listed, true, label_keys, late);
    let between = WalkView {
        pending: Seq::empty(),
        objects: listed.objects + described_all(
            database,
            "nodeLabel"@,
            listed.pending,
            label_keys,
        ),
        stage: Stage::RelationshipTypes,
        ..listed
    };
    let types_listed = WalkView { pending: strings_under(types, "relationshipType"@), ..between };
    assert(late[0] == Ok::<OutputView, Seq<char>>(types));
    assert(late.drop_first() =~= about_types);
    assert(between.resumed(late[0]) == at_names(types_listed, false));
    lemma_names_walked(types_listed, false, type_keys, failing);
    assert(failing[0] == Err::<OutputView, Seq<char>>(message));
    reveal_with_fuel(walked, 2);
}

/// An error ends a walk with its message, except where the relationship types are listed.
pub proof fn law_errors_end_a_walk(walk: WalkView, message: Seq<char>)
    ensures
        !(walk.stage is RelationshipTypes) ==> walk.resumed(Err(message)) == WalkStepView::Failed(
            message,
        ),
        walk.stage is RelationshipTypes ==> walk.resumed(Err(message)) == walk.resumed(
            Ok(no_output()),
        ),
{
}

/// Relationship types that cannot be listed leave the description with the node labels.
pub proof fn law_unlisted_types_count_as_none(walk: WalkView, message: Seq<char>)
    requires
        walk.stage is RelationshipTypes,
    ensures
        walk.resumed(Err(message)) == WalkStepView::Done(
            schema_document(walk.database, walk.objects),
        ),
{
    let columns = Seq::<Seq<char>>::empty();
    columns.index_of_first_ensures("relationshipType"@);
}

/// Each property that is described stands in some row, whose number is its ordinal; the properties
/// described up to it are those of the rows up to that one.
pub proof fn law_properties_follow_the_rows(rows: Seq<Seq<JsonView>>, at: int, i: int) -> (ordinal:
    nat)
    requires
        0 <= i < properties_at(rows, at).len(),
    ensures
        1 <= ordinal <= rows.len(),
        string_at(rows[ordinal - 1], at) is Some,
        properties_at(rows, at)[i] == property(string_at(rows[ordinal - 1], at)->0, ordinal),
        properties_at(rows.take(ordinal as int), at) == properties_at(rows, at).take(i + 1),
    decreases rows.len(),
{
    let rest = rows.drop_last();
    if i < properties_at(rest, at).len() {
        let ordinal = law_properties_follow_the_rows(rest, at, i);
        assert(rest[ordinal - 1] == rows[ordinal - 1]);
        assert(rest.take(ordinal as int) =~= rows.take(ordinal as int));
        assert(properties_at(rest, at).take(i + 1) =~= properties_at(rows, at).take(i + 1));
        ordinal
    } else {
        assert(rows.take(rows.len() as int) =~= rows);
        assert(properties_at(rows, at).take(i + 1) =~= properties_at(rows, at));
        assert(rows[rows.len() - 1] == rows.last());
        rows.len()
    }
}

} // verus!
