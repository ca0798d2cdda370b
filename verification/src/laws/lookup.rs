//! Where settings are looked up, and what holds when a request gives none.

use crate::config::{
    first_setting, found_setting, places, present, requested, requested_config, requested_uri,
    setting,
};
use crate::json::JsonView;
use vstd::prelude::*;

verus! {

/// The first setting of a place under one of `fields`; a place that is missing has none.
pub open spec fn place_setting(place: Option<JsonView>, fields: Seq<Seq<char>>) -> Option<
    Seq<char>,
> {
    match place {
        Some(container) => first_setting(container, fields),
        None => None,
    }
}

/// A lookup in two runs of containers asks the second only when the first has nothing.
proof fn lemma_found_in_two(a: Seq<JsonView>, b: Seq<JsonView>, fields: Seq<Seq<char>>)
    ensures
        found_setting(a + b, fields) == (if found_setting(a, fields) is Some {
            found_setting(a, fields)
        } else {
            found_setting(b, fields)
        }),
    decreases a.len(),
{
    if a.len() == 0 {
        assert(a + b =~= b);
    } else {
        assert((a + b).drop_first() =~= a.drop_first() + b);
        assert((a + b)[0] == a[0]);
        lemma_found_in_two(a.drop_first(), b, fields);
    }
}

/// A lookup in places that all have nothing finds nothing.
proof fn lemma_nothing_found(all: Seq<Option<JsonView>>, fields: Seq<Seq<char>>)
    requires
        forall|i: int| 0 <= i < all.len() ==> place_setting(#[trigger] all[i], fields) is None,
    ensures
        found_setting(present(all), fields) is None,
    decreases all.len(),
{
    if all.len() > 0 {
        let rest = all.drop_last();
        assert forall|i: int| 0 <= i < rest.len() implies place_setting(
            #[trigger] rest[i],
            fields,
        ) is None by {
            assert(all[i] == rest[i]);
        }
        lemma_nothing_found(rest, fields);
        assert(place_setting(all[all.len() - 1], fields) is None);
        if let Some(container) = all.last() {
            let one = seq![container];
            reveal_with_fuel(found_setting, 2);
            assert(one.drop_first() =~= Seq::<JsonView>::empty());
            lemma_found_in_two(present(rest), one, fields);
            assert(present(all) =~= present(rest) + one);
        }
    }
}

/// A lookup stops at the first place that has a setting.
proof fn lemma_first_place_found(all: Seq<Option<JsonView>>, fields: Seq<Seq<char>>, at: int)
    requires
        0 <= at < all.len(),
        forall|i: int| 0 <= i < at ==> place_setting(#[trigger] all[i], fields) is None,
        place_setting(all[at], fields) is Some,
    ensures
        found_setting(present(all), fields) == place_setting(all[at], fields),
    decreases all.len(),
{
    let rest = all.drop_last();
    if at < all.len() - 1 {
        assert forall|i: int| 0 <= i < at implies place_setting(
            #[trigger] rest[i],
            fields,
        ) is None by {
            assert(all[i] == rest[i]);
        }
        lemma_first_place_found(rest, fields, at);
        if let Some(container) = all.last() {
            lemma_found_in_two(present(rest), seq![container], fields);
            assert(present(all) =~= present(rest) + seq![container]);
        }
    } else {
        assert forall|i: int| 0 <= i < rest.len() implies place_setting(
            #[trigger] rest[i],
            fields,
        ) is None by {
            assert(all[i] == rest[i]);
        }
        lemma_nothing_found(rest, fields);
        let container = all.last()->0;
        lemma_found_in_two(present(rest), seq![container], fields);
        assert(present(all) =~= present(rest) + seq![container]);
    }
}

/// A setting is taken from the first place that has one under any of the fields: a field of an
/// earlier place wins over every field of a later place.
pub proof fn law_first_place_wins(request: JsonView, fields: Seq<Seq<char>>, at: int)
    requires
        0 <= at < places(request).len(),
        forall|i: int|
            0 <= i < at ==> place_setting(#[trigger] places(request)[i], fields) is None,
        place_setting(places(request)[at], fields) is Some,
    ensures
        requested(request, fields) == place_setting(places(request)[at], fields),
{
    lemma_first_place_found(places(request), fields, at);
}

/// A request has no setting exactly when none of its places has one.
pub proof fn law_no_place_no_setting(request: JsonView, fields: Seq<Seq<char>>)
    ensures
        requested(request, fields) is None <==> forall|i: int|
            0 <= i < places(request).len() ==> place_setting(
                #[trigger] places(request)[i],
                fields,
            ) is None,
{
    let all = places(request);
    if forall|i: int| 0 <= i < all.len() ==> place_setting(#[trigger] all[i], fields) is None {
        lemma_nothing_found(all, fields);
    } else {
        let some = choose|i: int|
            0 <= i < all.len() && place_setting(#[trigger] all[i], fields) is Some;
        let at = lemma_first_such(all, fields, some);
        lemma_first_place_found(all, fields, at);
    }
}

/// Among the places that have a setting there is a first one.
proof fn lemma_first_such(all: Seq<Option<JsonView>>, fields: Seq<Seq<char>>, some: int) -> (at:
    int)
    requires
        0 <= some < all.len(),
        place_setting(all[some], fields) is Some,
    ensures
        0 <= at <= some,
        forall|i: int| 0 <= i < at ==> place_setting(#[trigger] all[i], fields) is None,
        place_setting(all[at], fields) is Some,
    decreases some,
{
    if forall|i: int| 0 <= i < some ==> place_setting(#[trigger] all[i], fields) is None {
        some
    } else {
        let earlier = choose|i: int|
            0 <= i < some && place_setting(#[trigger] all[i], fields) is Some;
        lemma_first_such(all, fields, earlier)
    }
}

/// Within a container, a setting is taken from the first field that has one.
pub proof fn law_first_field_wins(container: JsonView, fields: Seq<Seq<char>>, at: int)
    requires
        0 <= at < fields.len(),
        forall|i: int| 0 <= i < at ==> setting(container, #[trigger] fields[i]) is None,
        setting(container, fields[at]) is Some,
    ensures
        first_setting(container, fields) == setting(container, fields[at]),
    decreases fields.len(),
{
    if at > 0 {
        assert(setting(container, fields[0]) is None);
        let rest = fields.drop_first();
        assert forall|i: int| 0 <= i < at - 1 implies setting(
            container,
            #[trigger] rest[i],
        ) is None by {
            assert(fields[i + 1] == rest[i]);
        }
        law_first_field_wins(container, rest, at - 1);
    }
}

/// A request that gives neither a connection string nor a host and port leads to the default
/// port of the local machine.
pub proof fn law_default_address(request: JsonView)
    requires
        requested(request, seq!["connectionString"@, "url"@, "dsn"@]) is None,
        requested(request, seq!["host"@, "endpoint"@]) is None,
        requested(request, seq!["port"@]) is None,
    ensures
        requested_uri(request) == "bolt://127.0.0.1:7687"@,
{
    reveal_strlit("bolt://");
    reveal_strlit("127.0.0.1");
    reveal_strlit(":");
    reveal_strlit("7687");
    reveal_strlit("bolt://127.0.0.1:7687");
    assert("bolt://"@ + "127.0.0.1"@ + ":"@ + "7687"@ =~= "bolt://127.0.0.1:7687"@);
}

/// A connection string wins over host and port.
pub proof fn law_connection_string_wins(request: JsonView)
    requires
        requested(request, seq!["connectionString"@, "url"@, "dsn"@]) is Some,
    ensures
        requested_uri(request) == requested(
            request,
            seq!["connectionString"@, "url"@, "dsn"@],
        )->0,
{
}

/// For this engine, a request without a user and a database leads to no user and the database
/// `memgraph`.
pub proof fn law_engine_defaults(request: JsonView)
    requires
        requested(request, seq!["user"@, "username"@]) is None,
        requested(request, seq!["database"@, "db"@]) is None,
    ensures
        requested_config(crate::ENGINE@, request).username == Seq::<char>::empty(),
        requested_config(crate::ENGINE@, request).database == "memgraph"@,
{
}

/// The URI and the database of a request's settings are never empty.
pub proof fn law_address_is_never_empty(engine: Seq<char>, request: JsonView)
    ensures
        requested_config(engine, request).uri.len() > 0,
        requested_config(engine, request).database.len() > 0,
{
    crate::laws::redaction::law_settings_are_trimmed(
        request,
        seq!["connectionString"@, "url"@, "dsn"@],
    );
    crate::laws::redaction::law_settings_are_trimmed(request, seq!["database"@, "db"@]);
    reveal_strlit("bolt://");
    reveal_strlit("memgraph");
    reveal_strlit("neo4j");
    assert("bolt://"@.len() == 7);
    assert("memgraph"@.len() == 8);
    assert("neo4j"@.len() == 5);
}

} // verus!
