//! Which settings a request leads to, and what exactly redaction changes in a message.

use crate::config::{
    authority, database_default, first_setting, masked, names, places, present, reference_views,
    requested, requested_config, setting, username_default, with_all_sensitive, with_sensitive,
    with_url_auth, ConfigView, GraphConfig,
};
use crate::json::{Json, JsonView};
use crate::laws::lookup::{law_first_place_wins, law_no_place_no_setting, place_setting};
use crate::laws::wording::{
    law_head_ends_at_the_first_mark, law_no_rest_without_a_match, law_nothing_to_replace,
    law_rest_behind_the_first_match,
};
use crate::text::{head, occurs_at, occurs_in, replaced, split, trimmed};
use vstd::prelude::*;

verus! {

/// A text without the white space around it, unless that leaves nothing.
pub open spec fn unless_blank(text: Seq<char>) -> Option<Seq<char>> {
    if trimmed(text).len() > 0 {
        Some(trimmed(text))
    } else {
        None
    }
}

/// A string, a number and a truth value of an object are settings; null, arrays and objects are
/// none, nor is what is missing or blank. Values that are no objects hold no settings.
pub proof fn law_settings_of_a_container(
    container: JsonView,
    members: Map<Seq<char>, JsonView>,
    field: Seq<char>,
)
    ensures
        !(container is Object) ==> setting(container, field) is None,
        !members.contains_key(field) ==> setting(JsonView::Object(members), field) is None,
        members.contains_key(field) ==> setting(JsonView::Object(members), field) == (
        match members[field] {
            JsonView::String(text) => unless_blank(text),
            JsonView::Number(numeral) => unless_blank(numeral),
            JsonView::Bool(b) => Some(
                if b {
                    "true"@
                } else {
                    "false"@
                },
            ),
            JsonView::Null => None,
            JsonView::Array(_) => None,
            JsonView::Object(_) => None,
        }),
{
    reveal_strlit("true");
    reveal_strlit("false");
    assert("true"@.len() == 4);
    assert("true"@[0] == 't');
    assert("true"@.last() == 'e');
    assert("false"@.len() == 5);
    assert("false"@[0] == 'f');
    assert("false"@.last() == 'e');
}

/// A container has no setting exactly when it has none under any of the fields.
pub proof fn law_no_field_no_setting(container: JsonView, fields: Seq<Seq<char>>)
    ensures
        first_setting(container, fields) is None <==> forall|i: int|
            0 <= i < fields.len() ==> setting(container, #[trigger] fields[i]) is None,
    decreases fields.len(),
{
    if fields.len() > 0 {
        let rest = fields.drop_first();
        law_no_field_no_setting(container, rest);
        if first_setting(container, fields) is None {
            assert forall|i: int| 0 <= i < fields.len() implies setting(
                container,
                #[trigger] fields[i],
            ) is None by {
                if i > 0 {
                    assert(rest[i - 1] == fields[i]);
                }
            }
        }
        if forall|i: int|
            0 <= i < fields.len() ==> setting(container, #[trigger] fields[i]) is None {
            assert(setting(container, fields[0]) is None);
            assert forall|i: int| 0 <= i < rest.len() implies setting(
                container,
                #[trigger] rest[i],
            ) is None by {
                assert(rest[i] == fields[i + 1]);
            }
        }
    }
}

/// The value that a path of keys leads to through objects.
pub open spec fn at_path(value: JsonView, path: Seq<Seq<char>>) -> Option<JsonView>
    decreases path.len(),
{
    if path.len() == 0 {
        Some(value)
    } else {
        match value {
            JsonView::Object(members) => if members.contains_key(path[0]) {
                at_path(members[path[0]], path.drop_first())
            } else {
                None
            },
            _ => None,
        }
    }
}

/// The paths to the containers of a request, in the order of the lookup.
pub open spec fn lookup_paths() -> Seq<Seq<Seq<char>>> {
    seq![
        seq![],
        seq!["profile"@],
        seq!["options"@],
        seq!["auth"@],
        seq!["secrets"@],
        seq!["profile"@, "options"@],
        seq!["profile"@, "auth"@],
        seq!["profile"@, "secrets"@],
    ]
}

/// The containers of a request are what the paths lead to.
proof fn lemma_places_are_paths(request: JsonView)
    ensures
        places(request).len() == lookup_paths().len(),
        forall|i: int|
            0 <= i < lookup_paths().len() ==> #[trigger] places(request)[i] == at_path(
                request,
                lookup_paths()[i],
            ),
{
    reveal_with_fuel(at_path, 3);
    let paths = lookup_paths();
    let all = places(request);
    assert forall|i: int| 0 <= i < paths.len() implies #[trigger] all[i] == at_path(
        request,
        paths[i],
    ) by {
        assert(paths[i].len() <= 2);
        if paths[i].len() == 1 {
            assert(paths[i].drop_first() =~= Seq::<Seq<char>>::empty());
        } else if paths[i].len() == 2 {
            assert(paths[i].drop_first().drop_first() =~= Seq::<Seq<char>>::empty());
            assert(paths[i].drop_first()[0] == paths[i][1]);
        }
    }
}

/// A setting is looked up in the request itself, then in its profile, its options, authentication
/// and secrets, then in those of the profile; the first of these that has one under any of the
/// fields gives it, and no other place is asked.
pub proof fn law_settings_are_looked_up_by_path(request: JsonView, fields: Seq<Seq<char>>, at: int)
    requires
        0 <= at < lookup_paths().len(),
        forall|i: int|
            0 <= i < at ==> place_setting(
                at_path(request, #[trigger] lookup_paths()[i]),
                fields,
            ) is None,
    ensures
        place_setting(at_path(request, lookup_paths()[at]), fields) is Some ==> requested(
            request,
            fields,
        ) == place_setting(at_path(request, lookup_paths()[at]), fields),
        at == lookup_paths().len() - 1 && place_setting(
            at_path(request, lookup_paths()[at]),
            fields,
        ) is None ==> requested(request, fields) is None,
{
    lemma_places_are_paths(request);
    let paths = lookup_paths();
    assert forall|i: int| 0 <= i < at implies place_setting(
        #[trigger] places(request)[i],
        fields,
    ) is None by {
        assert(place_setting(at_path(request, paths[i]), fields) is None);
    }
    assert(places(request)[at] == at_path(request, paths[at]));
    if place_setting(at_path(request, paths[at]), fields) is Some {
        law_first_place_wins(request, fields, at);
    } else if at == paths.len() - 1 {
        law_no_place_no_setting(request, fields);
    }
}

/// The containers that are listed are those that are there, in their order.
pub proof fn law_present_containers(values: Seq<Option<JsonView>>, value: Option<JsonView>)
    ensures
        present(Seq::empty()) == Seq::<JsonView>::empty(),
        value matches Some(json) ==> present(values.push(value)) == present(values).push(json),
        value is None ==> present(values.push(value)) == present(values),
{
    assert(values.push(value).drop_last() =~= values);
}

/// The views of references and the texts of field names are those of each, in their order.
pub proof fn law_views_of_references(containers: Seq<&Json>, fields: Seq<&str>)
    ensures
        reference_views(containers).len() == containers.len(),
        forall|i: int|
            0 <= i < containers.len() ==> #[trigger] reference_views(containers)[i]
                == containers[i]@,
        names(fields).len() == fields.len(),
        forall|i: int| 0 <= i < fields.len() ==> #[trigger] names(fields)[i] == fields[i]@,
{
}

/// Without a connection string the URI is `bolt://`, the host, a colon and the port. The host is
/// the one that the request gives or `127.0.0.1`, the port the one that it gives or `7687`, each
/// whatever holds of the other.
pub proof fn law_address_of_a_request(engine: Seq<char>, request: JsonView)
    requires
        requested(request, seq!["connectionString"@, "url"@, "dsn"@]) is None,
    ensures
        ({
            let uri = requested_config(engine, request).uri;
            let host = requested(request, seq!["host"@, "endpoint"@]);
            let port = requested(request, seq!["port"@]);
            &&& host is Some && port is Some ==> uri == "bolt://"@ + host->0 + ":"@ + port->0
            &&& host is Some && port is None ==> uri == "bolt://"@ + host->0 + ":7687"@
            &&& host is None && port is Some ==> uri == "bolt://127.0.0.1:"@ + port->0
            &&& host is None && port is None ==> uri == "bolt://127.0.0.1:7687"@
        }),
{
    reveal_strlit("bolt://");
    reveal_strlit(":");
    reveal_strlit("7687");
    reveal_strlit(":7687");
    reveal_strlit("127.0.0.1");
    reveal_strlit("bolt://127.0.0.1:");
    reveal_strlit("bolt://127.0.0.1:7687");
    let host = requested(request, seq!["host"@, "endpoint"@]);
    if host is Some {
        assert("bolt://"@ + host->0 + ":"@ + "7687"@ =~= "bolt://"@ + host->0 + ":7687"@);
    }
    assert("bolt://"@ + "127.0.0.1"@ + ":"@ =~= "bolt://127.0.0.1:"@);
    assert("bolt://127.0.0.1:"@ + "7687"@ =~= "bolt://127.0.0.1:7687"@);
}

/// A connection string is the URI as it is, whatever host and port the request gives.
pub proof fn law_connection_string_is_the_uri(engine: Seq<char>, request: JsonView)
    ensures
        requested(request, seq!["connectionString"@, "url"@, "dsn"@]) matches Some(uri)
            ==> requested_config(engine, request).uri == uri,
{
}

/// User, password and database are those that the request gives; without them this engine has no
/// user, no password and the database `memgraph`, and other engines have `neo4j` as user and
/// database.
pub proof fn law_credentials_of_a_request(engine: Seq<char>, request: JsonView)
    ensures
        ({
            let config = requested_config(engine, request);
            let user = requested(request, seq!["user"@, "username"@]);
            let password = requested(request, seq!["password"@, "token"@]);
            let database = requested(request, seq!["database"@, "db"@]);
            &&& user is Some ==> config.username == user->0
            &&& user is None && engine == "memgraph"@ ==> config.username.len() == 0
            &&& user is None && engine != "memgraph"@ ==> config.username == "neo4j"@
            &&& password is Some ==> config.password == password->0
            &&& password is None ==> config.password.len() == 0
            &&& database is Some ==> config.database == database->0
            &&& database is None && engine == "memgraph"@ ==> config.database == "memgraph"@
            &&& database is None && engine != "memgraph"@ ==> config.database == "neo4j"@
        }),
        engine == "memgraph"@ ==> username_default(engine).len() == 0,
        engine != "memgraph"@ ==> username_default(engine) == "neo4j"@,
        engine == "memgraph"@ ==> database_default(engine) == "memgraph"@,
        engine != "memgraph"@ ==> database_default(engine) == "neo4j"@,
{
}

/// What is hidden is the password first, then what the URI adds to it.
pub proof fn law_hidden_values_of_a_request(engine: Seq<char>, request: JsonView)
    ensures
        ({
            let config = requested_config(engine, request);
            config.redaction_values == with_url_auth(
                with_sensitive(Seq::empty(), config.password),
                config.uri,
            )
        }),
{
}

/// A value is added at the end, without the white space around it; one that is blank or stands in
/// the list already leaves the list as it is.
pub proof fn law_what_adding_a_value_gives(values: Seq<Seq<char>>, value: Seq<char>)
    ensures
        trimmed(value).len() == 0 ==> with_sensitive(values, value) == values,
        values.contains(trimmed(value)) ==> with_sensitive(values, value) == values,
        trimmed(value).len() > 0 && !values.contains(trimmed(value)) ==> with_sensitive(
            values,
            value,
        ) == values.push(trimmed(value)),
{
}

/// Several values are added one after the other.
pub proof fn law_adding_one_more_value(
    values: Seq<Seq<char>>,
    parts: Seq<Seq<char>>,
    part: Seq<char>,
)
    ensures
        with_all_sensitive(values, Seq::empty()) == values,
        with_all_sensitive(values, parts.push(part)) == with_sensitive(
            with_all_sensitive(values, parts),
            part,
        ),
{
    assert(parts.push(part).drop_last() =~= parts);
}

/// A URL adds the parts between the colons of what stands between `://` and the next `/` or `@`,
/// all of them and in their order, if there is a colon. Else it adds nothing.
pub proof fn law_what_adding_a_url_gives(
    values: Seq<Seq<char>>,
    scheme: Seq<char>,
    auth: Seq<char>,
    tail: Seq<char>,
)
    requires
        forall|k: int|
            0 <= k < scheme.len() ==> !occurs_at(scheme + "://"@ + (auth + tail), "://"@, k),
        !auth.contains('/') && !auth.contains('@'),
        tail.len() == 0 || tail[0] == '/' || tail[0] == '@',
    ensures
        auth.contains(':') ==> with_url_auth(values, scheme + "://"@ + (auth + tail))
            == with_all_sensitive(values, split(auth, ':')),
        !auth.contains(':') ==> with_url_auth(values, scheme + "://"@ + (auth + tail)) == values,
{
    law_rest_behind_the_first_match(scheme, "://"@, auth + tail);
    let rest = auth + tail;
    if tail.len() == 0 {
        assert(rest =~= auth);
        law_head_ends_at_the_first_mark(auth, '/', tail);
        law_head_ends_at_the_first_mark(auth, '@', tail);
    } else if tail[0] == '/' {
        assert(rest =~= auth + seq!['/'] + tail.drop_first());
        law_head_ends_at_the_first_mark(auth, '/', tail.drop_first());
        law_head_ends_at_the_first_mark(auth, '@', tail);
    } else {
        let inner = head(rest, '/');
        let back = lemma_head_goes_on(auth, tail);
        assert(inner =~= auth + seq!['@'] + back);
        law_head_ends_at_the_first_mark(auth, '@', back);
    }
    assert(authority(scheme + "://"@ + rest) == Some(auth));
}

/// Where a text is followed by an at sign before any slash, the head in front of the first slash
/// holds both.
proof fn lemma_head_goes_on(auth: Seq<char>, tail: Seq<char>) -> (back: Seq<char>)
    requires
        !auth.contains('/'),
        tail.len() > 0,
        tail[0] == '@',
    ensures
        head(auth + tail, '/') == auth + seq!['@'] + back,
{
    let rest = auth + tail;
    if tail.contains('/') {
        let first = lemma_first_slash(tail);
        let front = auth + tail.take(first);
        let behind = tail.skip(first + 1);
        assert forall|i: int| 0 <= i < front.len() implies front[i] != '/' by {
            if i < auth.len() {
                assert(auth.contains(auth[i]));
            }
        }
        assert(rest =~= front + seq!['/'] + behind);
        law_head_ends_at_the_first_mark(front, '/', behind);
        let back = tail.take(first).drop_first();
        assert(front =~= auth + seq!['@'] + back);
        back
    } else {
        assert forall|i: int| 0 <= i < rest.len() implies rest[i] != '/' by {
            if i < auth.len() {
                assert(auth.contains(auth[i]));
            } else {
                assert(tail.contains(tail[i - auth.len()]));
            }
        }
        law_head_ends_at_the_first_mark(rest, '/', Seq::empty());
        let back = tail.drop_first();
        assert(rest =~= auth + seq!['@'] + back);
        back
    }
}

/// The first slash of a text that has one and does not begin with it.
proof fn lemma_first_slash(tail: Seq<char>) -> (first: int)
    requires
        tail.len() > 0,
        tail[0] == '@',
        tail.contains('/'),
    ensures
        0 < first < tail.len(),
        tail[first] == '/',
        forall|i: int| 0 <= i < first ==> tail[i] != '/',
{
    tail.index_of_first_ensures('/');
    tail.index_of_first('/')->0
}

/// What is no URL adds nothing.
pub proof fn law_no_url_adds_nothing(values: Seq<Seq<char>>, url: Seq<char>)
    requires
        !occurs_in(url, "://"@),
    ensures
        with_url_auth(values, url) == values,
{
    law_no_rest_without_a_match(url, "://"@);
}

/// Settings with another list of values to hide.
pub open spec fn hiding(config: ConfigView, values: Seq<Seq<char>>) -> ConfigView {
    ConfigView { redaction_values: values, ..config }
}

/// Redaction puts `<graph-uri>` in the place of the URI; each further value to hide then gives way
/// to four asterisks, and an empty one changes nothing.
pub proof fn law_redaction_value_by_value(
    config: ConfigView,
    values: Seq<Seq<char>>,
    value: Seq<char>,
    message: Seq<char>,
)
    ensures
        hiding(config, Seq::empty()).redacted(message) == replaced(
            message,
            config.uri,
            "<graph-uri>"@,
        ),
        value.len() > 0 ==> hiding(config, values.push(value)).redacted(message) == replaced(
            hiding(config, values).redacted(message),
            value,
            "****"@,
        ),
        value.len() == 0 ==> hiding(config, values.push(value)).redacted(message) == hiding(
            config,
            values,
        ).redacted(message),
{
    assert(values.push(value).drop_last() =~= values);
}

/// A message that shows neither the URI nor a value to hide stays as it is.
pub proof fn law_redaction_keeps_other_messages(config: ConfigView, message: Seq<char>)
    requires
        config.uri.len() > 0,
        !occurs_in(message, config.uri),
        forall|i: int|
            0 <= i < config.redaction_values.len() && (
            #[trigger] config.redaction_values[i]).len() > 0 ==> !occurs_in(
                message,
                config.redaction_values[i],
            ),
    ensures
        config.redacted(message) == message,
{
    law_nothing_to_replace(message, config.uri, "<graph-uri>"@);
    lemma_nothing_to_mask(message, config.redaction_values);
}

/// Masking what does not occur changes nothing.
proof fn lemma_nothing_to_mask(message: Seq<char>, values: Seq<Seq<char>>)
    requires
        forall|i: int|
            0 <= i < values.len() && (#[trigger] values[i]).len() > 0 ==> !occurs_in(
                message,
                values[i],
            ),
    ensures
        masked(message, values) == message,
    decreases values.len(),
{
    if values.len() > 0 {
        let rest = values.drop_last();
        assert forall|i: int| 0 <= i < rest.len() && (#[trigger] rest[i]).len() > 0 implies !occurs_in(
            message,
            rest[i],
        ) by {
            assert(rest[i] == values[i]);
        }
        lemma_nothing_to_mask(message, rest);
        assert(values[values.len() - 1] == values.last());
        if values.last().len() > 0 {
            law_nothing_to_replace(message, values.last(), "****"@);
        }
    }
}

/// The view of settings has each of them, and each value to hide in its place.
pub proof fn law_view_of_settings(config: GraphConfig)
    ensures
        config@.uri == config.uri@,
        config@.username == config.username@,
        config@.password == config.password@,
        config@.database == config.database@,
        config@.redaction_values.len() == config.redaction_values@.len(),
        forall|i: int|
            0 <= i < config.redaction_values@.len() ==> #[trigger] config@.redaction_values[i]
                == config.redaction_values@[i]@,
{
}

} // verus!
