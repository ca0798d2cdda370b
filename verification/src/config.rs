//! Connection settings: how they are read from a request, and what of them error messages hide.

use crate::json::{optional, Json, JsonView};
use crate::text::{
    after_first, has_mark, head, head_of, replace, replaced, rest_after, same, split,
    split_at_marks, texts, trim, trimmed,
};
use crate::ENGINE;
use vstd::prelude::*;
use vstd::string::*;

verus! {

/// What the settings of a connection are.
pub struct ConfigView {
    pub uri: Seq<char>,
    pub username: Seq<char>,
    pub password: Seq<char>,
    pub database: Seq<char>,
    pub redaction_values: Seq<Seq<char>>,
}

/// The settings of a connection.
#[derive(Debug, PartialEq, Eq)]
pub struct GraphConfig {
    pub uri: String,
    pub username: String,
    pub password: String,
    pub database: String,
    /// What error messages must not show, besides the URI.
    pub redaction_values: Vec<String>,
}

impl GraphConfig {
    /// The settings as a mathematical object.
    pub open spec fn view(&self) -> ConfigView {
        ConfigView {
            uri: self.uri@,
            username: self.username@,
            password: self.password@,
            database: self.database@,
            redaction_values: texts(self.redaction_values@),
        }
    }
}

impl Clone for GraphConfig {
    fn clone(&self) -> (r: Self)
        ensures
            r@ == self@,
    {
        let mut redaction_values: Vec<String> = Vec::new();
        let n: usize = self.redaction_values.len();
        let mut i: usize = 0;
        while i < n
            invariant
                i <= n,
                n == self.redaction_values@.len(),
                redaction_values@ == self.redaction_values@.take(i as int),
            decreases n - i,
        {
            redaction_values.push(self.redaction_values[i].clone());
            assert(redaction_values@ =~= self.redaction_values@.take(i + 1));
            i = i + 1;
        }
        assert(self.redaction_values@.take(n as int) =~= self.redaction_values@);
        GraphConfig {
            uri: self.uri.clone(),
            username: self.username.clone(),
            password: self.password.clone(),
            database: self.database.clone(),
            redaction_values,
        }
    }
}

/// The member `key` of a value that may be missing.
pub open spec fn inner(value: Option<JsonView>, key: Seq<char>) -> Option<JsonView> {
    match value {
        Some(json) => json.field(key),
        None => None,
    }
}

/// The values of a sequence that are there.
pub open spec fn present(values: Seq<Option<JsonView>>) -> Seq<JsonView>
    decreases values.len(),
{
    if values.len() == 0 {
        Seq::empty()
    } else {
        match values.last() {
            Some(json) => present(values.drop_last()).push(json),
            None => present(values.drop_last()),
        }
    }
}

/// The places in which a request may hold a setting, the first to be asked first: the request,
/// its profile, its options, authentication and secrets, and those of the profile.
pub open spec fn places(request: JsonView) -> Seq<Option<JsonView>> {
    let profile = request.field("profile"@);
    seq![
        Some(request),
        profile,
        request.field("options"@),
        request.field("auth"@),
        request.field("secrets"@),
        inner(profile, "options"@),
        inner(profile, "auth"@),
        inner(profile, "secrets"@),
    ]
}

/// The text of a string, a number or a truth value; other values have an empty one.
pub open spec fn scalar_text(value: JsonView) -> Seq<char> {
    match value {
        JsonView::String(text) => text,
        JsonView::Number(numeral) => numeral,
        JsonView::Bool(b) => if b {
            "true"@
        } else {
            "false"@
        },
        _ => Seq::empty(),
    }
}

/// The trimmed text of the member `field`, unless it is empty.
pub open spec fn setting(container: JsonView, field: Seq<char>) -> Option<Seq<char>> {
    match container.field(field) {
        Some(value) => if trimmed(scalar_text(value)).len() > 0 {
            Some(trimmed(scalar_text(value)))
        } else {
            None
        },
        None => None,
    }
}

/// The first setting of a container under one of `fields`.
pub open spec fn first_setting(container: JsonView, fields: Seq<Seq<char>>) -> Option<Seq<char>>
    decreases fields.len(),
{
    if fields.len() == 0 {
        None
    } else if setting(container, fields[0]) is Some {
        setting(container, fields[0])
    } else {
        first_setting(container, fields.drop_first())
    }
}

/// The first setting under one of `fields` in the first container that has one.
pub open spec fn found_setting(
    containers: Seq<JsonView>,
    fields: Seq<Seq<char>>,
) -> Option<Seq<char>>
    decreases containers.len(),
{
    if containers.len() == 0 {
        None
    } else if first_setting(containers[0], fields) is Some {
        first_setting(containers[0], fields)
    } else {
        found_setting(containers.drop_first(), fields)
    }
}

/// The setting that a request holds under one of `fields`.
pub open spec fn requested(request: JsonView, fields: Seq<Seq<char>>) -> Option<Seq<char>> {
    found_setting(present(places(request)), fields)
}

/// The setting that a request holds under one of `fields`, or `default`.
pub open spec fn requested_or(
    request: JsonView,
    fields: Seq<Seq<char>>,
    default: Seq<char>,
) -> Seq<char> {
    match requested(request, fields) {
        Some(text) => text,
        None => default,
    }
}

/// The list of values to hide once `value` has been added: trimmed, unless that leaves nothing or
/// stands in the list already.
pub open spec fn with_sensitive(values: Seq<Seq<char>>, value: Seq<char>) -> Seq<Seq<char>> {
    let text = trimmed(value);
    if text.len() == 0 || values.contains(text) {
        values
    } else {
        values.push(text)
    }
}

/// The list of values to hide once all of `parts` have been added.
pub open spec fn with_all_sensitive(
    values: Seq<Seq<char>>,
    parts: Seq<Seq<char>>,
) -> Seq<Seq<char>>
    decreases parts.len(),
{
    if parts.len() == 0 {
        values
    } else {
        with_sensitive(with_all_sensitive(values, parts.drop_last()), parts.last())
    }
}

/// What stands between `://` and the next `/` or `@` of a URL.
pub open spec fn authority(url: Seq<char>) -> Option<Seq<char>> {
    match after_first(url, "://"@) {
        Some(rest) => Some(head(head(rest, '/'), '@')),
        None => None,
    }
}

/// The list of values to hide once the authority of a URL has been added: its parts between
/// colons, if it has a colon.
pub open spec fn with_url_auth(values: Seq<Seq<char>>, url: Seq<char>) -> Seq<Seq<char>> {
    match authority(url) {
        Some(auth) => if auth.contains(':') {
            with_all_sensitive(values, split(auth, ':'))
        } else {
            values
        },
        None => values,
    }
}

/// The user name of an engine for requests that give none.
pub open spec fn username_default(engine: Seq<char>) -> Seq<char> {
    if engine == "memgraph"@ {
        Seq::empty()
    } else {
        "neo4j"@
    }
}

/// The database of an engine for requests that give none.
pub open spec fn database_default(engine: Seq<char>) -> Seq<char> {
    if engine == "memgraph"@ {
        "memgraph"@
    } else {
        "neo4j"@
    }
}

/// The URI that a request gives, whole or by its host and port.
pub open spec fn requested_uri(request: JsonView) -> Seq<char> {
    let host = requested_or(request, seq!["host"@, "endpoint"@], "127.0.0.1"@);
    let port = requested_or(request, seq!["port"@], "7687"@);
    requested_or(
        request,
        seq!["connectionString"@, "url"@, "dsn"@],
        "bolt://"@ + host + ":"@ + port,
    )
}

/// The settings that a request asks an engine for.
pub open spec fn requested_config(engine: Seq<char>, request: JsonView) -> ConfigView {
    let uri = requested_uri(request);
    let password = requested_or(request, seq!["password"@, "token"@], Seq::empty());
    ConfigView {
        uri,
        username: requested_or(request, seq!["user"@, "username"@], username_default(engine)),
        password,
        database: requested_or(request, seq!["database"@, "db"@], database_default(engine)),
        redaction_values: with_url_auth(with_sensitive(Seq::empty(), password), uri),
    }
}

/// `message` with four asterisks in the place of each value; empty values count for nothing.
pub open spec fn masked(message: Seq<char>, values: Seq<Seq<char>>) -> Seq<char>
    decreases values.len(),
{
    if values.len() == 0 {
        message
    } else if values.last().len() == 0 {
        masked(message, values.drop_last())
    } else {
        replaced(masked(message, values.drop_last()), values.last(), "****"@)
    }
}

impl ConfigView {
    /// `message` as it may be shown: without the URI and the values to hide.
    pub open spec fn redacted(self, message: Seq<char>) -> Seq<char> {
        masked(replaced(message, self.uri, "<graph-uri>"@), self.redaction_values)
    }
}

/// The views of a sequence of values.
pub open spec fn reference_views(values: Seq<&Json>) -> Seq<JsonView> {
    values.map_values(|value: &Json| value@)
}

/// The texts of a sequence of field names.
pub open spec fn names(fields: Seq<&str>) -> Seq<Seq<char>> {
    fields.map_values(|field: &str| field@)
}

/// Adds a value that is there.
fn push_present<'a>(containers: &mut Vec<&'a Json>, value: Option<&'a Json>)
    ensures
        reference_views(final(containers)@) == (match optional(value) {
            Some(json) => reference_views(old(containers)@).push(json),
            None => reference_views(old(containers)@),
        }),
{
    if let Some(json) = value {
        containers.push(json);
        assert(reference_views(containers@) =~= reference_views(old(containers)@).push(json@));
    }
}

/// The containers of a request in which settings are looked up, in the order of the lookup.
pub fn request_containers(request: &Json) -> (r: Vec<&Json>)
    ensures
        reference_views(r@) == present(places(request@)),
{
    let profile = request.get("profile");
    let (options, auth, secrets) = match profile {
        Some(json) => (json.get("options"), json.get("auth"), json.get("secrets")),
        None => (None, None, None),
    };
    let mut containers: Vec<&Json> = Vec::new();
    push_present(&mut containers, Some(request));
    push_present(&mut containers, profile);
    push_present(&mut containers, request.get("options"));
    push_present(&mut containers, request.get("auth"));
    push_present(&mut containers, request.get("secrets"));
    push_present(&mut containers, options);
    push_present(&mut containers, auth);
    push_present(&mut containers, secrets);
    proof {
        let all = places(request@);
        reveal_with_fuel(present, 9);
        assert(all.drop_last() =~= all.take(7));
        assert(all.take(7).drop_last() =~= all.take(6));
        assert(all.take(6).drop_last() =~= all.take(5));
        assert(all.take(5).drop_last() =~= all.take(4));
        assert(all.take(4).drop_last() =~= all.take(3));
        assert(all.take(3).drop_last() =~= all.take(2));
        assert(all.take(2).drop_last() =~= all.take(1));
        assert(all.take(1).drop_last() =~= all.take(0));
    }
    containers
}

/// The text of a string, a number or a truth value; other values have an empty one.
fn scalar_string(value: &Json) -> (r: String)
    ensures
        r@ == scalar_text(value@),
{
    match value {
        Json::String(text) => text.clone(),
        Json::Number(numeral) => numeral.clone(),
        Json::Bool(b) => if *b {
            "true".to_owned()
        } else {
            "false".to_owned()
        },
        _ => String::new(),
    }
}

/// The setting that a request holds under one of `fields`: from the first container that has
/// one, and there under the first field that has one.
pub fn option_string(request: &Json, fields: &[&str]) -> (r: Option<String>)
    ensures
        r is Some <==> requested(request@, names(fields@)) is Some,
        r matches Some(text) ==> text@ == requested(request@, names(fields@))->0,
{
    let containers = request_containers(request);
    let ghost all = reference_views(containers@);
    let ghost keys = names(fields@);
    let n: usize = containers.len();
    let m: usize = fields.len();
    let mut i: usize = 0;
    assert(all.skip(0) =~= all);
    while i < n
        invariant
            i <= n,
            n == containers@.len(),
            m == fields@.len(),
            all == reference_views(containers@),
            keys == names(fields@),
            found_setting(all.skip(i as int), keys) == found_setting(all, keys),
            found_setting(all, keys) == requested(request@, keys),
        decreases n - i,
    {
        let container = containers[i];
        let mut j: usize = 0;
        assert(keys.skip(0) =~= keys);
        assert(all.skip(i as int)[0] == container@);
        while j < m
            invariant
                j <= m,
                i < n,
                n == containers@.len(),
                m == fields@.len(),
                all == reference_views(containers@),
                keys == names(fields@),
                all.skip(i as int)[0] == container@,
                first_setting(container@, keys.skip(j as int)) == first_setting(
                    container@,
                    keys,
                ),
                found_setting(all.skip(i as int), keys) == requested(request@, keys),
            decreases m - j,
        {
            assert(keys.skip(j as int)[0] == fields@[j as int]@);
            if let Some(value) = container.get(fields[j]) {
                let whole = scalar_string(value);
                let text = trim(whole.as_str());
                if !text.is_empty() {
                    return Some(text.to_owned());
                }
            }
            assert(keys.skip(j as int).drop_first() =~= keys.skip(j + 1));
            j = j + 1;
        }
        assert(all.skip(i as int).drop_first() =~= all.skip(i + 1));
        i = i + 1;
    }
    None
}

/// The setting that a request holds under one of `fields`, or `default`.
fn option_or(request: &Json, fields: &[&str], default: &str) -> (r: String)
    ensures
        r@ == requested_or(request@, names(fields@), default@),
{
    match option_string(request, fields) {
        Some(text) => text,
        None => default.to_owned(),
    }
}

/// Adds a value to the list of those to hide: trimmed, unless it is missing, that leaves nothing
/// or it stands in the list already.
pub fn push_sensitive(values: &mut Vec<String>, value: Option<&str>)
    ensures
        texts(final(values)@) == (match value {
            Some(text) => with_sensitive(texts(old(values)@), text@),
            None => texts(old(values)@),
        }),
{
    if let Some(whole) = value {
        let text = trim(whole);
        if text.is_empty() {
            return;
        }
        let n: usize = values.len();
        let mut i: usize = 0;
        while i < n
            invariant
                i <= n,
                n == values@.len(),
                values@ == old(values)@,
                text@ == trimmed(whole@),
                value == Some(whole),
                forall|j: int| 0 <= j < i ==> (#[trigger] values@[j])@ != text@,
            decreases n - i,
        {
            if same(values[i].as_str(), text) {
                assert(texts(values@)[i as int] == text@);
                return;
            }
            i = i + 1;
        }
        assert(!texts(values@).contains(text@)) by {
            if texts(values@).contains(text@) {
                let j = choose|j: int| 0 <= j < n && texts(values@)[j] == text@;
                assert(values@[j]@ == text@);
            }
        }
        values.push(text.to_owned());
        assert(texts(values@) =~= texts(old(values)@).push(text@));
    }
}

/// Adds the parts of a URL's authority to the list of values to hide.
pub fn collect_url_auth(url: &str, values: &mut Vec<String>)
    ensures
        texts(final(values)@) == with_url_auth(texts(old(values)@), url@),
{
    if let Some(rest) = rest_after(url, "://") {
        let auth = head_of(head_of(rest, '/'), '@');
        if has_mark(auth, ':') {
            let parts = split_at_marks(auth, ':');
            let ghost all = texts(parts@);
            let n: usize = parts.len();
            let mut i: usize = 0;
            while i < n
                invariant
                    i <= n,
                    n == parts@.len(),
                    all == texts(parts@),
                    texts(values@) == with_all_sensitive(texts(old(values)@), all.take(i as int)),
                decreases n - i,
            {
                push_sensitive(values, Some(parts[i].as_str()));
                assert(all.take(i + 1).drop_last() =~= all.take(i as int));
                assert(all.take(i + 1).last() == parts@[i as int]@);
                i = i + 1;
            }
            assert(all.take(n as int) =~= all);
        }
    }
}

/// The user name of an engine for requests that give none.
pub fn default_username(engine: &str) -> (r: &'static str)
    ensures
        r@ == username_default(engine@),
{
    if same(engine, "memgraph") {
        proof {
            reveal_strlit("");
        }
        assert(""@ =~= Seq::<char>::empty());
        ""
    } else {
        "neo4j"
    }
}

/// The database of an engine for requests that give none.
pub fn default_database(engine: &str) -> (r: &'static str)
    ensures
        r@ == database_default(engine@),
{
    if same(engine, "memgraph") {
        "memgraph"
    } else {
        "neo4j"
    }
}

impl GraphConfig {
    /// The settings that a request asks for. Every request gives settings.
    pub fn from_request(request: &Json) -> (r: Result<Self, String>)
        ensures
            r is Ok,
            r->Ok_0@ == requested_config(ENGINE@, request@),
    {
        let host_fields = ["host", "endpoint"];
        let port_fields = ["port"];
        let uri_fields = ["connectionString", "url", "dsn"];
        let user_fields = ["user", "username"];
        let password_fields = ["password", "token"];
        let database_fields = ["database", "db"];
        proof {
            assert(names(host_fields@) =~= seq!["host"@, "endpoint"@]);
            assert(names(port_fields@) =~= seq!["port"@]);
            assert(names(uri_fields@) =~= seq!["connectionString"@, "url"@, "dsn"@]);
            assert(names(user_fields@) =~= seq!["user"@, "username"@]);
            assert(names(password_fields@) =~= seq!["password"@, "token"@]);
            assert(names(database_fields@) =~= seq!["database"@, "db"@]);
            reveal_strlit("");
            assert(""@ =~= Seq::<char>::empty());
        }
        let host = option_or(request, &host_fields, "127.0.0.1");
        let port = option_or(request, &port_fields, "7687");
        let mut address = "bolt://".to_owned();
        address.append(host.as_str());
        address.append(":");
        address.append(port.as_str());
        let uri = option_or(request, &uri_fields, address.as_str());
        let username = option_or(request, &user_fields, default_username(ENGINE));
        let password = option_or(request, &password_fields, "");
        let database = option_or(request, &database_fields, default_database(ENGINE));
        let mut redaction_values: Vec<String> = Vec::new();
        push_sensitive(&mut redaction_values, Some(password.as_str()));
        assert(texts(Seq::<String>::empty()) =~= Seq::<Seq<char>>::empty());
        collect_url_auth(uri.as_str(), &mut redaction_values);
        Ok(GraphConfig { uri, username, password, database, redaction_values })
    }

    /// `message` as it may be shown: without the URI and the values to hide.
    pub fn redact(&self, message: &str) -> (r: String)
        ensures
            r@ == self@.redacted(message@),
    {
        let mut shown = replace(message, self.uri.as_str(), "<graph-uri>");
        let ghost start = shown@;
        let ghost all = texts(self.redaction_values@);
        let n: usize = self.redaction_values.len();
        let mut i: usize = 0;
        while i < n
            invariant
                i <= n,
                n == self.redaction_values@.len(),
                all == texts(self.redaction_values@),
                shown@ == masked(start, all.take(i as int)),
            decreases n - i,
        {
            let secret = self.redaction_values[i].as_str();
            assert(all.take(i + 1).drop_last() =~= all.take(i as int));
            assert(all.take(i + 1).last() == secret@);
            if !secret.is_empty() {
                shown = replace(shown.as_str(), secret, "****");
            }
            i = i + 1;
        }
        assert(all.take(n as int) =~= all);
        shown
    }
}

} // verus!
