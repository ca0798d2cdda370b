//! The values that the Bolt driver `neo4rs` is handed.

use crate::config::{ConfigView, GraphConfig};
use crate::fault::Fault;
use crate::metadata::{Statement, StatementView};
use vstd::prelude::*;

verus! {

/// Declares [`neo4rs::Config`].
#[verifier::external_type_specification]
#[verifier::external_body]
pub struct ExConfig(neo4rs::Config);

/// Declares [`neo4rs::Query`].
#[verifier::external_type_specification]
#[verifier::external_body]
pub struct ExQuery(neo4rs::Query);

/// Declares [`neo4rs::Error`].
#[verifier::external_type_specification]
#[verifier::external_body]
pub struct ExDriverError(neo4rs::Error);

/// What [`neo4rs::ConfigBuilder`] makes of a URI, a user, a password and a database, with its
/// defaults for everything else.
pub uninterp spec fn driver_config(
    uri: Seq<char>,
    user: Seq<char>,
    password: Seq<char>,
    database: Seq<char>,
) -> neo4rs::Config;

/// The text of the statement that a [`neo4rs::Query`] holds.
pub uninterp spec fn query_text(query: neo4rs::Query) -> Seq<char>;

/// The keys of the parameters that a [`neo4rs::Query`] holds.
pub uninterp spec fn query_parameters(query: neo4rs::Query) -> Set<Seq<char>>;

/// Calls [`neo4rs::ConfigBuilder::build`] on a builder that was given a URI, a user, a password
/// and a database. The contract claims that it succeeds, as it does whenever the first three are
/// set, and names the result after what the builder was given.
#[verifier::external_body]
fn build_config(
    uri: &str,
    user: &str,
    password: &str,
    database: &str,
) -> (r: Result<neo4rs::Config, neo4rs::Error>)
    ensures
        r is Ok,
        r->Ok_0 == driver_config(uri@, user@, password@, database@),
{
    neo4rs::ConfigBuilder::default().uri(uri).user(user).password(password).db(database).build()
}

/// [`neo4rs::query`] makes a query of a text. The contract claims that the query holds that text
/// and no parameters.
pub assume_specification[ neo4rs::query ](q: &str) -> (r: neo4rs::Query)
    ensures
        query_text(r) == q@,
        query_parameters(r) == Set::<Seq<char>>::empty(),
;

impl ConfigView {
    /// The settings as the driver takes them.
    pub open spec fn handed_to_driver(self) -> neo4rs::Config {
        driver_config(self.uri, self.username, self.password, self.database)
    }
}

impl StatementView {
    /// Whether a query of the driver is the statement.
    pub open spec fn handed_to_driver(self, query: neo4rs::Query) -> bool {
        &&& query_text(query) == self.text
        &&& query_parameters(query) == Set::<Seq<char>>::empty()
    }
}

impl GraphConfig {
    /// The settings as the driver takes them.
    pub fn driver_settings(&self) -> (r: Result<neo4rs::Config, Fault>)
        ensures
            r == Ok::<neo4rs::Config, Fault>(
                driver_config(self.uri@, self.username@, self.password@, self.database@),
            ),
            r == Ok::<neo4rs::Config, Fault>(self@.handed_to_driver()),
    {
        match build_config(
            self.uri.as_str(),
            self.username.as_str(),
            self.password.as_str(),
            self.database.as_str(),
        ) {
            Ok(config) => Ok(config),
            Err(error) => Err(Fault::Config(error.to_string())),
        }
    }
}

impl Statement {
    /// The statement as the driver takes it.
    pub fn query(&self) -> (r: neo4rs::Query)
        ensures
            query_text(r) == self.text@,
            query_parameters(r) == Set::<Seq<char>>::empty(),
            self@.handed_to_driver(r),
    {
        neo4rs::query(self.text.as_str())
    }
}

} // verus!
