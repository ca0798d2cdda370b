//! What can go wrong outside the library, and the messages for it.

use crate::ENGINE;
use vstd::prelude::*;
use vstd::string::*;

verus! {

/// What went wrong outside the library, with the message that came with it.
#[derive(Debug, PartialEq, Eq)]
pub enum Fault {
    /// The runtime could not be created.
    Runtime(String),
    /// The runtime is not there although it was created.
    NoRuntime,
    /// The settings were refused.
    Config(String),
    /// The server could not be reached.
    Connect(String),
    /// The server refused a statement.
    Execute(String),
    /// A row could not be fetched.
    Fetch(String),
    /// A row could not be decoded.
    Decode(String),
}

impl Fault {
    /// The text in front of the message that came with the fault.
    pub open spec fn prefix(self) -> Seq<char> {
        match self {
            Fault::Runtime(_) => "create tokio runtime failed: "@,
            Fault::NoRuntime => "create tokio runtime failed."@,
            Fault::Config(_) => "failed to build "@ + ENGINE@ + " config: "@,
            Fault::Connect(_) => "failed to connect to "@ + ENGINE@ + ": "@,
            Fault::Execute(_) => ENGINE@ + " query execution failed: "@,
            Fault::Fetch(_) => "failed to fetch "@ + ENGINE@ + " row: "@,
            Fault::Decode(_) => "failed to decode "@ + ENGINE@ + " row: "@,
        }
    }

    /// The message that came with the fault.
    pub open spec fn detail(self) -> Seq<char> {
        match self {
            Fault::Runtime(text) => text@,
            Fault::NoRuntime => Seq::empty(),
            Fault::Config(text) => text@,
            Fault::Connect(text) => text@,
            Fault::Execute(text) => text@,
            Fault::Fetch(text) => text@,
            Fault::Decode(text) => text@,
        }
    }

    /// The message for the fault.
    pub fn message(&self) -> (r: String)
        ensures
            r@ == self.prefix() + self.detail(),
    {
        match self {
            Fault::Runtime(text) => "create tokio runtime failed: ".to_owned().concat(
                text.as_str(),
            ),
            Fault::NoRuntime => "create tokio runtime failed.".to_owned(),
            Fault::Config(text) => "failed to build ".to_owned().concat(ENGINE).concat(
                " config: ",
            ).concat(text.as_str()),
            Fault::Connect(text) => "failed to connect to ".to_owned().concat(ENGINE).concat(
                ": ",
            ).concat(text.as_str()),
            Fault::Execute(text) => ENGINE.to_owned().concat(" query execution failed: ").concat(
                text.as_str(),
            ),
            Fault::Fetch(text) => "failed to fetch ".to_owned().concat(ENGINE).concat(
                " row: ",
            ).concat(text.as_str()),
            Fault::Decode(text) => "failed to decode ".to_owned().concat(ENGINE).concat(
                " row: ",
            ).concat(text.as_str()),
        }
    }
}

} // verus!
