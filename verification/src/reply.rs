//! What a call is answered with.

use crate::json::{JsonView, Object};
use vstd::prelude::*;

verus! {

/// What the answer to a call is.
pub enum ReplyView {
    Success(Map<Seq<char>, JsonView>),
    Error { code: Seq<char>, message: Seq<char> },
    Raw(Seq<char>),
}

/// The answer to a call: the members of a successful response, an error, or a text that is
/// handed out as it is.
#[derive(Debug, PartialEq, Eq)]
pub enum Reply {
    Success(Object),
    Error { code: String, message: String },
    Raw(String),
}

impl Reply {
    /// The answer as a mathematical object.
    pub open spec fn view(&self) -> ReplyView {
        match self {
            Reply::Success(members) => ReplyView::Success(members@),
            Reply::Error { code, message } => ReplyView::Error {
                code: code@,
                message: message@,
            },
            Reply::Raw(text) => ReplyView::Raw(text@),
        }
    }

    /// An error.
    pub fn error(code: &str, message: String) -> (r: Self)
        ensures
            r@ == (ReplyView::Error { code: code@, message: message@ }),
    {
        Reply::Error { code: code.to_owned(), message }
    }
}

/// The answer when the table of connections cannot be trusted any more.
pub open spec fn poisoned_reply() -> ReplyView {
    ReplyView::Error {
        code: "connector.statePoisoned"@,
        message: "Connector connection state is poisoned."@,
    }
}

/// The answer when the table of connections cannot be trusted any more.
pub fn state_poisoned() -> (r: Reply)
    ensures
        r@ == poisoned_reply(),
{
    Reply::error("connector.statePoisoned", "Connector connection state is poisoned.".to_owned())
}

} // verus!
