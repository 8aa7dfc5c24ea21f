//! The error type of the client: a kind, a message, and, for aggregated
//! publish failures, the list of per-event failure reasons.

use vstd::prelude::*;

verus! {

/// The kind of a client error.
#[derive(Clone, Copy, Debug, PartialEq, Eq, Structural)]
pub enum Kind {
    /// Something with the given client configuration is not correct.
    /// This could be a missing field or a wrong value.
    Config,
    /// The client could not connect to the server.
    Connect,
    /// The client could not send one or more messages. The reasons for the
    /// messages that could not be sent are in the related messages.
    Send,
}

impl Kind {
    /// The name of the kind, for display.
    pub fn as_text(&self) -> (r: &'static str)
        ensures
            r@ == spec_kind_text(*self),
    {
        match self {
            Kind::Config => "Config",
            Kind::Connect => "Connect",
            Kind::Send => "Send",
        }
    }
}

/// The display name of an error kind.
pub open spec fn spec_kind_text(k: Kind) -> Seq<char> {
    match k {
        Kind::Config => "Config"@,
        Kind::Connect => "Connect"@,
        Kind::Send => "Send"@,
    }
}

/// Mathematical model of an [`Error`].
pub ghost struct ErrorModel {
    pub kind: Kind,
    pub message: Seq<char>,
    pub related_messages: Option<Seq<Seq<char>>>,
}

/// A client error: its kind, a human-readable message, and optionally a list
/// of related messages (the per-event reasons of an aggregated send failure).
#[derive(Debug, Clone)]
pub struct Error {
    kind: Kind,
    message: String,
    related_messages: Option<Vec<String>>,
}

impl View for Error {
    type V = ErrorModel;

    closed spec fn view(&self) -> ErrorModel {
        ErrorModel {
            kind: self.kind,
            message: self.message@,
            related_messages: match self.related_messages {
                Some(r) => Some(r@.map_values(|m: String| m@)),
                None => None,
            },
        }
    }
}

/// Related messages joined for display, separated by `", "`.
pub open spec fn spec_join_reasons(rs: Seq<Seq<char>>) -> Seq<char>
    decreases rs.len(),
{
    if rs.len() == 0 {
        Seq::empty()
    } else if rs.len() == 1 {
        rs[0]
    } else {
        spec_join_reasons(rs.drop_last()) + ", "@ + rs.last()
    }
}

/// The display text of an error: `"<kind>: <message>"`, with the related
/// messages appended where there are any.
pub open spec fn spec_error_text(e: ErrorModel) -> Seq<char> {
    let head = spec_kind_text(e.kind) + ": "@ + e.message;
    match e.related_messages {
        Some(rs) => head + "; related: "@ + spec_join_reasons(rs),
        None => head,
    }
}

impl Error {
    /// Make a new error of the given kind.
    pub fn new(kind: Kind, message: String) -> (r: Error)
        ensures
            r@ == (ErrorModel { kind, message: message@, related_messages: None }),
    {
        Error { kind, message, related_messages: None }
    }

    /// Make a new error of the given kind that carries related messages.
    pub fn new_with_related(kind: Kind, message: String, related_message: Vec<String>) -> (r: Error)
        ensures
            r@ == (ErrorModel {
                kind,
                message: message@,
                related_messages: Some(related_message@.map_values(|m: String| m@)),
            }),
    {
        Error { kind, message, related_messages: Some(related_message) }
    }

    /// The kind of this error.
    pub fn kind(&self) -> (k: Kind)
        ensures
            k == self@.kind,
    {
        self.kind
    }

    /// The message of this error.
    pub fn message(&self) -> (m: &String)
        ensures
            m@ == self@.message,
    {
        &self.message
    }

    /// The related messages of this error, where there are any.
    pub fn related_messages(&self) -> (r: &Option<Vec<String>>)
        ensures
            match r {
                Some(v) => self@.related_messages == Some(v@.map_values(|m: String| m@)),
                None => self@.related_messages is None,
            },
    {
        &self.related_messages
    }

    /// Render the error for display.
    pub fn to_text(&self) -> (r: String)
        ensures
            r@ == spec_error_text(self@),
    {
        let mut s = String::from_str(self.kind.as_text());
        s.append(": ");
        s.append(self.message.as_str());
        match &self.related_messages {
            Some(rs) => {
                s.append("; related: ");
                let mut i: usize = 0;
                while i < rs.len()
                    invariant
                        i <= rs.len(),
                        s@ =~= spec_kind_text(self@.kind) + ": "@ + self@.message
                            + "; related: "@
                            + spec_join_reasons(rs@.map_values(|m: String| m@).take(i as int)),
                    decreases rs.len() - i,
                {
                    if i > 0 {
                        s.append(", ");
                    }
                    s.append(rs[i].as_str());
                    i = i + 1;
                    proof {
                        let all = rs@.map_values(|m: String| m@);
                        assert(all.take(i as int).drop_last() =~= all.take(i as int - 1));
                        assert(all.take(i as int).last() == all[i as int - 1]);
                    }
                }
                proof {
                    let all = rs@.map_values(|m: String| m@);
                    assert(all.take(rs@.len() as int) =~= all);
                }
            },
            None => {},
        }
        s
    }
}

} // verus!
