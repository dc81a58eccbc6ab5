//! The generic result envelope: the single shape in which every command
//! handler reports its outcome to the interactive surface.

use vstd::prelude::*;

verus! {

/// A command result crossing the front-end boundary: an optional payload,
/// a human-readable message and a success flag. The envelope is a value
/// type, built once by the handler that produced the result and never
/// mutated afterwards.
#[derive(Debug)]
pub struct CommandData<T> {
    pub data: Option<T>,
    pub message: String,
    pub status: bool,
}

/// The view of an optional string payload.
pub open spec fn opt_view(d: Option<String>) -> Option<Seq<char>> {
    match d {
        Some(x) => Some(x@),
        None => None,
    }
}

/// What a success envelope built from `message` and `data` looks like:
/// payload present, message taken verbatim, success flag set.
pub open spec fn is_ok_envelope<T>(e: &CommandData<T>, message: Seq<char>, data: T) -> bool {
    &&& e.data == Some(data)
    &&& e.message@ == message
    &&& e.status == true
}

/// What a failure envelope built from `message` and `data` looks like:
/// payload present, message taken verbatim, success flag cleared.
pub open spec fn is_err_envelope<T>(e: &CommandData<T>, message: Seq<char>, data: T) -> bool {
    &&& e.data == Some(data)
    &&& e.message@ == message
    &&& e.status == false
}

impl<T> CommandData<T> {
    /// Builds a success envelope. Construction cannot fail: every field is
    /// fully specified by the arguments.
    pub fn ok(message: &str, data: T) -> (r: Self)
        ensures
            is_ok_envelope(&r, message@, data),
    {
        CommandData { data: Some(data), message: String::from_str(message), status: true }
    }

    /// Builds a failure envelope. Construction cannot fail: every field is
    /// fully specified by the arguments.
    pub fn err(message: &str, data: T) -> (r: Self)
        ensures
            is_err_envelope(&r, message@, data),
    {
        CommandData { data: Some(data), message: String::from_str(message), status: false }
    }
}

/// The diagnostic text for an envelope carrying an optional string
/// payload.
pub open spec fn rendering_of(data: Option<Seq<char>>, message: Seq<char>, status: bool) -> Seq<
    char,
> {
    "data: "@ + (match data {
        Some(d) => "Some(\""@ + d + "\")"@,
        None => "None"@,
    }) + "\nmessage: "@ + message + ",\nstatus: "@ + (if status {
        "true"@
    } else {
        "false"@
    }) + "\n"@
}

impl CommandData<String> {
    /// A textual rendering for diagnostics. It is not part of the wire
    /// contract and must not be machine-parsed; only the serialized
    /// structural form is.
    pub fn render(&self) -> (r: String)
        ensures
            r@ == rendering_of(opt_view(self.data), self.message@, self.status),
    {
        let mut out = String::from_str("data: ");
        match &self.data {
            Some(d) => {
                out.append("Some(\"");
                out.append(d.as_str());
                out.append("\")");
            },
            None => {
                out.append("None");
            },
        }
        out.append("\nmessage: ");
        out.append(self.message.as_str());
        out.append(",\nstatus: ");
        if self.status {
            out.append("true");
        } else {
            out.append("false");
        }
        out.append("\n");
        proof {
            assert(out@ =~= rendering_of(opt_view(self.data), self.message@, self.status));
        }
        out
    }
}

impl<T> Default for CommandData<T> {
    /// The safe base for handlers that do not customise the success path:
    /// implicit success with no payload and a placeholder message.
    fn default() -> (r: Self)
        ensures
            r.data is None,
            r.status == true,
            r.message@ == "returned data form core"@,
    {
        CommandData {
            data: None,
            message: String::from_str("returned data form core"),
            status: true,
        }
    }
}

/// Law: building a success envelope is deterministic. Any two envelopes
/// built from identical inputs are structurally identical: same payload,
/// same message text, same flag.
pub proof fn lemma_ok_deterministic<T>(
    e1: &CommandData<T>,
    e2: &CommandData<T>,
    message: Seq<char>,
    data: T,
)
    requires
        is_ok_envelope(e1, message, data),
        is_ok_envelope(e2, message, data),
    ensures
        e1.data == e2.data,
        e1.message@ == e2.message@,
        e1.status == e2.status,
{
}

/// Law: building a failure envelope is deterministic, the same way.
pub proof fn lemma_err_deterministic<T>(
    e1: &CommandData<T>,
    e2: &CommandData<T>,
    message: Seq<char>,
    data: T,
)
    requires
        is_err_envelope(e1, message, data),
        is_err_envelope(e2, message, data),
    ensures
        e1.data == e2.data,
        e1.message@ == e2.message@,
        e1.status == e2.status,
{
}

} // verus!
