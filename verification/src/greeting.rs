//! The one illustrative command handler: greets a caller by name and wraps
//! the greeting in a result envelope.

use vstd::prelude::*;
use crate::envelope::CommandData;

verus! {

/// The greeting computed for a caller named `name`.
pub open spec fn greeting_of(name: Seq<char>) -> Seq<char> {
    "Hello, "@ + name + "! You've been greeted."@
}

/// Computes the greeting text for `name`.
pub fn greet(name: &str) -> (r: String)
    ensures
        r@ == greeting_of(name@),
{
    let mut out = String::from_str("Hello, ");
    out.append(name);
    out.append("! You've been greeted.");
    out
}

/// The handler the host invokes for a greeting command: always succeeds,
/// reporting the greeting under the message `greeted`.
pub fn greet_handler(name: &str) -> (r: CommandData<String>)
    ensures
        r.status == true,
        r.message@ == "greeted"@,
        r.data matches Some(g) && g@ == greeting_of(name@),
{
    let g = greet(name);
    CommandData::ok("greeted", g)
}

} // verus!
