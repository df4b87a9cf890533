//! The greeting operation: a total function from a name to a fixed
//! greeting text that embeds the name.

use vstd::prelude::*;
use vstd::string::StringExecFns;

verus! {

/// The exact greeting text produced for a given name.
pub open spec fn greeting_of(name: Seq<char>) -> Seq<char> {
    "Hello, "@ + name + "! You've been greeted from Rust!"@
}

/// Builds the greeting for `name`. Total: accepts any string, never fails.
pub fn greet(name: &str) -> (r: String)
    ensures
        r@ == greeting_of(name@),
{
    let mut s = String::new();
    s.append("Hello, ");
    s.append(name);
    s.append("! You've been greeted from Rust!");
    s
}

/// Law: the greeting is never empty and embeds the name verbatim
/// (as the subrange starting right after the salutation).
pub proof fn lemma_greeting_contains_name(name: Seq<char>)
    ensures
        greeting_of(name).len() > 0,
        greeting_of(name).subrange(7, 7 + name.len() as int) =~= name,
{
    reveal_strlit("Hello, ");
    reveal_strlit("! You've been greeted from Rust!");
    assert("Hello, "@.len() == 7);
}

} // verus!
