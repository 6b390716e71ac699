//! The greeting shown to a named user.

use vstd::prelude::*;
use vstd::string::*;

verus! {

/// The greeting for `name`: a fixed opening, the name as given, a fixed close.
pub open spec fn greeting(name: Seq<char>) -> Seq<char> {
    "Hello, "@ + name + "! Welcome to SprintLoop."@
}

/// `needle` stands in `hay` at offset `at`, character for character.
pub open spec fn occurs_at(hay: Seq<char>, needle: Seq<char>, at: int) -> bool {
    &&& 0 <= at
    &&& at + needle.len() <= hay.len()
    &&& hay.subrange(at, at + needle.len()) == needle
}

/// `needle` stands somewhere in `hay`.
pub open spec fn occurs_in(hay: Seq<char>, needle: Seq<char>) -> bool {
    exists|at: int| occurs_at(hay, needle, at)
}

/// Every greeting holds the name it was made for, unchanged, right after the
/// opening.
pub proof fn lemma_greeting_holds_name(name: Seq<char>)
    ensures
        occurs_at(greeting(name), name, 7),
        occurs_in(greeting(name), name),
{
    reveal_strlit("Hello, ");
    let g = greeting(name);
    assert(g.subrange(7, 7 + name.len() as int) =~= name);
    assert(occurs_at(g, name, 7));
}

/// Greets `name`. No name is refused and none is altered.
pub fn greet(name: &str) -> (r: String)
    ensures
        r@ == greeting(name@),
        occurs_in(r@, name@),
{
    let mut r = String::from_str("Hello, ");
    r.append(name);
    r.append("! Welcome to SprintLoop.");
    proof {
        lemma_greeting_holds_name(name@);
    }
    r
}

} // verus!
