//! Texts that come from outside: functions that callers hand in.
use vstd::prelude::*;

verus! {

/// `output` is a text that `f` may give for the text `input`.
pub open spec fn may_give<F: Fn(&String) -> String>(f: F, input: Seq<char>, output: Seq<char>) -> bool {
    exists|i: String, o: String|
        i@ == input && o@ == output && #[trigger] call_ensures(f, (&i,), o)
}

/// `f` can be called on every text.
pub open spec fn takes_all<F: Fn(&String) -> String>(f: F) -> bool {
    forall|i: &String| #[trigger] call_requires(f, (i,))
}

/// Asks `f` for a text.
pub fn ask<F: Fn(&String) -> String>(f: &F, input: &String) -> (r: String)
    requires
        takes_all(*f),
    ensures
        may_give(*f, input@, r@),
{
    f(input)
}

// ---------------------------------------------------------------------------
// Laws
// ---------------------------------------------------------------------------
/// What a function gives for a text comes of a call with just that text, and what a call
/// gives it gives for its text.
pub proof fn given_by_a_call<F: Fn(&String) -> String>(f: F, input: Seq<char>, output: Seq<char>, i: String, o: String)
    ensures
        may_give(f, input, output) ==> exists|x: String, y: String|
            x@ == input && y@ == output && #[trigger] call_ensures(f, (&x,), y),
        call_ensures(f, (&i,), o) ==> may_give(f, i@, o@),
        takes_all(f) ==> call_requires(f, (&i,)),
{
}

}
