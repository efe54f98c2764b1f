//! The one line that says how the program is called.

use vstd::prelude::*;

verus! {

/// The usage line for a program called `program`.
pub open spec fn usage_line(program: Seq<char>) -> Seq<char> {
    "Usage: "@ + program + " -o PASSWD [-p PORT] [(-q|-v|--vv)]"@
}

/// Builds the usage line.
pub fn brief(program: &str) -> (r: String)
    ensures
        r@ == usage_line(program@),
{
    let mut r = String::new();
    r.append("Usage: ");
    r.append(program);
    r.append(" -o PASSWD [-p PORT] [(-q|-v|--vv)]");
    assert(r@ =~= usage_line(program@));
    r
}

} // verus!
