//! Joining path segments.
use vstd::prelude::*;
use vstd::string::StrSliceExecFns;
use vstd::string::StringExecFns;

verus! {

/// Whether `c` separates path segments (`/`, or `\\` on Windows).
pub open spec fn is_separator(c: char) -> bool {
    c == '/' || c == '\\'
}

/// `name` placed inside the directory `base`, with `/` as the separator.
/// An empty base leaves `name` alone; a base that already ends in a
/// separator gets no second one.
pub open spec fn join_spec(base: Seq<char>, name: Seq<char>) -> Seq<char> {
    if base.len() == 0 {
        name
    } else if is_separator(base.last()) {
        base + name
    } else {
        base + seq!['/'] + name
    }
}

fn is_separator_char(c: char) -> (r: bool)
    ensures
        r == is_separator(c),
{
    c == '/' || c == '\\'
}

/// Joins a relative `name` onto the directory `base`.
pub fn join(base: &str, name: &str) -> (r: String)
    ensures
        r@ == join_spec(base@, name@),
{
    let n = base.unicode_len();
    let mut r = String::from_str(base);
    if n > 0 && !is_separator_char(base.get_char(n - 1)) {
        r.append("/");
    }
    r.append(name);
    proof {
        reveal_strlit("/");
        if n > 0 && !is_separator(base@.last()) {
            assert(r@ =~= base@ + seq!['/'] + name@);
        }
    }
    r
}

} // verus!
