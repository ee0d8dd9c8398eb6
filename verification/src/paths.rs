//! Paths of files, as text with `/` between the parts.

use vstd::prelude::*;

use crate::text;

verus! {

/// The path `name` seen from `dir`. An absolute `name` stands alone.
pub open spec fn joined(dir: Seq<char>, name: Seq<char>) -> Seq<char> {
    if name.len() > 0 && name[0] == '/' {
        name
    } else if dir.len() > 0 && dir.last() != '/' {
        dir + "/"@ + name
    } else {
        dir + name
    }
}

/// The path `name` seen from `dir`. An absolute `name` stands alone.
pub fn join(dir: &str, name: &str) -> (r: String)
    ensures
        r@ == joined(dir@, name@),
{
    let d = text::chars_of(dir);
    let n = text::chars_of(name);
    if n.len() > 0 && n[0] == '/' {
        name.to_owned()
    } else if d.len() > 0 && d[d.len() - 1] != '/' {
        text::cat3(dir, "/", name)
    } else {
        text::cat2(dir, name)
    }
}

} // verus!
