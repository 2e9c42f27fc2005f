use vstd::prelude::*;
use vstd::string::StringExecFns;
use crate::text::str_eq;

verus! {

broadcast use vstd::string::axiom_spec_iter, vstd::string::next_postcondition;

/// Whether a path starts at the root.
pub open spec fn is_absolute(s: Seq<char>) -> bool {
    s.len() > 0 && s[0] == '/'
}

/// `name` resolved against directory `base`: an absolute name stands alone,
/// any other is appended to `base` after a separator.
pub open spec fn spec_join(base: Seq<char>, name: Seq<char>) -> Seq<char> {
    if is_absolute(name) {
        name
    } else if base == seq!['/'] {
        seq!['/'] + name
    } else {
        base + seq!['/'] + name
    }
}

pub fn first_char(s: &str) -> (r: Option<char>)
    ensures
        r == (if s@.len() > 0 {
            Some(s@[0])
        } else {
            None
        }),
{
    let mut it = s.chars();
    it.next()
}

pub fn path_is_absolute(s: &str) -> (r: bool)
    ensures
        r == is_absolute(s@),
{
    match first_char(s) {
        Some(c) => c == '/',
        None => false,
    }
}

/// Resolves `name` against directory `base`.
pub fn join(base: &str, name: &str) -> (r: String)
    ensures
        r@ == spec_join(base@, name@),
{
    if path_is_absolute(name) {
        return name.to_owned();
    }
    let root = "/";
    proof {
        reveal_strlit("/");
        assert(root@ =~= seq!['/']);
    }
    let mut r = if str_eq(base, root) {
        String::from_str(root)
    } else {
        let mut b = base.to_owned();
        b.append(root);
        b
    };
    r.append(name);
    r
}

} // verus!
