//! Building the argument lists of git commands.

use vstd::prelude::*;

verus! {

/// Owned copies of the given texts, in order.
pub fn strings(parts: &[&str]) -> (r: Vec<String>)
    ensures
        r.deep_view() == parts.deep_view(),
{
    let mut r: Vec<String> = Vec::new();
    let mut i: usize = 0;
    while i < parts.len()
        invariant
            i <= parts@.len(),
            r.deep_view() == parts.deep_view().take(i as int),
        decreases parts.len() - i,
    {
        let s: String = parts[i].to_owned();
        let ghost old_r = r.deep_view();
        r.push(s);
        assert(r.deep_view() =~= old_r.push(parts@[i as int]@));
        assert(r.deep_view() =~= parts.deep_view().take(i + 1));
        i = i + 1;
    }
    assert(parts.deep_view().take(i as int) =~= parts.deep_view());
    r
}

/// Appends `a` to the argument list.
pub fn push_arg(args: &mut Vec<String>, a: String)
    ensures
        final(args).deep_view() == old(args).deep_view().push(a@),
{
    let ghost before = args.deep_view();
    args.push(a);
    assert(args.deep_view() =~= before.push(a@));
}

} // verus!
