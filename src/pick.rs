use vstd::prelude::*;

verus! {

/// Relies on random_number::random_inclusively: a uniformly drawn value
/// between its two bounds, both included (it panics only when the lower
/// bound is the greater, which zero never is).
#[verifier::external_body]
fn random_up_to(max: usize) -> (r: usize)
    ensures
        r <= max,
{
    random_number::random_inclusively(0usize, max)
}

/// Whether `p` is one of the texts of `paths`.
pub open spec fn one_of(p: Seq<char>, paths: Seq<String>) -> bool {
    exists|i: int| 0 <= i < paths.len() && (#[trigger] paths[i])@ == p
}

/// The path at a drawn position of a list.
pub fn path_at(paths: &Vec<String>, index: usize) -> (r: String)
    requires
        index < paths@.len(),
    ensures
        r@ == paths@[index as int]@,
{
    paths[index].clone()
}

/// One of the paths, drawn uniformly at random, with no memory of earlier
/// draws.
pub fn pick_path(paths: &Vec<String>) -> (r: String)
    requires
        paths@.len() > 0,
    ensures
        one_of(r@, paths@),
{
    let i = random_up_to(paths.len() - 1);
    let r = path_at(paths, i);
    assert(paths@[i as int]@ == r@);
    r
}

} // verus!
