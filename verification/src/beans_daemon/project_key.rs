//! Resolving a directory to its project key: the nearest directory, from the
//! (canonical) starting directory upwards, that holds a `.beans.yml` marker.
//! The caller canonicalizes the start and tests each marker file; this module
//! names the marker file of a directory and the next directory to try.
use vstd::prelude::*;
use crate::paths::{
    is_absolute, join_relative, join_relative_spec, law_join_relative_adds_one_segment, no_slash, parent_dir,
    parent_of, segments,
};

verus! {

/// The marker file of directory `dir`.
pub fn marker_file(dir: &String) -> (r: String)
    ensures
        r@ == join_relative_spec(dir@, ".beans.yml"@),
{
    join_relative(dir, ".beans.yml")
}

/// The directory to try after `dir`: its parent; none once the root is reached.
pub fn next_candidate(dir: &String) -> (r: Option<String>)
    ensures
        match r {
            Some(p) => parent_of(dir@) == Some(p@),
            None => parent_of(dir@) is None,
        },
{
    parent_dir(dir)
}

/// The marker of a directory lies in that directory: its segments are the
/// directory's followed by `.beans.yml`, and it starts at the root exactly
/// when the directory does.
pub proof fn law_marker_lies_in_its_directory(dir: Seq<char>)
    ensures
        segments(join_relative_spec(dir, ".beans.yml"@)) == segments(dir).push(".beans.yml"@),
        dir.len() > 0 ==> is_absolute(join_relative_spec(dir, ".beans.yml"@)) == is_absolute(dir),
{
    reveal_strlit(".beans.yml");
    let m = ".beans.yml"@;
    assert(m =~= seq!['.', 'b', 'e', 'a', 'n', 's', '.', 'y', 'm', 'l']);
    assert(no_slash(m));
    assert(m != seq!['.']);
    law_join_relative_adds_one_segment(dir, m);
}

} // verus!
