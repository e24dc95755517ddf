use vstd::prelude::*;

verus! {

/// Where a sample goes when no usable path is given: `<hash>.vir` in the
/// current directory.
pub open spec fn default_path_of(hash: Seq<char>) -> Seq<char> {
    hash + ".vir"@
}

/// The download target: the given path where its parent directory exists,
/// else the default name.
pub open spec fn target_path_of(
    hash: Seq<char>,
    output: Option<Seq<char>>,
    parent_exists: bool,
) -> Seq<char> {
    match output {
        Some(p) => if parent_exists {
            p
        } else {
            default_path_of(hash)
        },
        None => default_path_of(hash),
    }
}

/// The file name `<hash>.vir`.
pub fn default_output_path(hash: &str) -> (r: String)
    ensures
        r@ == default_path_of(hash@),
{
    let mut p = String::from_str(hash);
    p.append(".vir");
    p
}

/// Resolves where a downloaded sample is written. `parent_exists` tells
/// whether the parent directory of `output` exists; a missing directory is
/// not created: the sample goes to `<hash>.vir` instead.
pub fn resolve_output_path(hash: &str, output: Option<String>, parent_exists: bool) -> (r: String)
    ensures
        r@ == target_path_of(hash@, match output {
            Some(p) => Some(p@),
            None => None,
        }, parent_exists),
        output is Some && parent_exists ==> r@ == output->0@,
        output is None || !parent_exists ==> r@ == default_path_of(hash@),
{
    match output {
        Some(p) => {
            if parent_exists {
                p
            } else {
                default_output_path(hash)
            }
        },
        None => default_output_path(hash),
    }
}

/// Samples of distinct hashes fetched without an explicit path land in
/// distinct files, so such downloads never overwrite each other.
pub proof fn lemma_distinct_hashes_distinct_files(h1: Seq<char>, h2: Seq<char>)
    requires
        h1 != h2,
    ensures
        default_path_of(h1) != default_path_of(h2),
{
    if default_path_of(h1) == default_path_of(h2) {
        assert(default_path_of(h1).len() == h1.len() + ".vir"@.len());
        assert(default_path_of(h2).len() == h2.len() + ".vir"@.len());
        assert(h1.len() == h2.len());
        assert(h1 =~= default_path_of(h1).take(h1.len() as int));
        assert(h2 =~= default_path_of(h2).take(h2.len() as int));
    }
}

} // verus!
