//! The executable resolver: splits a search-path variable on `:` into a
//! directory list, builds `directory/name` candidates in listed order, and
//! selects the first candidate that exists, is a regular file, and is
//! executable. The filesystem itself is consulted by the caller, which hands
//! in one [`FileStatus`] per candidate; the selection logic here never
//! accepts a directory or a non-executable file.

use vstd::prelude::*;
use crate::strutil::chars_to_string;

verus! {

/// What the filesystem reports about one candidate path.
#[derive(Clone, Copy, PartialEq, Eq, Structural, Debug)]
pub struct FileStatus {
    pub exists: bool,
    pub is_regular: bool,
    pub is_executable: bool,
}

/// A candidate is accepted only if it exists, is a regular file, and is
/// executable by the current user.
pub open spec fn is_match(f: FileStatus) -> bool {
    f.exists && f.is_regular && f.is_executable
}

/// One state of splitting on `:`; empty fields are kept, as `PATH` semantics
/// treat an empty entry as a directory in its own right.
pub open spec fn split_colon_from(rest: Seq<char>, cur: Seq<char>, acc: Seq<Seq<char>>) -> Seq<
    Seq<char>,
>
    decreases rest.len(),
{
    if rest.len() == 0 {
        acc.push(cur)
    } else if rest[0] == ':' {
        split_colon_from(rest.skip(1), Seq::empty(), acc.push(cur))
    } else {
        split_colon_from(rest.skip(1), cur.push(rest[0]), acc)
    }
}

/// The directories of a search-path variable, in listed order.
pub open spec fn spec_split_colon(s: Seq<char>) -> Seq<Seq<char>> {
    split_colon_from(s, Seq::empty(), Seq::empty())
}

/// The path built for `name` under `dir`: `dir/name`, except that an empty
/// directory yields `name` alone and a directory already ending in `/` gets
/// no second separator.
pub open spec fn spec_candidate(dir: Seq<char>, name: Seq<char>) -> Seq<char> {
    if dir.len() == 0 {
        name
    } else if dir.last() == '/' {
        dir + name
    } else {
        dir + seq!['/'] + name
    }
}

/// The candidate paths for `name` over a whole search-path variable.
pub open spec fn spec_candidates(name: Seq<char>, path_var: Seq<char>) -> Seq<Seq<char>> {
    spec_split_colon(path_var).map_values(|d: Seq<char>| spec_candidate(d, name))
}

/// Splits a search-path variable on `:`, keeping empty fields.
pub fn split_search_path(path_var: &str) -> (dirs: Vec<String>)
    ensures
        dirs.deep_view() == spec_split_colon(path_var@),
{
    let n = path_var.unicode_len();
    let mut i: usize = 0;
    let mut cur: Vec<char> = Vec::new();
    let mut dirs: Vec<String> = Vec::new();
    proof {
        assert(path_var@.skip(0) =~= path_var@);
        assert(dirs.deep_view() =~= Seq::<Seq<char>>::empty());
    }
    while i < n
        invariant
            n == path_var@.len(),
            i <= n,
            split_colon_from(path_var@.skip(i as int), cur@, dirs.deep_view())
                == spec_split_colon(path_var@),
        decreases n - i,
    {
        proof {
            assert(path_var@.skip(i as int)[0] == path_var@[i as int]);
            assert(path_var@.skip(i as int).skip(1) =~= path_var@.skip(i as int + 1));
        }
        let c = path_var.get_char(i);
        if c == ':' {
            let ghost old_dirs = dirs.deep_view();
            let field = chars_to_string(&cur);
            dirs.push(field);
            cur = Vec::new();
            proof {
                assert(dirs.deep_view() =~= old_dirs.push(field@));
                assert(cur@ =~= Seq::<char>::empty());
            }
        } else {
            cur.push(c);
        }
        i = i + 1;
    }
    proof {
        assert(path_var@.skip(n as int) =~= Seq::<char>::empty());
    }
    let ghost old_dirs = dirs.deep_view();
    let field = chars_to_string(&cur);
    dirs.push(field);
    proof {
        assert(dirs.deep_view() =~= old_dirs.push(field@));
    }
    dirs
}

/// Builds the candidate path for `name` under one directory.
pub fn candidate_path(dir: &str, name: &str) -> (r: String)
    ensures
        r@ == spec_candidate(dir@, name@),
{
    let n = dir.unicode_len();
    if n == 0 {
        String::from_str(name)
    } else if dir.get_char(n - 1) == '/' {
        String::from_str(dir).concat(name)
    } else {
        proof {
            reveal_strlit("/");
        }
        let r = String::from_str(dir).concat("/").concat(name);
        proof {
            assert(r@ =~= dir@ + seq!['/'] + name@);
        }
        r
    }
}

/// The candidate paths for `name`, one per directory of the search-path
/// variable, in listed order.
pub fn candidate_paths(name: &str, path_var: &str) -> (r: Vec<String>)
    ensures
        r.deep_view() == spec_candidates(name@, path_var@),
{
    let dirs = split_search_path(path_var);
    let mut out: Vec<String> = Vec::new();
    let mut k: usize = 0;
    proof {
        assert(out.deep_view() =~= spec_candidates(name@, path_var@).take(0));
    }
    while k < dirs.len()
        invariant
            dirs.deep_view() == spec_split_colon(path_var@),
            k <= dirs.len(),
            out.deep_view() == spec_candidates(name@, path_var@).take(k as int),
        decreases dirs.len() - k,
    {
        let ghost old_out = out.deep_view();
        let cand = candidate_path(dirs[k].as_str(), name);
        out.push(cand);
        k = k + 1;
        proof {
            assert(out.deep_view() =~= old_out.push(cand@));
            assert(out.deep_view() =~= spec_candidates(name@, path_var@).take(k as int));
        }
    }
    proof {
        assert(spec_candidates(name@, path_var@).take(dirs.deep_view().len() as int)
            =~= spec_candidates(name@, path_var@));
    }
    out
}

/// Selects the first qualifying candidate, scanning left to right. Never
/// returns an entry that is a directory or not executable: a `Some(i)` result
/// carries proof that entry `i` qualifies and no earlier entry does.
pub fn first_executable(infos: &Vec<FileStatus>) -> (r: Option<usize>)
    ensures
        match r {
            Some(i) => i < infos@.len() && is_match(infos@[i as int]) && forall|j: int|
                0 <= j < i ==> !is_match(infos@[j]),
            None => forall|j: int| 0 <= j < infos@.len() ==> !is_match(infos@[j]),
        },
{
    let mut i: usize = 0;
    while i < infos.len()
        invariant
            i <= infos@.len(),
            forall|j: int| 0 <= j < i ==> !is_match(infos@[j]),
        decreases infos@.len() - i,
    {
        let f = infos[i];
        if f.exists && f.is_regular && f.is_executable {
            return Some(i);
        }
        i = i + 1;
    }
    None
}

} // verus!
