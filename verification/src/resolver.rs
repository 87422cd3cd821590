//! Search-path resolution: the search-path variable split on `:`, each
//! named directory joined with the command name, and the first candidate the
//! filesystem accepts.
//!
//! An empty search-path variable names no directory at all, so it yields no
//! candidates and nothing ever resolves through it; empty pieces between
//! separators name no directory either and are skipped.
//!
//! Whether a candidate exists as an executable regular file only the
//! filesystem can say; the caller probes each candidate and hands the
//! answers back, and the first-match-wins choice is made here.

use vstd::prelude::*;

use crate::text::{split_on, split_string};

verus! {

/// A directory joined with a command name, as a path. The resolver never
/// joins an empty directory; for totality, an empty one yields the bare name.
pub open spec fn candidate_path(dir: Seq<char>, name: Seq<char>) -> Seq<char> {
    if dir.len() == 0 {
        name
    } else if dir.last() == '/' {
        dir + name
    } else {
        dir + seq!['/'] + name
    }
}

/// Join one directory with a command name.
pub fn join_candidate(dir: &str, name: &str) -> (r: String)
    ensures
        r@ == candidate_path(dir@, name@),
{
    let n = dir.unicode_len();
    if n == 0 {
        String::from_str(name)
    } else {
        let mut out = String::from_str(dir);
        if dir.get_char(n - 1) != '/' {
            out.append("/");
            proof {
                reveal_strlit("/");
                assert("/"@ =~= seq!['/']);
            }
        }
        out.append(name);
        out
    }
}

/// The candidates made from the pieces of the search-path variable: each
/// non-empty piece joined with the name, in order. An empty piece names no
/// directory and yields no candidate.
pub open spec fn candidate_paths(pieces: Seq<Seq<char>>, name: Seq<char>) -> Seq<Seq<char>>
    decreases pieces.len(),
{
    if pieces.len() == 0 {
        Seq::empty()
    } else if pieces[0].len() == 0 {
        candidate_paths(pieces.skip(1), name)
    } else {
        seq![candidate_path(pieces[0], name)] + candidate_paths(pieces.skip(1), name)
    }
}

/// The candidate paths for a command name: the search-path variable split on
/// `:`, in order, each named directory joined with the name. An unset or
/// empty variable yields no candidates, so nothing resolves through it.
pub fn resolve_candidates(path_var: &str, name: &str) -> (cands: Vec<String>)
    ensures
        cands.deep_view() == candidate_paths(split_on(path_var@, ':'), name@),
        path_var@.len() == 0 ==> cands.deep_view().len() == 0,
{
    let dirs = split_string(path_var, ':');
    let ghost all = dirs.deep_view();
    let mut cands: Vec<String> = Vec::new();
    let mut i: usize = 0;
    proof {
        assert(all.skip(0) =~= all);
        assert(cands.deep_view() =~= Seq::<Seq<char>>::empty());
        assert(Seq::<Seq<char>>::empty() + candidate_paths(all, name@) =~= candidate_paths(
            all,
            name@,
        ));
    }
    while i < dirs.len()
        invariant
            all == dirs.deep_view(),
            dirs@.len() == all.len(),
            i <= dirs.len(),
            candidate_paths(all, name@) == cands.deep_view() + candidate_paths(
                all.skip(i as int),
                name@,
            ),
        decreases dirs.len() - i,
    {
        proof {
            assert(all.skip(i as int)[0] == all[i as int]);
            assert(all.skip(i as int).skip(1) =~= all.skip(i + 1int));
            assert(all[i as int] == dirs@[i as int]@);
        }
        if dirs[i].as_str().unicode_len() > 0 {
            let ghost prev = cands.deep_view();
            let c = join_candidate(dirs[i].as_str(), name);
            cands.push(c);
            proof {
                assert(cands.deep_view() =~= prev + seq![c@]);
                assert((prev + seq![c@]) + candidate_paths(all.skip(i + 1int), name@) =~= prev + (
                seq![c@] + candidate_paths(all.skip(i + 1int), name@)));
            }
        }
        i = i + 1;
    }
    proof {
        assert(all.skip(all.len() as int) =~= Seq::<Seq<char>>::empty());
        assert(cands.deep_view() + Seq::<Seq<char>>::empty() =~= cands.deep_view());
        if path_var@.len() == 0 {
            let pieces = split_on(path_var@, ':');
            assert(pieces =~= Seq::<Seq<char>>::empty().push(Seq::<char>::empty()));
            assert(pieces.skip(1) =~= Seq::<Seq<char>>::empty());
            assert(candidate_paths(pieces, name@) == candidate_paths(pieces.skip(1), name@));
        }
    }
    cands
}

/// First match wins: the index of the first candidate the filesystem
/// accepted, given one answer per candidate.
pub fn first_executable(accepted: &Vec<bool>) -> (r: Option<usize>)
    ensures
        r matches Some(i) ==> i < accepted@.len() && accepted@[i as int] && (forall|j: int|
            0 <= j < i ==> !accepted@[j]),
        r is None ==> forall|j: int| 0 <= j < accepted@.len() ==> !accepted@[j],
{
    let mut i: usize = 0;
    while i < accepted.len()
        invariant
            i <= accepted@.len(),
            forall|j: int| 0 <= j < i ==> !accepted@[j],
        decreases accepted.len() - i,
    {
        if accepted[i] {
            return Some(i);
        }
        i = i + 1;
    }
    None
}

} // verus!
