//! Small verified text utilities shared by the tokenizer, the builtins and
//! the path resolver: character-wise string equality and splitting a string
//! on a separator character.

use vstd::prelude::*;

verus! {

/// Relies on `String::from_iter` over `char`: collecting characters yields
/// the string made of exactly those characters, in order.
#[verifier::external_body]
pub(crate) fn chars_to_string(v: &Vec<char>) -> (r: String)
    ensures
        r@ == v@,
{
    v.iter().collect()
}

/// Character-wise string equality.
pub fn str_eq(a: &str, b: &str) -> (r: bool)
    ensures
        r == (a@ == b@),
{
    let na = a.unicode_len();
    let nb = b.unicode_len();
    if na != nb {
        return false;
    }
    let mut i: usize = 0;
    while i < na
        invariant
            na == a@.len(),
            na == b@.len(),
            i <= na,
            forall|j: int| 0 <= j < i ==> a@[j] == b@[j],
        decreases na - i,
    {
        if a.get_char(i) != b.get_char(i) {
            return false;
        }
        i = i + 1;
    }
    proof {
        assert(a@ =~= b@);
    }
    true
}

/// Splitting folded over the input: the pieces already cut, the piece being
/// accumulated, and the input still to read. Every separator cuts, so empty
/// pieces appear between adjacent separators and at the ends.
pub open spec fn split_fold(
    pieces: Seq<Seq<char>>,
    cur: Seq<char>,
    sep: char,
    input: Seq<char>,
) -> Seq<Seq<char>>
    decreases input.len(),
{
    if input.len() == 0 {
        pieces.push(cur)
    } else if input[0] == sep {
        split_fold(pieces.push(cur), Seq::empty(), sep, input.skip(1))
    } else {
        split_fold(pieces, cur.push(input[0]), sep, input.skip(1))
    }
}

/// The pieces of `input` cut at every occurrence of `sep`. An empty input
/// yields one empty piece.
pub open spec fn split_on(input: Seq<char>, sep: char) -> Seq<Seq<char>> {
    split_fold(Seq::empty(), Seq::empty(), sep, input)
}

/// Cut a string at every occurrence of the separator.
pub fn split_string(s: &str, sep: char) -> (pieces: Vec<String>)
    ensures
        pieces.deep_view() == split_on(s@, sep),
{
    let n = s.unicode_len();
    let mut pieces: Vec<String> = Vec::new();
    let mut cur: Vec<char> = Vec::new();
    let mut i: usize = 0;
    proof {
        assert(pieces.deep_view() =~= Seq::<Seq<char>>::empty());
        assert(cur@ =~= Seq::<char>::empty());
        assert(s@.skip(0) =~= s@);
    }
    while i < n
        invariant
            n == s@.len(),
            i <= n,
            split_on(s@, sep) == split_fold(pieces.deep_view(), cur@, sep, s@.skip(i as int)),
        decreases n - i,
    {
        let c = s.get_char(i);
        proof {
            assert(s@.skip(i as int)[0] == s@[i as int]);
            assert(s@.skip(i as int).skip(1) =~= s@.skip(i + 1int));
        }
        if c == sep {
            let ghost prev = pieces.deep_view();
            let piece = chars_to_string(&cur);
            pieces.push(piece);
            cur.clear();
            proof {
                assert(pieces.deep_view() =~= prev.push(piece@));
            }
        } else {
            cur.push(c);
        }
        i = i + 1;
    }
    proof {
        assert(s@.skip(n as int) =~= Seq::<char>::empty());
    }
    let ghost prev = pieces.deep_view();
    let piece = chars_to_string(&cur);
    pieces.push(piece);
    proof {
        assert(pieces.deep_view() =~= prev.push(piece@));
    }
    pieces
}

} // verus!
