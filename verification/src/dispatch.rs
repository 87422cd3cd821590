//! The command dispatcher: given the tokens of one line, and whether the
//! search path resolved the first token, decide what the shell does.
//!
//! Builtins take precedence: a builtin name is dispatched to the builtin
//! whatever the search path would have resolved it to.

use vstd::prelude::*;

use crate::builtins::{builtin_lookup, builtin_of, is_builtin_name, Builtin};
use crate::tokenizer::{is_blank, tokenize};

verus! {

/// What the shell does with one line: nothing, a builtin, the resolved
/// external command, or a complaint that the command was not found.
#[derive(Clone, Copy, PartialEq, Eq, Structural, Debug)]
pub enum Decision {
    Empty,
    RunBuiltin(Builtin),
    RunExternal,
    NotFound,
}

/// The dispatch decision for a token sequence, given whether the search path
/// resolved the first token to an executable.
pub open spec fn decision_of(tokens: Seq<Seq<char>>, resolved: bool) -> Decision {
    if tokens.len() == 0 {
        Decision::Empty
    } else if is_builtin_name(tokens[0]) {
        Decision::RunBuiltin(builtin_of(tokens[0]))
    } else if resolved {
        Decision::RunExternal
    } else {
        Decision::NotFound
    }
}

/// Decide what to do with one line's tokens.
pub fn decide(tokens: &Vec<String>, resolved: bool) -> (d: Decision)
    ensures
        d == decision_of(tokens.deep_view(), resolved),
{
    if tokens.len() == 0 {
        Decision::Empty
    } else {
        proof {
            assert(tokens.deep_view()[0] == tokens@[0]@);
        }
        match builtin_lookup(tokens[0].as_str()) {
            Some(b) => Decision::RunBuiltin(b),
            None => if resolved {
                Decision::RunExternal
            } else {
                Decision::NotFound
            },
        }
    }
}

/// The arguments handed to a command: every token after the first.
pub fn args_of(tokens: &Vec<String>) -> (args: Vec<String>)
    requires
        tokens@.len() > 0,
    ensures
        args.deep_view() == tokens.deep_view().skip(1),
{
    let ghost all = tokens.deep_view();
    let mut args: Vec<String> = Vec::new();
    let mut i: usize = 1;
    proof {
        assert(args.deep_view() =~= all.subrange(1, 1));
    }
    while i < tokens.len()
        invariant
            all == tokens.deep_view(),
            tokens@.len() == all.len(),
            1 <= i <= tokens.len(),
            args.deep_view() == all.subrange(1, i as int),
        decreases tokens.len() - i,
    {
        let ghost prev = args.deep_view();
        let a = tokens[i].clone();
        args.push(a);
        proof {
            assert(all[i as int] == tokens@[i as int]@);
            assert(a@ == tokens@[i as int]@);
            assert(args.deep_view() =~= prev.push(all[i as int]));
            assert(all.subrange(1, i + 1int) =~= all.subrange(1, i as int).push(all[i as int]));
        }
        i = i + 1;
    }
    proof {
        assert(all.subrange(1, all.len() as int) =~= all.skip(1));
    }
    args
}

/// The complaint for a command that is neither a builtin nor on the search
/// path.
pub fn not_found_message(name: &str) -> (r: String)
    ensures
        r@ == name@ + ": command not found"@,
{
    let mut out = String::from_str(name);
    out.append(": command not found");
    out
}

/// Builtins shadow external executables: when the first token is a builtin
/// name, the decision is that builtin, and it is the same whether or not the
/// search path resolved the name to an executable.
pub proof fn lemma_builtins_shadow(tokens: Seq<Seq<char>>, resolved_a: bool, resolved_b: bool)
    requires
        tokens.len() > 0,
        is_builtin_name(tokens[0]),
    ensures
        decision_of(tokens, resolved_a) == Decision::RunBuiltin(builtin_of(tokens[0])),
        decision_of(tokens, resolved_a) == decision_of(tokens, resolved_b),
{
}

/// A line of nothing but blanks tokenizes to no tokens, and the dispatcher
/// then does nothing, whatever the search path holds.
pub proof fn lemma_whitespace_only_no_action(input: Seq<char>, resolved: bool)
    requires
        forall|i: int| 0 <= i < input.len() ==> is_blank(#[trigger] input[i]),
    ensures
        tokenize(input).len() == 0,
        decision_of(tokenize(input), resolved) == Decision::Empty,
{
    crate::tokenizer::lemma_whitespace_only(input);
}

} // verus!
