//! Command-line tokenizer.
//!
//! A raw input line is cut into argument strings under shell-like quoting
//! rules: blanks (space, tab) outside quotes separate tokens and never
//! produce empty ones; single quotes make every character literal; inside
//! double quotes a backslash escapes only `"` and `\` and is otherwise
//! literal; outside quotes a backslash makes the next character literal.
//! An unterminated quote is implicitly closed at end of line, and a trailing
//! backslash that escapes nothing is dropped.

use vstd::prelude::*;

use crate::text::chars_to_string;

verus! {

/// Quoting mode of the tokenizer, including the transient states in which a
/// backslash has been read and the escaped character is still pending.
/// Single-quoted text has no escapes, so no such state exists for it.
#[derive(Clone, Copy, PartialEq, Eq, Structural, Debug)]
pub enum QuoteState {
    Unquoted,
    Single,
    Double,
    UnquotedEscape,
    DoubleEscape,
}

/// Mathematical state of a tokenization in progress: the quoting mode, the
/// token being accumulated, and the tokens already emitted.
#[verifier::ext_equal]
pub struct TokState {
    pub state: QuoteState,
    pub cur: Seq<char>,
    pub toks: Seq<Seq<char>>,
}

/// Token separators outside quotes: space and tab.
pub open spec fn is_blank(c: char) -> bool {
    c == ' ' || c == '\t'
}

/// State at the start of a line: unquoted, nothing accumulated.
pub open spec fn tok_init() -> TokState {
    TokState { state: QuoteState::Unquoted, cur: Seq::empty(), toks: Seq::empty() }
}

/// One step of the tokenizer: consume character `c` in state `s`.
pub open spec fn tok_step(s: TokState, c: char) -> TokState {
    match s.state {
        QuoteState::UnquotedEscape => TokState {
            state: QuoteState::Unquoted,
            cur: s.cur.push(c),
            ..s
        },
        QuoteState::DoubleEscape => if c == '"' || c == '\\' {
            TokState { state: QuoteState::Double, cur: s.cur.push(c), ..s }
        } else {
            // The backslash escapes nothing here and stays literal.
            TokState { state: QuoteState::Double, cur: s.cur.push('\\').push(c), ..s }
        },
        QuoteState::Single => if c == '\'' {
            TokState { state: QuoteState::Unquoted, ..s }
        } else {
            TokState { cur: s.cur.push(c), ..s }
        },
        QuoteState::Double => if c == '"' {
            TokState { state: QuoteState::Unquoted, ..s }
        } else if c == '\\' {
            TokState { state: QuoteState::DoubleEscape, ..s }
        } else {
            TokState { cur: s.cur.push(c), ..s }
        },
        QuoteState::Unquoted => if is_blank(c) {
            if s.cur.len() == 0 {
                s
            } else {
                TokState { cur: Seq::empty(), toks: s.toks.push(s.cur), ..s }
            }
        } else if c == '\'' {
            TokState { state: QuoteState::Single, ..s }
        } else if c == '"' {
            TokState { state: QuoteState::Double, ..s }
        } else if c == '\\' {
            TokState { state: QuoteState::UnquotedEscape, ..s }
        } else {
            TokState { cur: s.cur.push(c), ..s }
        },
    }
}

/// The tokenizer run over a whole character sequence.
pub open spec fn tok_run(s: TokState, input: Seq<char>) -> TokState
    decreases input.len(),
{
    if input.len() == 0 {
        s
    } else {
        tok_run(tok_step(s, input[0]), input.skip(1))
    }
}

/// End of line: the partially built token, if non-empty, becomes the last
/// token. A pending escape or an open quote is discarded without error.
pub open spec fn tok_finish(s: TokState) -> Seq<Seq<char>> {
    if s.cur.len() == 0 {
        s.toks
    } else {
        s.toks.push(s.cur)
    }
}

/// The tokens of one input line.
pub open spec fn tokenize(input: Seq<char>) -> Seq<Seq<char>> {
    tok_finish(tok_run(tok_init(), input))
}

/// Running the tokenizer over a concatenation runs it over each part in turn.
pub proof fn lemma_tok_run_append(s: TokState, a: Seq<char>, b: Seq<char>)
    ensures
        tok_run(s, a + b) == tok_run(tok_run(s, a), b),
    decreases a.len(),
{
    if a.len() == 0 {
        assert(a + b =~= b);
    } else {
        assert((a + b)[0] == a[0]);
        assert((a + b).skip(1) =~= a.skip(1) + b);
        lemma_tok_run_append(tok_step(s, a[0]), a.skip(1), b);
    }
}

/// Extending the input by one character applies one more step.
pub proof fn lemma_tok_run_snoc(s: TokState, a: Seq<char>, c: char)
    ensures
        tok_run(s, a.push(c)) == tok_step(tok_run(s, a), c),
{
    assert(a.push(c) =~= a + seq![c]);
    lemma_tok_run_append(s, a, seq![c]);
    let s2 = tok_run(s, a);
    let one = seq![c];
    assert(one[0] == c);
    assert(one.skip(1) =~= Seq::<char>::empty());
    assert(tok_run(s2, one) == tok_run(tok_step(s2, c), one.skip(1)));
    assert(tok_run(tok_step(s2, c), one.skip(1)) == tok_step(s2, c));
}

/// A character with no special meaning to the tokenizer: not a blank, not a
/// quote, not a backslash.
pub open spec fn is_plain_char(c: char) -> bool {
    !is_blank(c) && c != '\'' && c != '"' && c != '\\'
}

/// A non-empty token made only of characters without special meaning.
pub open spec fn is_plain_token(t: Seq<char>) -> bool {
    t.len() > 0 && forall|i: int| 0 <= i < t.len() ==> is_plain_char(#[trigger] t[i])
}

/// The sequences joined into one, separated by single spaces.
pub open spec fn join_spaces(toks: Seq<Seq<char>>) -> Seq<char>
    decreases toks.len(),
{
    if toks.len() == 0 {
        Seq::empty()
    } else if toks.len() == 1 {
        toks[0]
    } else {
        toks[0] + seq![' '] + join_spaces(toks.skip(1))
    }
}

/// Joining one more token appends a space and the token, unless nothing came
/// before it.
pub proof fn lemma_join_spaces_snoc(a: Seq<Seq<char>>, x: Seq<char>)
    ensures
        a.len() == 0 ==> join_spaces(a.push(x)) == x,
        a.len() > 0 ==> join_spaces(a.push(x)) == join_spaces(a) + seq![' '] + x,
    decreases a.len(),
{
    let p = a.push(x);
    if a.len() == 0 {
        assert(p[0] == x);
    } else if a.len() == 1 {
        assert(p.skip(1) =~= seq![x]);
        assert(join_spaces(p.skip(1)) == p.skip(1)[0]);
        assert(p[0] == a[0]);
    } else {
        assert(p.skip(1) =~= a.skip(1).push(x));
        lemma_join_spaces_snoc(a.skip(1), x);
        assert(p[0] == a[0]);
        assert(a[0] + seq![' '] + (join_spaces(a.skip(1)) + seq![' '] + x) =~= (a[0] + seq![' ']
            + join_spaces(a.skip(1))) + seq![' '] + x);
    }
}

/// An input of nothing but blanks tokenizes to no tokens at all.
pub proof fn lemma_whitespace_only(input: Seq<char>)
    requires
        forall|i: int| 0 <= i < input.len() ==> is_blank(#[trigger] input[i]),
    ensures
        tokenize(input) == Seq::<Seq<char>>::empty(),
    decreases input.len(),
{
    if input.len() == 0 {
    } else {
        assert(tok_step(tok_init(), input[0]) == tok_init());
        assert(forall|i: int| 0 <= i < input.skip(1).len() ==> is_blank(
            #[trigger] input.skip(1)[i],
        )) by {
            assert(forall|i: int| 0 <= i < input.skip(1).len() ==> input.skip(1)[i] == input[i
                + 1]);
        }
        lemma_whitespace_only(input.skip(1));
        assert(tok_run(tok_init(), input) == tok_run(tok_init(), input.skip(1)));
    }
}

/// Running the tokenizer over a word of plain characters, starting unquoted,
/// appends the word to the token under construction and emits nothing.
proof fn lemma_run_plain_word(s: TokState, w: Seq<char>)
    requires
        s.state == QuoteState::Unquoted,
        forall|i: int| 0 <= i < w.len() ==> is_plain_char(#[trigger] w[i]),
    ensures
        tok_run(s, w) =~= (TokState { cur: s.cur + w, ..s }),
    decreases w.len(),
{
    if w.len() == 0 {
        assert(s.cur + w =~= s.cur);
        assert(tok_run(s, w) =~= (TokState { cur: s.cur + w, ..s }));
    } else {
        let s1 = tok_step(s, w[0]);
        assert(s1 =~= (TokState { cur: s.cur.push(w[0]), ..s }));
        assert(forall|i: int| 0 <= i < w.skip(1).len() ==> is_plain_char(
            #[trigger] w.skip(1)[i],
        )) by {
            assert(forall|i: int| 0 <= i < w.skip(1).len() ==> w.skip(1)[i] == w[i + 1]);
        }
        lemma_run_plain_word(s1, w.skip(1));
        assert(s.cur.push(w[0]) + w.skip(1) =~= s.cur + w);
    }
}

/// The round trip from an intermediate state: joining plain tokens with
/// spaces and tokenizing from a fresh unquoted state appends exactly those
/// tokens to the ones already emitted.
proof fn lemma_round_trip_from(done: Seq<Seq<char>>, toks: Seq<Seq<char>>)
    requires
        forall|i: int| 0 <= i < toks.len() ==> is_plain_token(#[trigger] toks[i]),
    ensures
        tok_finish(
            tok_run(
                TokState { state: QuoteState::Unquoted, cur: Seq::empty(), toks: done },
                join_spaces(toks),
            ),
        ) =~= done + toks,
    decreases toks.len(),
{
    let s = TokState { state: QuoteState::Unquoted, cur: Seq::empty(), toks: done };
    if toks.len() == 0 {
        assert(done + toks =~= done);
    } else if toks.len() == 1 {
        lemma_run_plain_word(s, toks[0]);
        assert(Seq::empty() + toks[0] =~= toks[0]);
        assert(done.push(toks[0]) =~= done + toks);
    } else {
        let rest = join_spaces(toks.skip(1));
        assert(join_spaces(toks) == toks[0] + seq![' '] + rest);
        lemma_tok_run_append(s, toks[0] + seq![' '], rest);
        lemma_tok_run_append(s, toks[0], seq![' ']);
        assert((toks[0] + seq![' ']) + rest == join_spaces(toks));
        lemma_run_plain_word(s, toks[0]);
        let s1 = tok_run(s, toks[0]);
        assert(s1.cur =~= toks[0]) by {
            assert(Seq::empty() + toks[0] =~= toks[0]);
        }
        lemma_tok_run_snoc(s1, Seq::empty(), ' ');
        assert(Seq::<char>::empty().push(' ') =~= seq![' ']);
        let s2 = tok_step(s1, ' ');
        assert(s2 =~= (TokState {
            state: QuoteState::Unquoted,
            cur: Seq::empty(),
            toks: done.push(toks[0]),
        }));
        assert(forall|i: int| 0 <= i < toks.skip(1).len() ==> is_plain_token(
            #[trigger] toks.skip(1)[i],
        )) by {
            assert(forall|i: int| 0 <= i < toks.skip(1).len() ==> toks.skip(1)[i] == toks[i + 1]);
        }
        lemma_round_trip_from(done.push(toks[0]), toks.skip(1));
        assert(tok_run(s, join_spaces(toks)) == tok_run(s2, rest));
        assert(done.push(toks[0]) + toks.skip(1) =~= done + toks);
    }
}

/// Round trip: a sequence of non-empty tokens without special characters,
/// joined with single spaces, tokenizes back to exactly that sequence.
pub proof fn lemma_round_trip(toks: Seq<Seq<char>>)
    requires
        forall|i: int| 0 <= i < toks.len() ==> is_plain_token(#[trigger] toks[i]),
    ensures
        tokenize(join_spaces(toks)) == toks,
{
    lemma_round_trip_from(Seq::empty(), toks);
    assert(Seq::empty() + toks =~= toks);
}

/// Executable tokenizer state: the quoting mode, the token being built, and
/// the tokens already emitted.
pub struct Tokenizer {
    pub state: QuoteState,
    pub cur: Vec<char>,
    pub toks: Vec<String>,
}

impl View for Tokenizer {
    type V = TokState;

    open spec fn view(&self) -> TokState {
        TokState { state: self.state, cur: self.cur@, toks: self.toks.deep_view() }
    }
}

impl Tokenizer {
    pub fn new() -> (t: Tokenizer)
        ensures
            t@ == tok_init(),
    {
        let t = Tokenizer { state: QuoteState::Unquoted, cur: Vec::new(), toks: Vec::new() };
        proof {
            assert(t@.cur =~= tok_init().cur);
            assert(t@.toks =~= tok_init().toks);
        }
        t
    }
}

/// Emit the accumulated token, if non-empty, and start a fresh one.
fn flush_token(t: &mut Tokenizer)
    ensures
        old(t)@.cur.len() == 0 ==> final(t)@ == old(t)@,
        old(t)@.cur.len() > 0 ==> (final(t)@ =~= TokState {
            cur: Seq::empty(),
            toks: old(t)@.toks.push(old(t)@.cur),
            ..old(t)@
        }),
{
    if t.cur.len() > 0 {
        let tok = chars_to_string(&t.cur);
        t.toks.push(tok);
        t.cur.clear();
        proof {
            assert(t@.toks =~= old(t)@.toks.push(old(t)@.cur));
        }
    }
}

/// A blank (space or tab): outside quotes it ends the current token; inside
/// quotes it is an ordinary character; after a backslash it is escaped.
pub fn handle_space(t: &mut Tokenizer, c: char)
    requires
        is_blank(c),
    ensures
        final(t)@ =~= tok_step(old(t)@, c),
{
    match t.state {
        QuoteState::UnquotedEscape => {
            t.cur.push(c);
            t.state = QuoteState::Unquoted;
        },
        QuoteState::DoubleEscape => {
            t.cur.push('\\');
            t.cur.push(c);
            t.state = QuoteState::Double;
        },
        QuoteState::Single => {
            t.cur.push(c);
        },
        QuoteState::Double => {
            t.cur.push(c);
        },
        QuoteState::Unquoted => {
            flush_token(t);
        },
    }
}

/// A single quote: toggles single-quote mode, is literal inside double
/// quotes, and is the escaped character after a backslash.
pub fn handle_single_quote(t: &mut Tokenizer)
    ensures
        final(t)@ =~= tok_step(old(t)@, '\''),
{
    match t.state {
        QuoteState::UnquotedEscape => {
            t.cur.push('\'');
            t.state = QuoteState::Unquoted;
        },
        QuoteState::DoubleEscape => {
            t.cur.push('\\');
            t.cur.push('\'');
            t.state = QuoteState::Double;
        },
        QuoteState::Single => {
            t.state = QuoteState::Unquoted;
        },
        QuoteState::Double => {
            t.cur.push('\'');
        },
        QuoteState::Unquoted => {
            t.state = QuoteState::Single;
        },
    }
}

/// A double quote: toggles double-quote mode, is literal inside single
/// quotes, and is the escaped character after a backslash.
pub fn handle_double_quote(t: &mut Tokenizer)
    ensures
        final(t)@ =~= tok_step(old(t)@, '"'),
{
    match t.state {
        QuoteState::UnquotedEscape => {
            t.cur.push('"');
            t.state = QuoteState::Unquoted;
        },
        QuoteState::DoubleEscape => {
            t.cur.push('"');
            t.state = QuoteState::Double;
        },
        QuoteState::Single => {
            t.cur.push('"');
        },
        QuoteState::Double => {
            t.state = QuoteState::Unquoted;
        },
        QuoteState::Unquoted => {
            t.state = QuoteState::Double;
        },
    }
}

/// A backslash: literal inside single quotes, otherwise it starts an escape;
/// after a pending backslash it is the escaped character itself.
pub fn handle_backslash(t: &mut Tokenizer)
    ensures
        final(t)@ =~= tok_step(old(t)@, '\\'),
{
    match t.state {
        QuoteState::UnquotedEscape => {
            t.cur.push('\\');
            t.state = QuoteState::Unquoted;
        },
        QuoteState::DoubleEscape => {
            t.cur.push('\\');
            t.state = QuoteState::Double;
        },
        QuoteState::Single => {
            t.cur.push('\\');
        },
        QuoteState::Double => {
            t.state = QuoteState::DoubleEscape;
        },
        QuoteState::Unquoted => {
            t.state = QuoteState::UnquotedEscape;
        },
    }
}

/// Any other character: appended to the current token, closing a pending
/// escape if one is open.
pub fn handle_ordinary(t: &mut Tokenizer, c: char)
    requires
        !is_blank(c),
        c != '\'',
        c != '"',
        c != '\\',
    ensures
        final(t)@ =~= tok_step(old(t)@, c),
{
    match t.state {
        QuoteState::UnquotedEscape => {
            t.cur.push(c);
            t.state = QuoteState::Unquoted;
        },
        QuoteState::DoubleEscape => {
            t.cur.push('\\');
            t.cur.push(c);
            t.state = QuoteState::Double;
        },
        QuoteState::Single => {
            t.cur.push(c);
        },
        QuoteState::Double => {
            t.cur.push(c);
        },
        QuoteState::Unquoted => {
            t.cur.push(c);
        },
    }
}

/// Cut one raw input line into its argument strings under the quoting rules
/// of this module.
pub fn parse_command(input: &str) -> (tokens: Vec<String>)
    ensures
        tokens.deep_view() == tokenize(input@),
{
    let n = input.unicode_len();
    let mut t = Tokenizer::new();
    let mut i: usize = 0;
    while i < n
        invariant
            n == input@.len(),
            i <= n,
            t@ == tok_run(tok_init(), input@.take(i as int)),
        decreases n - i,
    {
        let c = input.get_char(i);
        if c == ' ' || c == '\t' {
            handle_space(&mut t, c);
        } else if c == '\'' {
            handle_single_quote(&mut t);
        } else if c == '"' {
            handle_double_quote(&mut t);
        } else if c == '\\' {
            handle_backslash(&mut t);
        } else {
            handle_ordinary(&mut t, c);
        }
        proof {
            lemma_tok_run_snoc(tok_init(), input@.take(i as int), c);
            assert(input@.take(i as int).push(c) =~= input@.take(i + 1int));
        }
        i = i + 1;
    }
    proof {
        assert(input@.take(n as int) =~= input@);
    }
    flush_token(&mut t);
    proof {
        assert(t.toks.deep_view() =~= tok_finish(tok_run(tok_init(), input@)));
    }
    t.toks
}

} // verus!
