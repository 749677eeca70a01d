//! Writes tokens out as source text that lexes back into the same tokens:
//! a space after each token but a joined punctuation character.

use vstd::prelude::*;
use crate::token::{Tok, TokKind, Delim};

verus! {

pub open spec fn open_mark(d: Delim) -> Seq<char> {
    match d {
        Delim::Parenthesis => seq!['('],
        Delim::Brace => seq!['{'],
        Delim::Bracket => seq!['['],
        Delim::None => seq![],
    }
}

pub open spec fn close_mark(d: Delim) -> Seq<char> {
    match d {
        Delim::Parenthesis => seq![')'],
        Delim::Brace => seq!['}'],
        Delim::Bracket => seq![']'],
        Delim::None => seq![],
    }
}

/// The text of one token.
pub open spec fn tok_text(t: Tok) -> Seq<char> {
    match t.kind {
        TokKind::Ident(s) => s@.push(' '),
        TokKind::Literal(s) => s@.push(' '),
        TokKind::Punct(c, joint) => if joint {
            seq![c]
        } else {
            seq![c, ' ']
        },
        TokKind::Open(d) => open_mark(d).push(' '),
        TokKind::Close(d) => close_mark(d).push(' '),
    }
}

/// The text of a sequence of tokens.
pub open spec fn text_of(s: Seq<Tok>) -> Seq<char>
    decreases s.len(),
{
    if s.len() == 0 {
        seq![]
    } else {
        text_of(s.drop_last()) + tok_text(s.last())
    }
}

/// Relies on String::push: appends one character.
#[verifier::external_body]
fn push_char(s: &mut String, c: char)
    ensures
        final(s)@ == old(s)@.push(c),
{
    s.push(c);
}

fn push_mark(out: &mut String, d: Delim, opening: bool)
    ensures
        final(out)@ == old(out)@ + if opening {
            open_mark(d)
        } else {
            close_mark(d)
        },
{
    match (d, opening) {
        (Delim::Parenthesis, true) => push_char(out, '('),
        (Delim::Brace, true) => push_char(out, '{'),
        (Delim::Bracket, true) => push_char(out, '['),
        (Delim::Parenthesis, false) => push_char(out, ')'),
        (Delim::Brace, false) => push_char(out, '}'),
        (Delim::Bracket, false) => push_char(out, ']'),
        (Delim::None, _) => {},
    }
    assert(final(out)@ =~= old(out)@ + if opening { open_mark(d) } else { close_mark(d) });
}

fn push_tok(out: &mut String, t: &Tok)
    ensures
        final(out)@ == old(out)@ + tok_text(*t),
{
    match &t.kind {
        TokKind::Ident(s) => {
            out.append(s.as_str());
            push_char(out, ' ');
        },
        TokKind::Literal(s) => {
            out.append(s.as_str());
            push_char(out, ' ');
        },
        TokKind::Punct(c, joint) => {
            push_char(out, *c);
            if !*joint {
                push_char(out, ' ');
            }
        },
        TokKind::Open(d) => {
            push_mark(out, *d, true);
            push_char(out, ' ');
        },
        TokKind::Close(d) => {
            push_mark(out, *d, false);
            push_char(out, ' ');
        },
    }
    assert(final(out)@ =~= old(out)@ + tok_text(*t));
}

/// The source text of the tokens `s`.
pub fn render(s: &Vec<Tok>) -> (r: String)
    ensures
        r@ == text_of(s@),
{
    let mut out = String::new();
    let mut i: usize = 0;
    while i < s.len()
        invariant
            i <= s.len(),
            out@ == text_of(s@.subrange(0, i as int)),
        decreases s.len() - i,
    {
        push_tok(&mut out, &s[i]);
        assert(s@.subrange(0, i + 1).drop_last() =~= s@.subrange(0, i as int));
        i = i + 1;
    }
    assert(s@.subrange(0, s.len() as int) =~= s@);
    out
}

} // verus!
