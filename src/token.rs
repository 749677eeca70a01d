//! A flat model of a token stream: every group is written out as an opening
//! marker, its contents and a closing marker.

use vstd::prelude::*;
pub use proc_macro2::Delimiter as Delim;

verus! {

/// The delimiter of a group of tokens; its variants are `Parenthesis`,
/// `Brace`, `Bracket` and `None` (invisible).
#[verifier::external_type_specification]
pub struct ExDelimiter(proc_macro2::Delimiter);

/// What a token is.
#[derive(Debug)]
pub enum TokKind {
    Ident(String),
    /// A punctuation character, and whether it is joined to the next one.
    Punct(char, bool),
    Literal(String),
    Open(Delim),
    Close(Delim),
}

/// A token and the place where it starts (line from 1, column from 0).
#[derive(Debug)]
pub struct Tok {
    pub kind: TokKind,
    pub line: usize,
    pub column: usize,
}

pub open spec fn is_word(t: Tok, w: Seq<char>) -> bool {
    t.kind is Ident && t.kind->Ident_0@ == w
}

pub open spec fn is_punct(t: Tok, c: char) -> bool {
    t.kind is Punct && t.kind->Punct_0 == c
}

pub open spec fn is_joint_punct(t: Tok, c: char) -> bool {
    is_punct(t, c) && t.kind->Punct_1
}

pub open spec fn is_lone_punct(t: Tok, c: char) -> bool {
    is_punct(t, c) && !t.kind->Punct_1
}

pub open spec fn is_open(t: Tok, d: Delim) -> bool {
    t.kind is Open && t.kind->Open_0 == d
}

pub open spec fn is_close(t: Tok, d: Delim) -> bool {
    t.kind is Close && t.kind->Close_0 == d
}

/// How a token changes the depth of group nesting.
pub open spec fn nesting(t: Tok) -> int {
    match t.kind {
        TokKind::Open(_) => 1,
        TokKind::Close(_) => -1,
        _ => 0,
    }
}

fn same_text(s: &String, w: &str) -> (r: bool)
    ensures
        r == (s@ == w@),
{
    let w2 = String::from_str(w);
    *s == w2
}

impl Tok {
    /// A copy of the token, equal to it.
    pub fn duplicate(&self) -> (r: Tok)
        ensures
            r == *self,
    {
        let kind = match &self.kind {
            TokKind::Ident(s) => TokKind::Ident(s.clone()),
            TokKind::Punct(c, j) => TokKind::Punct(*c, *j),
            TokKind::Literal(s) => TokKind::Literal(s.clone()),
            TokKind::Open(d) => TokKind::Open(*d),
            TokKind::Close(d) => TokKind::Close(*d),
        };
        Tok { kind, line: self.line, column: self.column }
    }

    pub fn word_is(&self, w: &str) -> (r: bool)
        ensures
            r == is_word(*self, w@),
    {
        match &self.kind {
            TokKind::Ident(s) => same_text(s, w),
            _ => false,
        }
    }

    pub fn punct_is(&self, c: char) -> (r: bool)
        ensures
            r == is_punct(*self, c),
    {
        match &self.kind {
            TokKind::Punct(p, _) => *p == c,
            _ => false,
        }
    }

    pub fn joint_punct_is(&self, c: char) -> (r: bool)
        ensures
            r == is_joint_punct(*self, c),
    {
        match &self.kind {
            TokKind::Punct(p, j) => *p == c && *j,
            _ => false,
        }
    }

    pub fn is_ident(&self) -> (r: bool)
        ensures
            r == (self.kind is Ident),
    {
        match &self.kind {
            TokKind::Ident(_) => true,
            _ => false,
        }
    }

    pub fn opens(&self, d: Delim) -> (r: bool)
        ensures
            r == is_open(*self, d),
    {
        match (&self.kind, d) {
            (TokKind::Open(Delim::Parenthesis), Delim::Parenthesis) => true,
            (TokKind::Open(Delim::Brace), Delim::Brace) => true,
            (TokKind::Open(Delim::Bracket), Delim::Bracket) => true,
            (TokKind::Open(Delim::None), Delim::None) => true,
            _ => false,
        }
    }

    pub fn nesting(&self) -> (r: i8)
        ensures
            r as int == nesting(*self),
    {
        match &self.kind {
            TokKind::Open(_) => 1,
            TokKind::Close(_) => -1,
            _ => 0,
        }
    }

    /// A token made here, with no place in the source.
    pub fn word(w: &str) -> (r: Tok)
        ensures
            is_word(r, w@),
            r.line == 0 && r.column == 0,
    {
        Tok { kind: TokKind::Ident(String::from_str(w)), line: 0, column: 0 }
    }

    pub fn punct(c: char, joint: bool) -> (r: Tok)
        ensures
            is_punct(r, c),
            r.kind->Punct_1 == joint,
            r.line == 0 && r.column == 0,
    {
        Tok { kind: TokKind::Punct(c, joint), line: 0, column: 0 }
    }

    pub fn open(d: Delim) -> (r: Tok)
        ensures
            is_open(r, d),
            r.line == 0 && r.column == 0,
    {
        Tok { kind: TokKind::Open(d), line: 0, column: 0 }
    }

    pub fn close(d: Delim) -> (r: Tok)
        ensures
            is_close(r, d),
            r.line == 0 && r.column == 0,
    {
        Tok { kind: TokKind::Close(d), line: 0, column: 0 }
    }
}

} // verus!
