//! The calls into syn and proc-macro2: parsing a whole file, reading its
//! macro invocations, turning a token stream into the flat token model, and
//! asking whether a piece of text is a type, an expression, an identifier,
//! a run of attributes or a visibility.

use vstd::prelude::*;
use proc_macro2::{Spacing::Joint, TokenStream};
use proc_macro2::TokenTree::{Group, Ident, Literal, Punct};
use crate::token::{Tok, TokKind};
use crate::engine::TopItem;

verus! {

#[verifier::external_type_specification]
#[verifier::external_body]
pub struct ExError(syn::Error);

#[verifier::external_type_specification]
#[verifier::external_body]
pub struct ExTokenStream(TokenStream);

/// Whether syn accepts the text as a whole source file. This depends on the
/// text alone.
pub uninterp spec fn parses_as_file(text: Seq<char>) -> bool;

/// Whether syn accepts the text as a run of outer attributes
/// (`syn::Attribute::parse_outer`, the whole text consumed).
pub uninterp spec fn is_outer_attrs(text: Seq<char>) -> bool;

/// Whether syn accepts the whole text as a visibility (the empty text is the
/// private one).
pub uninterp spec fn is_visibility(text: Seq<char>) -> bool;

/// Whether syn accepts the whole text as an identifier (not a keyword).
pub uninterp spec fn is_ident(text: Seq<char>) -> bool;

/// Whether syn accepts the whole text as a type.
pub uninterp spec fn is_type(text: Seq<char>) -> bool;

/// Whether syn accepts the whole text as an expression.
pub uninterp spec fn is_expr(text: Seq<char>) -> bool;

/// Relies on syn::parse::Parser::parse_str with syn::Attribute::parse_outer:
/// the whole text is a run of outer attributes (the empty text is none).
#[verifier::external_body]
pub(crate) fn parses_as_outer_attrs(text: &str) -> (r: bool)
    ensures
        r == is_outer_attrs(text@),
        text@.len() == 0 ==> r,
{
    syn::parse::Parser::parse_str(syn::Attribute::parse_outer, text).is_ok()
}

/// Relies on syn::parse_str::<syn::Visibility>: the whole text is a
/// visibility (the empty text is the private one).
#[verifier::external_body]
pub(crate) fn parses_as_visibility(text: &str) -> (r: bool)
    ensures
        r == is_visibility(text@),
        text@.len() == 0 ==> r,
{
    syn::parse_str::<syn::Visibility>(text).is_ok()
}

/// Relies on syn::parse_str::<syn::Ident>: the whole text is an identifier
/// that is not a keyword.
#[verifier::external_body]
pub(crate) fn parses_as_ident(text: &str) -> (r: bool)
    ensures
        r == is_ident(text@),
{
    syn::parse_str::<syn::Ident>(text).is_ok()
}

/// Relies on syn::parse_str::<syn::Type>: the whole text is a type.
#[verifier::external_body]
pub(crate) fn parses_as_type(text: &str) -> (r: bool)
    ensures
        r == is_type(text@),
{
    syn::parse_str::<syn::Type>(text).is_ok()
}

/// Relies on syn::parse_str::<syn::Expr>: the whole text is an expression.
#[verifier::external_body]
pub(crate) fn parses_as_expr(text: &str) -> (r: bool)
    ensures
        r == is_expr(text@),
{
    syn::parse_str::<syn::Expr>(text).is_ok()
}

/// What the scan reads from a source file that syn accepts: its top-level
/// items in order, each macro invocation with its name (where its path is a
/// single identifier) and the flat model of the tokens it is given.
pub uninterp spec fn top_items_of(text: Seq<char>) -> Seq<TopItem>;

/// What syn says of a text that is not a source file: its message, and the
/// line (from 1) and column (from 0) where the error starts.
pub uninterp spec fn parse_error_of(text: Seq<char>) -> (Seq<char>, usize, usize);

/// Relies on syn::parse_file, on syn::Item's `Macro` variant, on
/// syn::Path::get_ident and on `token_model`: parses a whole source file
/// and reads its top-level items; or gives syn's error message
/// (syn::Error's Display) and where it starts (syn::Error::span).
#[verifier::external_body]
pub(crate) fn scan_source(text: &str) -> (r: Result<Vec<TopItem>, (String, usize, usize)>)
    ensures
        r is Ok == parses_as_file(text@),
        r matches Ok(v) ==> v@ == top_items_of(text@),
        r matches Err(e) ==> (e.0@, e.1, e.2) == parse_error_of(text@),
{
    let at = |e: &syn::Error| e.span().start();
    let file = syn::parse_file(text).map_err(|e| (e.to_string(), at(&e).line, at(&e).column))?;
    Ok(file.items.iter().map(|item| match item {
        syn::Item::Macro(m) => TopItem::Invocation {
            name: m.mac.path.get_ident().map(|i| i.to_string()),
            tokens: token_model(m.mac.tokens.clone()),
        },
        _ => TopItem::Other,
    }).collect())
}

/// Relies on iterating a proc_macro2::TokenStream and on the accessors of its
/// token trees (text, character, spacing, delimiter and contents of a group,
/// start of the span): each group is written out as an opening marker, its
/// contents and a closing marker, both at the place where the group starts.
#[verifier::external_body]
fn token_model(ts: TokenStream) -> Vec<Tok> {
    let mut out = Vec::new();
    for tt in ts {
        let at = tt.span().start();
        let here = |kind| Tok { kind, line: at.line, column: at.column };
        match tt {
            Group(g) => out.extend([here(TokKind::Open(g.delimiter()))].into_iter().chain(token_model(g.stream())).chain([here(TokKind::Close(g.delimiter()))])),
            Ident(i) => out.push(here(TokKind::Ident(i.to_string()))),
            Punct(p) => out.push(here(TokKind::Punct(p.as_char(), p.spacing() == Joint))),
            Literal(l) => out.push(here(TokKind::Literal(l.to_string()))),
        }
    }
    out
}

} // verus!
