//! The whole rewriting of one source file: parse it, gather the declarations
//! of its `lazy_static!` blocks and rewrite each into source text.

use vstd::prelude::*;
use crate::token::Tok;
use crate::engine::{TopItem, collect, translate_items};
use crate::grammar::{SyntaxError, Span, Failure, record_of, reports};
use crate::render::{render, text_of};
use crate::rewrite::{wraps_span, lazy_text, lemma_rewrite_text_fixed};
use crate::syntax::{parses_as_file, parse_error_of, top_items_of, scan_source};

verus! {

/// `t` is the text of the rewriting of the declaration at `sp` in `s`, with
/// the place of its `static` keyword.
pub open spec fn rewritten(t: (String, usize, usize), s: Seq<Tok>, sp: Span) -> bool {
    &&& exists|out: Seq<Tok>| #[trigger] wraps_span(out, s, sp) && t.0@ == text_of(out)
    &&& t.1 == s[sp.2].line
    &&& t.2 == s[sp.2].column
}

/// Why a file could not be rewritten.
#[derive(Debug)]
pub enum TranslateError {
    /// The text is not a source file: syn's message, and where the error
    /// starts.
    Parse { message: String, line: usize, column: usize },
    /// A `lazy_static!` block does not follow the declaration grammar.
    Syntax(SyntaxError),
}

/// The source text of each rewritten declaration of the `lazy_static!`
/// blocks among `items`, in order, with the place of its `static` keyword;
/// fails on the first malformed block.
pub fn rewrite_items(items: &Vec<TopItem>) -> (r: Result<Vec<(String, usize, usize)>, SyntaxError>)
    ensures
        match collect(items@) {
            Ok(all) => r matches Ok(ts) && ts.len() == all.len() && forall|k: int|
                0 <= k < ts.len() ==> #[trigger] rewritten(ts[k], all[k].0, all[k].1),
            Err(x) => r matches Err(e) && reports(e, x.0, x.1),
        },
{
    let mut rest = match translate_items(items) {
        Ok(ds) => ds,
        Err(e) => {
            return Err(e);
        },
    };
    let ghost all = collect(items@)->Ok_0;
    let ghost n = rest.len();
    let mut ts: Vec<(String, usize, usize)> = Vec::new();
    while rest.len() > 0
        invariant
            collect(items@) == Ok::<_, (Seq<Tok>, Failure)>(all),
            ts.len() + rest.len() == n == all.len(),
            forall|k: int| 0 <= k < rest.len() ==> #[trigger] record_of(rest[k], all[ts.len() + k].0, all[ts.len() + k].1),
            forall|k: int| 0 <= k < ts.len() ==> #[trigger] rewritten(ts[k], all[k].0, all[k].1),
        decreases rest.len(),
    {
        let ghost old_rest = rest@;
        let d = rest.remove(0);
        assert(d == old_rest[0]);
        assert(record_of(old_rest[0], all[ts.len() + 0].0, all[ts.len() + 0].1));
        assert forall|k: int| 0 <= k < rest.len() implies #[trigger] record_of(rest[k], all[ts.len() + 1 + k].0, all[ts.len() + 1 + k].1) by {
            assert(rest[k] == old_rest[k + 1]);
            assert(record_of(old_rest[k + 1], all[ts.len() + (k + 1)].0, all[ts.len() + (k + 1)].1));
            assert(ts.len() + (k + 1) == ts.len() + 1 + k);
        }
        let (line, column) = (d.static_token.line, d.static_token.column);
        let out = d.into_lazy();
        let text = render(&out);
        assert(wraps_span(out@, all[ts.len() as int].0, all[ts.len() as int].1));
        ts.push((text, line, column));
    }
    Ok(ts)
}

/// The texts of the rewritings of all declarations, in order.
pub open spec fn lazy_texts(all: Seq<(Seq<Tok>, Span)>) -> Seq<Seq<char>> {
    all.map_values(|d: (Seq<Tok>, Span)| lazy_text(d.0, d.1))
}

/// `t` is the text of the rewriting of the declaration at `sp` in `s`.
proof fn lemma_rewritten_text(t: (String, usize, usize), s: Seq<Tok>, sp: Span)
    requires
        rewritten(t, s, sp),
    ensures
        t.0@ == lazy_text(s, sp),
{
    let out = choose|out: Seq<Tok>| #[trigger] wraps_span(out, s, sp) && t.0@ == text_of(out);
    lemma_rewrite_text_fixed(out, out, s, sp);
}

/// Rewrites every declaration of the `lazy_static!` blocks of `source`,
/// giving the source text of each resulting `static`, in order, and nothing
/// else. Fails on text that is not a source file and on the first malformed
/// block.
pub fn translate(source: &str) -> (r: Result<Vec<String>, TranslateError>)
    ensures
        (r is Err && r->Err_0 is Parse) <==> !parses_as_file(source@),
        r is Err && r->Err_0 is Parse ==> (
            r->Err_0->Parse_message@,
            r->Err_0->Parse_line,
            r->Err_0->Parse_column,
        ) == parse_error_of(source@),
        parses_as_file(source@) && collect(top_items_of(source@)) is Err ==> (r matches Err(
            TranslateError::Syntax(e),
        ) && reports(
            e,
            collect(top_items_of(source@))->Err_0.0,
            collect(top_items_of(source@))->Err_0.1,
        )),
        parses_as_file(source@) && collect(top_items_of(source@)) is Ok ==> (r is Ok
            && r->Ok_0@.map_values(|t: String| t@) == lazy_texts(
            collect(top_items_of(source@))->Ok_0,
        )),
{
    let top = match scan_source(source) {
        Ok(v) => v,
        Err((message, line, column)) => {
            return Err(TranslateError::Parse { message, line, column });
        },
    };
    let ts = match rewrite_items(&top) {
        Ok(ts) => ts,
        Err(e) => {
            return Err(TranslateError::Syntax(e));
        },
    };
    let ghost all = collect(top@)->Ok_0;
    let mut texts: Vec<String> = Vec::new();
    let mut i: usize = 0;
    while i < ts.len()
        invariant
            collect(top@) == Ok::<_, (Seq<Tok>, Failure)>(all),
            ts.len() == all.len(),
            forall|k: int| 0 <= k < ts.len() ==> #[trigger] rewritten(ts[k], all[k].0, all[k].1),
            i <= ts.len(),
            texts.len() == i,
            forall|k: int| 0 <= k < i ==> #[trigger] texts[k]@ == lazy_texts(all)[k],
        decreases ts.len() - i,
    {
        proof {
            lemma_rewritten_text(ts[i as int], all[i as int].0, all[i as int].1);
        }
        texts.push(ts[i].0.clone());
        i = i + 1;
    }
    assert(texts@.map_values(|t: String| t@) =~= lazy_texts(all));
    Ok(texts)
}

} // verus!
