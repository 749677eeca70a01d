//! Rewrites one declaration into a plain static whose value a deferred
//! initialisation container computes on first use:
//! `ATTRS VIS static NAME: Lazy<TYPE> = Lazy::new(|| EXPR);`

use vstd::prelude::*;
use crate::token::{Tok, Delim, is_word, is_joint_punct, is_lone_punct, is_open, is_close};
use crate::grammar::{LazyStatic, Span};
use crate::render::{text_of, tok_text};

verus! {

/// `out` is the static that keeps `attrs`, `vis`, the `static` keyword,
/// `name`, `colon`, `eq` and `semi`, has the type `Lazy<ty>` and the value
/// `Lazy::new(|| expr)`.
pub open spec fn lazy_form(
    out: Seq<Tok>,
    attrs: Seq<Tok>,
    vis: Seq<Tok>,
    st: Tok,
    name: Tok,
    colon: Tok,
    ty: Seq<Tok>,
    eq: Tok,
    expr: Seq<Tok>,
    semi: Tok,
) -> bool {
    let h: int = attrs.len() + vis.len() as int;
    let k: int = h + 5 + ty.len();
    let m: int = k + 9 + expr.len();
    &&& out.len() == m + 2
    &&& out.subrange(0, attrs.len() as int) == attrs
    &&& out.subrange(attrs.len() as int, h) == vis
    &&& out[h] == st
    &&& out[h + 1] == name
    &&& out[h + 2] == colon
    &&& is_word(out[h + 3], "Lazy"@)
    &&& is_lone_punct(out[h + 4], '<')
    &&& out.subrange(h + 5, k) == ty
    &&& is_lone_punct(out[k], '>')
    &&& out[k + 1] == eq
    &&& is_word(out[k + 2], "Lazy"@)
    &&& is_joint_punct(out[k + 3], ':')
    &&& is_lone_punct(out[k + 4], ':')
    &&& is_word(out[k + 5], "new"@)
    &&& is_open(out[k + 6], Delim::Parenthesis)
    &&& is_joint_punct(out[k + 7], '|')
    &&& is_lone_punct(out[k + 8], '|')
    &&& out.subrange(k + 9, m) == expr
    &&& is_close(out[m], Delim::Parenthesis)
    &&& out[m + 1] == semi
}

/// `out` is the rewriting of the declaration `d`.
pub open spec fn wraps(out: Seq<Tok>, d: LazyStatic) -> bool {
    lazy_form(
        out,
        d.attrs@,
        d.vis@,
        d.static_token,
        d.ident,
        d.colon_token,
        d.ty@,
        d.eq_token,
        d.expr@,
        d.semi_token,
    )
}

/// `out` is the rewriting of the declaration that lies at `sp` in the block `s`.
pub open spec fn wraps_span(out: Seq<Tok>, s: Seq<Tok>, sp: Span) -> bool {
    lazy_form(
        out,
        s.subrange(sp.0, sp.1),
        s.subrange(sp.1, sp.2),
        s[sp.2],
        s[sp.2 + 2],
        s[sp.2 + 3],
        s.subrange(sp.2 + 4, sp.3),
        s[sp.3],
        s.subrange(sp.3 + 1, sp.4),
        s[sp.4],
    )
}

/// The text of the rewriting of the declaration at `sp` in `s`.
pub open spec fn lazy_text(s: Seq<Tok>, sp: Span) -> Seq<char> {
    text_of(choose|out: Seq<Tok>| wraps_span(out, s, sp))
}

proof fn lemma_same_piece(o1: Seq<Tok>, o2: Seq<Tok>, lo: int, hi: int)
    requires
        0 <= lo <= hi <= o1.len(),
        hi <= o2.len(),
        o1.subrange(lo, hi) == o2.subrange(lo, hi),
    ensures
        forall|i: int| lo <= i < hi ==> o1[i] == o2[i],
{
    assert forall|i: int| lo <= i < hi implies o1[i] == o2[i] by {
        assert(o1.subrange(lo, hi)[i - lo] == o1[i]);
        assert(o2.subrange(lo, hi)[i - lo] == o2[i]);
    }
}

proof fn lemma_text_pointwise(a: Seq<Tok>, b: Seq<Tok>)
    requires
        a.len() == b.len(),
        forall|i: int| 0 <= i < a.len() ==> tok_text(a[i]) == tok_text(b[i]),
    ensures
        text_of(a) == text_of(b),
    decreases a.len(),
{
    if a.len() > 0 {
        let (a0, b0) = (a.drop_last(), b.drop_last());
        assert forall|i: int| 0 <= i < a0.len() implies tok_text(a0[i]) == tok_text(b0[i]) by {
            assert(a0[i] == a[i] && b0[i] == b[i]);
        }
        lemma_text_pointwise(a0, b0);
        assert(tok_text(a.last()) == tok_text(b[b.len() - 1]));
    }
}

/// Two statics of one lazy form agree token by token in text.
proof fn lemma_same_token_texts(
    o1: Seq<Tok>,
    o2: Seq<Tok>,
    attrs: Seq<Tok>,
    vis: Seq<Tok>,
    st: Tok,
    name: Tok,
    colon: Tok,
    ty: Seq<Tok>,
    eq: Tok,
    expr: Seq<Tok>,
    semi: Tok,
)
    requires
        lazy_form(o1, attrs, vis, st, name, colon, ty, eq, expr, semi),
        lazy_form(o2, attrs, vis, st, name, colon, ty, eq, expr, semi),
    ensures
        text_of(o1) == text_of(o2),
{
    let a = attrs.len() as int;
    let h = a + vis.len();
    let k = h + 5 + ty.len();
    let m = k + 9 + expr.len();
    lemma_same_piece(o1, o2, 0, a);
    lemma_same_piece(o1, o2, a, h);
    lemma_same_piece(o1, o2, h + 5, k);
    lemma_same_piece(o1, o2, k + 9, m);
    assert forall|i: int| 0 <= i < o1.len() implies tok_text(o1[i]) == tok_text(o2[i]) by {
        if !(0 <= i < a || a <= i < h || h + 5 <= i < k || k + 9 <= i < m) {
            assert(i == h || i == h + 1 || i == h + 2 || i == h + 3 || i == h + 4 || i == k
                || i == k + 1 || i == k + 2 || i == k + 3 || i == k + 4 || i == k + 5 || i == k + 6
                || i == k + 7 || i == k + 8 || i == m || i == m + 1);
        }
    }
    lemma_text_pointwise(o1, o2);
}

/// Rewriting a record depends on that record alone: whatever was rewritten
/// before it, any two rewritings of one record have the same text.
pub proof fn lemma_into_lazy_depends_on_record_alone(o1: Seq<Tok>, o2: Seq<Tok>, d: LazyStatic)
    requires
        wraps(o1, d),
        wraps(o2, d),
    ensures
        text_of(o1) == text_of(o2),
{
    lemma_same_token_texts(
        o1,
        o2,
        d.attrs@,
        d.vis@,
        d.static_token,
        d.ident,
        d.colon_token,
        d.ty@,
        d.eq_token,
        d.expr@,
        d.semi_token,
    );
}

proof fn lemma_same_span_texts(o1: Seq<Tok>, o2: Seq<Tok>, s: Seq<Tok>, sp: Span)
    requires
        wraps_span(o1, s, sp),
        wraps_span(o2, s, sp),
    ensures
        text_of(o1) == text_of(o2),
{
    lemma_same_token_texts(
        o1,
        o2,
        s.subrange(sp.0, sp.1),
        s.subrange(sp.1, sp.2),
        s[sp.2],
        s[sp.2 + 2],
        s[sp.2 + 3],
        s.subrange(sp.2 + 4, sp.3),
        s[sp.3],
        s.subrange(sp.3 + 1, sp.4),
        s[sp.4],
    );
}

/// Rewriting is a function of the declaration alone: any two rewritings of
/// one declaration have the same text, whatever else was rewritten before.
pub proof fn lemma_rewrite_text_fixed(o1: Seq<Tok>, o2: Seq<Tok>, s: Seq<Tok>, sp: Span)
    requires
        wraps_span(o1, s, sp),
        wraps_span(o2, s, sp),
    ensures
        text_of(o1) == text_of(o2),
        text_of(o1) == lazy_text(s, sp),
{
    lemma_same_span_texts(o1, o2, s, sp);
    let o3 = choose|out: Seq<Tok>| wraps_span(out, s, sp);
    assert(wraps_span(o3, s, sp));
    lemma_same_span_texts(o1, o3, s, sp);
}

fn push_all(out: &mut Vec<Tok>, mut src: Vec<Tok>)
    ensures
        final(out)@ == old(out)@ + src@,
{
    out.append(&mut src);
}

impl LazyStatic {
    /// The tokens of the static that replaces this declaration.
    pub fn into_lazy(self) -> (out: Vec<Tok>)
        ensures
            wraps(out@, self),
    {
        let ghost d = self;
        let LazyStatic {
            attrs,
            vis,
            static_token,
            ref_token: _,
            ident,
            colon_token,
            ty,
            eq_token,
            expr,
            semi_token,
        } = self;
        let mut out: Vec<Tok> = Vec::new();
        push_all(&mut out, attrs);
        push_all(&mut out, vis);
        out.push(static_token);
        out.push(ident);
        out.push(colon_token);
        out.push(Tok::word("Lazy"));
        out.push(Tok::punct('<', false));
        push_all(&mut out, ty);
        out.push(Tok::punct('>', false));
        out.push(eq_token);
        out.push(Tok::word("Lazy"));
        out.push(Tok::punct(':', true));
        out.push(Tok::punct(':', false));
        out.push(Tok::word("new"));
        out.push(Tok::open(Delim::Parenthesis));
        out.push(Tok::punct('|', true));
        out.push(Tok::punct('|', false));
        push_all(&mut out, expr);
        out.push(Tok::close(Delim::Parenthesis));
        out.push(semi_token);
        proof {
            let h: int = d.attrs.len() + d.vis.len() as int;
            let k: int = h + 5 + d.ty.len();
            let m: int = k + 9 + d.expr.len();
            assert(out@.subrange(0, d.attrs.len() as int) =~= d.attrs@);
            assert(out@.subrange(d.attrs.len() as int, h) =~= d.vis@);
            assert(out@.subrange(h + 5, k) =~= d.ty@);
            assert(out@.subrange(k + 9, m) =~= d.expr@);
        }
        out
    }
}

} // verus!
