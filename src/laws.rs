//! What holds of every input: declarations are neither lost nor reordered,
//! other macros are never read, and every accepted declaration has the full
//! shape of the grammar.

use vstd::prelude::*;
use crate::token::{Tok, is_word, is_punct};
use crate::grammar::{
    Span, Failure, block_decls, group_end, decls_from, decl_at, attrs_end, vis_end, type_end, expr_end,
};
use crate::engine::{TopItem, collect, is_target, body_of};
use crate::render::text_of;
use crate::pipeline::lazy_texts;
use crate::syntax::{is_outer_attrs, is_visibility, is_ident, is_type, is_expr};

verus! {

/// Joins the results of two runs of items, the first failure winning.
pub open spec fn join(
    r1: Result<Seq<(Seq<Tok>, Span)>, (Seq<Tok>, Failure)>,
    r2: Result<Seq<(Seq<Tok>, Span)>, (Seq<Tok>, Failure)>,
) -> Result<Seq<(Seq<Tok>, Span)>, (Seq<Tok>, Failure)> {
    match r1 {
        Err(x) => Err(x),
        Ok(p) => match r2 {
            Err(x) => Err(x),
            Ok(q) => Ok(p + q),
        },
    }
}

/// How many declarations the target blocks among `items` hold.
pub open spec fn decl_count(items: Seq<TopItem>) -> int
    decreases items.len(),
{
    if items.len() == 0 {
        0
    } else {
        decl_count(items.drop_last()) + if is_target(items.last()) {
            match block_decls(body_of(items.last())) {
                Ok(spans) => spans.len() as int,
                Err(_) => 0,
            }
        } else {
            0
        }
    }
}

/// A file with no `lazy_static!` invocation yields no declaration at all.
pub proof fn lemma_no_invocation_no_output(items: Seq<TopItem>)
    requires
        forall|k: int| 0 <= k < items.len() ==> !is_target(#[trigger] items[k]),
    ensures
        collect(items) == Ok::<Seq<(Seq<Tok>, Span)>, (Seq<Tok>, Failure)>(seq![]),
    decreases items.len(),
{
    if items.len() > 0 {
        let p = items.drop_last();
        assert forall|k: int| 0 <= k < p.len() implies !is_target(#[trigger] p[k]) by {
            assert(p[k] == items[k]);
        }
        lemma_no_invocation_no_output(p);
    }
}

/// The declarations of two runs of items are those of the first followed by
/// those of the second: blocks keep their order, and so do the declarations
/// within each.
pub proof fn lemma_order_kept(a: Seq<TopItem>, b: Seq<TopItem>)
    ensures
        collect(a + b) == join(collect(a), collect(b)),
    decreases b.len(),
{
    if b.len() == 0 {
        assert(a + b =~= a);
        if let Ok(p) = collect(a) {
            assert(p + seq![] =~= p);
        }
    } else {
        let b0 = b.drop_last();
        assert((a + b).drop_last() =~= a + b0);
        assert((a + b).last() == b.last());
        lemma_order_kept(a, b0);
        if let (Ok(p), Ok(q)) = (collect(a), collect(b0)) {
            if is_target(b.last()) {
                if let Ok(spans) = block_decls(body_of(b.last())) {
                    let more = spans.map_values(|sp: Span| (body_of(b.last()), sp));
                    assert(p + q + more =~= p + (q + more));
                }
            }
        }
    }
}

/// As many declarations come out as the target blocks hold.
pub proof fn lemma_count_kept(items: Seq<TopItem>)
    requires
        collect(items) is Ok,
    ensures
        collect(items)->Ok_0.len() == decl_count(items),
    decreases items.len(),
{
    if items.len() > 0 {
        lemma_count_kept(items.drop_last());
    }
}

/// An invocation of any other macro changes nothing, whatever it holds: the
/// same declarations are gathered, or the same failure comes, and the same
/// texts are rewritten.
pub proof fn lemma_other_macro_ignored(a: Seq<TopItem>, x: TopItem, b: Seq<TopItem>)
    requires
        !is_target(x),
    ensures
        collect(a + seq![x] + b) == collect(a + b),
        collect(a + b) is Ok ==> lazy_texts(collect(a + seq![x] + b)->Ok_0) == lazy_texts(
            collect(a + b)->Ok_0,
        ),
{
    let ax = a + seq![x];
    assert(ax.drop_last() =~= a);
    lemma_order_kept(ax, b);
    lemma_order_kept(a, b);
}

/// One malformed `lazy_static!` block fails the whole file.
pub proof fn lemma_malformed_block_fails_all(items: Seq<TopItem>, k: int)
    requires
        0 <= k < items.len(),
        is_target(items[k]),
        block_decls(body_of(items[k])) is Err,
    ensures
        collect(items) is Err,
{
    let pre = items.subrange(0, k + 1);
    assert(pre.drop_last() =~= items.subrange(0, k));
    assert(pre.last() == items[k]);
    assert(collect(pre) is Err);
    assert(pre + items.subrange(k + 1, items.len() as int) =~= items);
    lemma_order_kept(pre, items.subrange(k + 1, items.len() as int));
}

/// The declaration at `sp` in `s` has every mark of the grammar: `static`,
/// `ref`, a name, `:`, a type of at least one token, `=`, an expression of at
/// least one token, and `;`; and syn takes its name, type and expression for
/// what they stand for.
pub open spec fn well_marked(s: Seq<Tok>, sp: Span) -> bool {
    &&& 0 <= sp.0 <= sp.1 <= sp.2
    &&& sp.2 + 4 < sp.3
    &&& sp.3 + 1 < sp.4 < s.len()
    &&& is_word(s[sp.2], "static"@)
    &&& is_word(s[sp.2 + 1], "ref"@)
    &&& s[sp.2 + 2].kind is Ident
    &&& is_punct(s[sp.2 + 3], ':')
    &&& is_punct(s[sp.3], '=')
    &&& is_punct(s[sp.4], ';')
    &&& is_ident(text_of(s.subrange(sp.2 + 2, sp.2 + 3)))
    &&& is_type(text_of(s.subrange(sp.2 + 4, sp.3)))
    &&& is_expr(text_of(s.subrange(sp.3 + 1, sp.4)))
}

proof fn lemma_attrs_end_after(s: Seq<Tok>, i: int)
    requires
        attrs_end(s, i) is Ok,
    ensures
        attrs_end(s, i)->Ok_0 >= i,
    decreases s.len() - i,
{
    if 0 <= i < s.len() && crate::token::is_punct(s[i], '#') {
        let j = group_end(s, i + 1, 0)->Some_0;
        lemma_attrs_end_after(s, j);
    }
}

proof fn lemma_group_end_after(s: Seq<Tok>, i: int, d: int)
    requires
        group_end(s, i, d) is Some,
    ensures
        i < group_end(s, i, d)->Some_0,
    decreases s.len() - i,
{
    if d + crate::token::nesting(s[i]) > 0 {
        lemma_group_end_after(s, i + 1, d + crate::token::nesting(s[i]));
    }
}

proof fn lemma_type_end_marks(s: Seq<Tok>, i: int, g: int, a: int)
    requires
        type_end(s, i, g, a) is Some,
    ensures
        i <= type_end(s, i, g, a)->Some_0 < s.len(),
        is_punct(s[type_end(s, i, g, a)->Some_0], '='),
    decreases s.len() - i,
{
    if !(g == 0 && a == 0 && is_punct(s[i], '=')) {
        lemma_type_end_marks(s, i + 1, g + crate::token::nesting(s[i]), if g == 0 { a + crate::grammar::angle(s, i) } else { a });
    }
}

proof fn lemma_expr_end_marks(s: Seq<Tok>, i: int, g: int)
    requires
        expr_end(s, i, g) is Some,
    ensures
        i <= expr_end(s, i, g)->Some_0 < s.len(),
        is_punct(s[expr_end(s, i, g)->Some_0], ';'),
    decreases s.len() - i,
{
    if !(g == 0 && is_punct(s[i], ';')) {
        lemma_expr_end_marks(s, i + 1, g + crate::token::nesting(s[i]));
    }
}

proof fn lemma_decl_marks(s: Seq<Tok>, i: int)
    requires
        0 <= i,
        decl_at(s, i) is Ok,
    ensures
        ({
            let d = decl_at(s, i)->Ok_0;
            well_marked(s, (i, d.0, d.1, d.2, d.3))
        }),
{
    lemma_attrs_end_after(s, i);
    let a = attrs_end(s, i)->Ok_0;
    if 0 <= a < s.len() && is_word(s[a], "pub"@) && a + 1 < s.len() {
        lemma_group_end_after(s, a + 1, 0);
    }
    let v = vis_end(s, a)->Ok_0;
    lemma_type_end_marks(s, v + 4, 0, 0);
    let t = type_end(s, v + 4, 0, 0)->Some_0;
    lemma_expr_end_marks(s, t + 1, 0);
}

proof fn lemma_decls_from_shape(s: Seq<Tok>, i: int)
    requires
        0 <= i <= s.len(),
        decls_from(s, i) is Ok,
    ensures
        ({
            let spans = decls_from(s, i)->Ok_0;
            &&& (spans.len() == 0 <==> i == s.len())
            &&& spans.len() > 0 ==> spans[0].0 == i && spans.last().4 + 1 == s.len()
            &&& forall|k: int| 0 <= k < spans.len() - 1 ==> #[trigger] spans[k + 1].0 == spans[k].4 + 1
            &&& forall|k: int| 0 <= k < spans.len() ==> well_marked(s, #[trigger] spans[k])
        }),
    decreases s.len() - i,
{
    if i < s.len() {
        lemma_decl_marks(s, i);
        let d = decl_at(s, i)->Ok_0;
        lemma_decls_from_shape(s, d.3 + 1);
        let rest = decls_from(s, d.3 + 1)->Ok_0;
        let spans = decls_from(s, i)->Ok_0;
        assert(spans == seq![(i, d.0, d.1, d.2, d.3)] + rest);
        assert forall|k: int| 0 <= k < spans.len() - 1 implies #[trigger] spans[k + 1].0 == spans[k].4 + 1 by {
            assert(spans[k + 1] == rest[k]);
            if k > 0 {
                assert(spans[k] == rest[k - 1]);
                assert(rest[(k - 1) + 1].0 == rest[k - 1].4 + 1);
            }
        }
        assert forall|k: int| 0 <= k < spans.len() implies well_marked(s, #[trigger] spans[k]) by {
            if k > 0 {
                assert(spans[k] == rest[k - 1]);
            }
        }
    }
}

/// A block is accepted only where it is a run of complete declarations, one
/// right after the other from its first token to its last, each with every
/// mark of the grammar: a block that lacks `ref`, a type or a `;` anywhere,
/// or whose name, type or expression syn refuses, is refused.
pub proof fn lemma_accepted_blocks_are_complete(s: Seq<Tok>)
    requires
        block_decls(s) is Ok,
    ensures
        ({
            let spans = block_decls(s)->Ok_0;
            &&& (spans.len() == 0 <==> s.len() == 0)
            &&& spans.len() > 0 ==> spans[0].0 == 0 && spans.last().4 + 1 == s.len()
            &&& forall|k: int| 0 <= k < spans.len() - 1 ==> #[trigger] spans[k + 1].0 == spans[k].4 + 1
            &&& forall|k: int| 0 <= k < spans.len() ==> well_marked(s, #[trigger] spans[k])
        }),
{
    lemma_decls_from_shape(s, 0);
}


/// The declaration at `sp` in `s` is well formed: outer attributes, a
/// visibility, `static`, `ref`, a name, `:`, a type up to the first `=`
/// outside groups and angle brackets, an expression up to the first `;`
/// outside groups, each piece accepted by syn.
pub open spec fn well_formed_at(s: Seq<Tok>, sp: Span) -> bool {
    let (i, a, v, t, e) = sp;
    &&& 0 <= i
    &&& attrs_end(s, i) == Ok::<int, Failure>(a)
    &&& is_outer_attrs(text_of(s.subrange(i, a)))
    &&& vis_end(s, a) == Ok::<int, Failure>(v)
    &&& is_visibility(text_of(s.subrange(a, v)))
    &&& v + 3 < s.len()
    &&& is_word(s[v], "static"@)
    &&& is_word(s[v + 1], "ref"@)
    &&& s[v + 2].kind is Ident
    &&& is_ident(text_of(s.subrange(v + 2, v + 3)))
    &&& is_punct(s[v + 3], ':')
    &&& type_end(s, v + 4, 0, 0) == Some(t)
    &&& v + 4 < t
    &&& is_type(text_of(s.subrange(v + 4, t)))
    &&& expr_end(s, t + 1, 0) == Some(e)
    &&& t + 1 < e
    &&& is_expr(text_of(s.subrange(t + 1, e)))
}

proof fn lemma_well_formed_run(s: Seq<Tok>, spans: Seq<Span>, k: int)
    requires
        0 <= k <= spans.len(),
        spans.len() > 0 ==> spans.last().4 + 1 == s.len(),
        forall|j: int| 0 <= j < spans.len() - 1 ==> #[trigger] spans[j + 1].0 == spans[j].4 + 1,
        forall|j: int| 0 <= j < spans.len() ==> well_formed_at(s, #[trigger] spans[j]),
    ensures
        decls_from(s, if k < spans.len() { spans[k].0 } else { s.len() as int }) == Ok::<
            Seq<Span>,
            Failure,
        >(spans.subrange(k, spans.len() as int)),
    decreases spans.len() - k,
{
    if k < spans.len() {
        let sp = spans[k];
        assert(well_formed_at(s, sp));
        lemma_expr_end_marks(s, sp.3 + 1, 0);
        lemma_type_end_marks(s, sp.2 + 4, 0, 0);
        lemma_attrs_end_after(s, sp.0);
        lemma_well_formed_run(s, spans, k + 1);
        if k + 1 < spans.len() {
            assert(spans[k + 1].0 == spans[k].4 + 1);
        } else {
            assert(spans.last() == sp);
        }
        assert(decl_at(s, sp.0) == Ok::<(int, int, int, int), Failure>((sp.1, sp.2, sp.3, sp.4)));
        lemma_decl_marks(s, sp.0);
        assert(spans.subrange(k, spans.len() as int) =~= seq![sp] + spans.subrange(
            k + 1,
            spans.len() as int,
        ));
    } else {
        assert(spans.subrange(k, spans.len() as int) =~= Seq::<Span>::empty());
    }
}

/// A block that is a run of well-formed declarations, one right after the
/// other from its first token to its last, is accepted, with exactly those
/// declarations in that order.
pub proof fn lemma_well_formed_block_accepted(s: Seq<Tok>, spans: Seq<Span>)
    requires
        spans.len() == 0 ==> s.len() == 0,
        spans.len() > 0 ==> spans[0].0 == 0 && spans.last().4 + 1 == s.len(),
        forall|j: int| 0 <= j < spans.len() - 1 ==> #[trigger] spans[j + 1].0 == spans[j].4 + 1,
        forall|j: int| 0 <= j < spans.len() ==> well_formed_at(s, #[trigger] spans[j]),
    ensures
        block_decls(s) == Ok::<Seq<Span>, Failure>(spans),
{
    lemma_well_formed_run(s, spans, 0);
    assert(spans.subrange(0, spans.len() as int) =~= spans);
}

} // verus!
