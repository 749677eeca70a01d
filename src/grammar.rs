//! The grammar of a `lazy_static!` block:
//!
//! ```text
//! Block       := Declaration*
//! Declaration := Attribute* Visibility? 'static' 'ref' Name ':' Type '=' Expr ';'
//! ```
//!
//! A type ends at the first `=` outside any group and any angle brackets; an
//! expression ends at the first `;` outside any group. Each piece so found
//! (the attributes, the visibility, the name, the type and the expression)
//! must then be accepted by syn as what it stands for; a piece that is not
//! fails the block at its first token.

use vstd::prelude::*;
use crate::token::{Tok, Delim, is_word, is_punct, is_joint_punct, is_open, nesting};
use crate::render::{render, text_of};
use crate::syntax::{
    is_outer_attrs, is_visibility, is_ident, is_type, is_expr, parses_as_outer_attrs,
    parses_as_visibility, parses_as_ident, parses_as_type, parses_as_expr,
};

verus! {

/// What the parser looked for where a block went wrong.
#[derive(Clone, Copy, Debug, PartialEq, Eq, Structural)]
pub enum Expected {
    AttributeBody,
    ClosingDelimiter,
    Visibility,
    Static,
    Ref,
    Name,
    Colon,
    Type,
    Equals,
    Expression,
    Semicolon,
}

/// A malformed block: what was expected, at which token of the block (its
/// length where the block ended too soon), and where that token stands.
#[derive(Clone, Copy, Debug, PartialEq, Eq, Structural)]
pub struct SyntaxError {
    pub expected: Expected,
    pub index: usize,
    pub line: usize,
    pub column: usize,
}

/// One declaration of a block, its tokens split by role.
#[derive(Debug)]
pub struct LazyStatic {
    pub attrs: Vec<Tok>,
    pub vis: Vec<Tok>,
    pub static_token: Tok,
    pub ref_token: Tok,
    pub ident: Tok,
    pub colon_token: Tok,
    pub ty: Vec<Tok>,
    pub eq_token: Tok,
    pub expr: Vec<Tok>,
    pub semi_token: Tok,
}

/// Where a declaration lies in its block: its first token, the end of its
/// attributes, the `static` keyword, the `=` and the `;`.
pub type Span = (int, int, int, int, int);

/// A failure in spec terms: the index of the offending token, and what was
/// expected there.
pub type Failure = (int, Expected);

/// The index just past the group whose opening marker is at `i`, entered at
/// depth `d`.
pub open spec fn group_end(s: Seq<Tok>, i: int, d: int) -> Option<int>
    decreases s.len() - i,
{
    if i < 0 || i >= s.len() {
        None
    } else if d + nesting(s[i]) <= 0 {
        Some(i + 1)
    } else {
        group_end(s, i + 1, d + nesting(s[i]))
    }
}

/// The end of the outer attributes (`# [ ... ]`) that start at `i`.
pub open spec fn attrs_end(s: Seq<Tok>, i: int) -> Result<int, Failure>
    decreases s.len() - i,
{
    if 0 <= i < s.len() && is_punct(s[i], '#') {
        if i + 1 < s.len() && is_open(s[i + 1], Delim::Bracket) {
            match group_end(s, i + 1, 0) {
                Some(j) => if i < j <= s.len() {
                    attrs_end(s, j)
                } else {
                    Err((j, Expected::AttributeBody))
                },
                None => Err((s.len() as int, Expected::ClosingDelimiter)),
            }
        } else {
            Err((i + 1, Expected::AttributeBody))
        }
    } else {
        Ok(i)
    }
}

/// The end of the visibility (`pub`, or `pub` and a parenthesised group)
/// that may start at `i`.
pub open spec fn vis_end(s: Seq<Tok>, i: int) -> Result<int, Failure> {
    if 0 <= i < s.len() && is_word(s[i], "pub"@) {
        if i + 1 < s.len() && is_open(s[i + 1], Delim::Parenthesis) {
            match group_end(s, i + 1, 0) {
                Some(j) => Ok(j),
                None => Err((s.len() as int, Expected::ClosingDelimiter)),
            }
        } else {
            Ok(i + 1)
        }
    } else {
        Ok(i)
    }
}

/// How the token at `k` changes the depth of angle brackets; the `>` of `->`
/// closes none.
pub open spec fn angle(s: Seq<Tok>, k: int) -> int {
    if is_punct(s[k], '<') {
        1
    } else if is_punct(s[k], '>') && !(k > 0 && is_joint_punct(s[k - 1], '-')) {
        -1
    } else {
        0
    }
}

/// The first `=` at or after `i` outside groups and angle brackets, the
/// depths before `i` being `g` and `a`.
pub open spec fn type_end(s: Seq<Tok>, i: int, g: int, a: int) -> Option<int>
    decreases s.len() - i,
{
    if i < 0 || i >= s.len() {
        None
    } else if g == 0 && a == 0 && is_punct(s[i], '=') {
        Some(i)
    } else {
        type_end(s, i + 1, g + nesting(s[i]), if g == 0 { a + angle(s, i) } else { a })
    }
}

/// The first `;` at or after `i` outside groups, the depth before `i` being
/// `g`.
pub open spec fn expr_end(s: Seq<Tok>, i: int, g: int) -> Option<int>
    decreases s.len() - i,
{
    if i < 0 || i >= s.len() {
        None
    } else if g == 0 && is_punct(s[i], ';') {
        Some(i)
    } else {
        expr_end(s, i + 1, g + nesting(s[i]))
    }
}

/// The end of the longest run of tokens from `lo`, ending at or before `j`,
/// that syn takes for a type: where a type is followed by what cannot
/// continue it, the token after that run is where `=` was expected.
pub open spec fn type_prefix(s: Seq<Tok>, lo: int, j: int) -> Option<int>
    decreases j - lo,
{
    if j <= lo {
        None
    } else if is_type(text_of(s.subrange(lo, j))) {
        Some(j)
    } else {
        type_prefix(s, lo, j - 1)
    }
}

/// The end of the longest run of tokens from `lo`, ending at or before `j`,
/// that syn takes for an expression: the token after it is where `;` was
/// expected.
pub open spec fn expr_prefix(s: Seq<Tok>, lo: int, j: int) -> Option<int>
    decreases j - lo,
{
    if j <= lo {
        None
    } else if is_expr(text_of(s.subrange(lo, j))) {
        Some(j)
    } else {
        expr_prefix(s, lo, j - 1)
    }
}

/// The declaration that starts at `i`: the end of its attributes, the index
/// of `static`, of `=` and of `;`.
pub open spec fn decl_at(s: Seq<Tok>, i: int) -> Result<(int, int, int, int), Failure> {
    match attrs_end(s, i) {
        Err(x) => Err(x),
        Ok(a) => if !is_outer_attrs(text_of(s.subrange(i, a))) {
            Err((i, Expected::AttributeBody))
        } else {
            match vis_end(s, a) {
                Err(x) => Err(x),
                Ok(v) => if !is_visibility(text_of(s.subrange(a, v))) {
                    Err((a, Expected::Visibility))
                } else if !(v < s.len() && is_word(s[v], "static"@)) {
                    Err((v, Expected::Static))
                } else if !(v + 1 < s.len() && is_word(s[v + 1], "ref"@)) {
                    Err((v + 1, Expected::Ref))
                } else if !(v + 2 < s.len() && s[v + 2].kind is Ident && is_ident(
                    text_of(s.subrange(v + 2, v + 3)),
                )) {
                    Err((v + 2, Expected::Name))
                } else if !(v + 3 < s.len() && is_punct(s[v + 3], ':')) {
                    Err((v + 3, Expected::Colon))
                } else {
                    match type_end(s, v + 4, 0, 0) {
                        None => Err((s.len() as int, Expected::Equals)),
                        Some(t) => if t == v + 4 {
                            Err((v + 4, Expected::Type))
                        } else if !is_type(text_of(s.subrange(v + 4, t))) {
                            match type_prefix(s, v + 4, t - 1) {
                                Some(p) => Err((p, Expected::Equals)),
                                None => Err((v + 4, Expected::Type)),
                            }
                        } else {
                            match expr_end(s, t + 1, 0) {
                                None => Err((s.len() as int, Expected::Semicolon)),
                                Some(e) => if e == t + 1 {
                                    Err((t + 1, Expected::Expression))
                                } else if !is_expr(text_of(s.subrange(t + 1, e))) {
                                    match expr_prefix(s, t + 1, e - 1) {
                                        Some(p) => Err((p, Expected::Semicolon)),
                                        None => Err((t + 1, Expected::Expression)),
                                    }
                                } else {
                                    Ok((a, v, t, e))
                                },
                            }
                        },
                    }
                },
            }
        },
    }
}

/// The declarations from `i` to the end of the block, in order, or the first
/// failure.
pub open spec fn decls_from(s: Seq<Tok>, i: int) -> Result<Seq<Span>, Failure>
    decreases s.len() - i,
{
    if i < 0 || i >= s.len() {
        Ok(seq![])
    } else {
        match decl_at(s, i) {
            Err(x) => Err(x),
            Ok(d) => if i < d.3 + 1 <= s.len() {
                match decls_from(s, d.3 + 1) {
                    Err(x) => Err(x),
                    Ok(rest) => Ok(seq![(i, d.0, d.1, d.2, d.3)] + rest),
                }
            } else {
                Err((d.3, Expected::Semicolon))
            },
        }
    }
}

/// The declarations of a whole block.
pub open spec fn block_decls(s: Seq<Tok>) -> Result<Seq<Span>, Failure> {
    decls_from(s, 0)
}

/// `r` holds the tokens of the declaration that lies at `sp` in `s`.
pub open spec fn record_of(r: LazyStatic, s: Seq<Tok>, sp: Span) -> bool {
    &&& r.attrs@ == s.subrange(sp.0, sp.1)
    &&& r.vis@ == s.subrange(sp.1, sp.2)
    &&& r.static_token == s[sp.2]
    &&& r.ref_token == s[sp.2 + 1]
    &&& r.ident == s[sp.2 + 2]
    &&& r.colon_token == s[sp.2 + 3]
    &&& r.ty@ == s.subrange(sp.2 + 4, sp.3)
    &&& r.eq_token == s[sp.3]
    &&& r.expr@ == s.subrange(sp.3 + 1, sp.4)
    &&& r.semi_token == s[sp.4]
}

/// The token that a failure at `k` points at: the one at `k`, or the last
/// one where the block ended too soon.
pub open spec fn point_of(s: Seq<Tok>, k: int) -> (usize, usize) {
    if 0 <= k < s.len() {
        (s[k].line, s[k].column)
    } else if s.len() > 0 {
        (s.last().line, s.last().column)
    } else {
        (0, 0)
    }
}

/// `e` reports the failure `x` of the block `s`.
pub open spec fn reports(e: SyntaxError, s: Seq<Tok>, x: Failure) -> bool {
    &&& e.index as int == x.0
    &&& e.expected == x.1
    &&& (e.line, e.column) == point_of(s, x.0)
}

pub open spec fn lift(r: Result<usize, (usize, Expected)>) -> Result<int, Failure> {
    match r {
        Ok(j) => Ok(j as int),
        Err(x) => Err((x.0 as int, x.1)),
    }
}

fn find_group_end(s: &Vec<Tok>, i: usize) -> (r: Option<usize>)
    requires
        i < s.len(),
    ensures
        match r {
            Some(j) => group_end(s@, i as int, 0) == Some(j as int) && i < j <= s.len(),
            None => group_end(s@, i as int, 0) is None,
        },
{
    let mut k: usize = i;
    let mut d: i128 = 0;
    while k < s.len()
        invariant
            i <= k <= s.len(),
            0 <= d <= k - i,
            group_end(s@, i as int, 0) == group_end(s@, k as int, d as int),
        decreases s.len() - k,
    {
        let nd: i128 = d + s[k].nesting() as i128;
        if nd <= 0 {
            return Some(k + 1);
        }
        d = nd;
        k = k + 1;
    }
    None
}

fn find_attrs_end(s: &Vec<Tok>, i: usize) -> (r: Result<usize, (usize, Expected)>)
    requires
        i <= s.len(),
    ensures
        lift(r) == attrs_end(s@, i as int),
        r matches Ok(j) ==> i <= j <= s.len(),
{
    let mut k: usize = i;
    loop
        invariant
            i <= k <= s.len(),
            attrs_end(s@, i as int) == attrs_end(s@, k as int),
        decreases s.len() - k,
    {
        if !(k < s.len() && s[k].punct_is('#')) {
            return Ok(k);
        }
        if !(k + 1 < s.len() && s[k + 1].opens(Delim::Bracket)) {
            return Err((k + 1, Expected::AttributeBody));
        }
        match find_group_end(s, k + 1) {
            Some(j) => {
                k = j;
            },
            None => {
                return Err((s.len(), Expected::ClosingDelimiter));
            },
        }
    }
}

fn find_vis_end(s: &Vec<Tok>, i: usize) -> (r: Result<usize, (usize, Expected)>)
    requires
        i <= s.len(),
    ensures
        lift(r) == vis_end(s@, i as int),
        r matches Ok(j) ==> i <= j <= s.len(),
{
    if !(i < s.len() && s[i].word_is("pub")) {
        return Ok(i);
    }
    if !(i + 1 < s.len() && s[i + 1].opens(Delim::Parenthesis)) {
        return Ok(i + 1);
    }
    match find_group_end(s, i + 1) {
        Some(j) => Ok(j),
        None => Err((s.len(), Expected::ClosingDelimiter)),
    }
}

fn find_type_end(s: &Vec<Tok>, i: usize) -> (r: Option<usize>)
    requires
        i <= s.len(),
    ensures
        match r {
            Some(t) => type_end(s@, i as int, 0, 0) == Some(t as int) && i <= t < s.len(),
            None => type_end(s@, i as int, 0, 0) is None,
        },
{
    let mut k: usize = i;
    let mut g: i128 = 0;
    let mut a: i128 = 0;
    while k < s.len()
        invariant
            i <= k <= s.len(),
            -(k - i) <= g <= k - i,
            -(k - i) <= a <= k - i,
            type_end(s@, i as int, 0, 0) == type_end(s@, k as int, g as int, a as int),
        decreases s.len() - k,
    {
        if g == 0 && a == 0 && s[k].punct_is('=') {
            return Some(k);
        }
        if g == 0 {
            if s[k].punct_is('<') {
                a = a + 1;
            } else if s[k].punct_is('>') && !(k > 0 && s[k - 1].joint_punct_is('-')) {
                a = a - 1;
            }
        }
        g = g + s[k].nesting() as i128;
        k = k + 1;
    }
    None
}

fn find_expr_end(s: &Vec<Tok>, i: usize) -> (r: Option<usize>)
    requires
        i <= s.len(),
    ensures
        match r {
            Some(e) => expr_end(s@, i as int, 0) == Some(e as int) && i <= e < s.len(),
            None => expr_end(s@, i as int, 0) is None,
        },
{
    let mut k: usize = i;
    let mut g: i128 = 0;
    while k < s.len()
        invariant
            i <= k <= s.len(),
            -(k - i) <= g <= k - i,
            expr_end(s@, i as int, 0) == expr_end(s@, k as int, g as int),
        decreases s.len() - k,
    {
        if g == 0 && s[k].punct_is(';') {
            return Some(k);
        }
        g = g + s[k].nesting() as i128;
        k = k + 1;
    }
    None
}

pub open spec fn lift_decl(r: Result<(usize, usize, usize, usize), (usize, Expected)>) -> Result<
    (int, int, int, int),
    Failure,
> {
    match r {
        Ok(d) => Ok((d.0 as int, d.1 as int, d.2 as int, d.3 as int)),
        Err(x) => Err((x.0 as int, x.1)),
    }
}

fn find_decl(s: &Vec<Tok>, i: usize) -> (r: Result<(usize, usize, usize, usize), (usize, Expected)>)
    requires
        i <= s.len(),
    ensures
        lift_decl(r) == decl_at(s@, i as int),
        r matches Ok(d) ==> i <= d.0 <= d.1 && d.1 + 4 <= d.2 && d.2 < d.3 < s.len(),
{
    let a = match find_attrs_end(s, i) {
        Ok(a) => a,
        Err(x) => {
            return Err(x);
        },
    };
    if !parses_as_outer_attrs(render(&copy_range(s, i, a)).as_str()) {
        return Err((i, Expected::AttributeBody));
    }
    let v = match find_vis_end(s, a) {
        Ok(v) => v,
        Err(x) => {
            return Err(x);
        },
    };
    if !parses_as_visibility(render(&copy_range(s, a, v)).as_str()) {
        return Err((a, Expected::Visibility));
    }
    if !(v < s.len() && s[v].word_is("static")) {
        return Err((v, Expected::Static));
    }
    if !(v + 1 < s.len() && s[v + 1].word_is("ref")) {
        return Err((v + 1, Expected::Ref));
    }
    if !(v + 2 < s.len() && s[v + 2].is_ident() && parses_as_ident(
        render(&copy_range(s, v + 2, v + 3)).as_str(),
    )) {
        return Err((v + 2, Expected::Name));
    }
    if !(v + 3 < s.len() && s[v + 3].punct_is(':')) {
        return Err((v + 3, Expected::Colon));
    }
    let t = match find_type_end(s, v + 4) {
        Some(t) => t,
        None => {
            return Err((s.len(), Expected::Equals));
        },
    };
    if t == v + 4 {
        return Err((v + 4, Expected::Type));
    }
    if !parses_as_type(render(&copy_range(s, v + 4, t)).as_str()) {
        return match find_type_prefix(s, v + 4, t - 1) {
            Some(p) => Err((p, Expected::Equals)),
            None => Err((v + 4, Expected::Type)),
        };
    }
    let e = match find_expr_end(s, t + 1) {
        Some(e) => e,
        None => {
            return Err((s.len(), Expected::Semicolon));
        },
    };
    if e == t + 1 {
        return Err((t + 1, Expected::Expression));
    }
    if !parses_as_expr(render(&copy_range(s, t + 1, e)).as_str()) {
        return match find_expr_prefix(s, t + 1, e - 1) {
            Some(p) => Err((p, Expected::Semicolon)),
            None => Err((t + 1, Expected::Expression)),
        };
    }
    Ok((a, v, t, e))
}

fn find_type_prefix(s: &Vec<Tok>, lo: usize, j: usize) -> (r: Option<usize>)
    requires
        lo <= j <= s.len(),
    ensures
        match r {
            Some(p) => type_prefix(s@, lo as int, j as int) == Some(p as int) && lo < p <= j,
            None => type_prefix(s@, lo as int, j as int) is None,
        },
{
    let mut k: usize = j;
    while k > lo
        invariant
            lo <= k <= j <= s.len(),
            type_prefix(s@, lo as int, j as int) == type_prefix(s@, lo as int, k as int),
        decreases k,
    {
        if parses_as_type(render(&copy_range(s, lo, k)).as_str()) {
            return Some(k);
        }
        k = k - 1;
    }
    None
}

fn find_expr_prefix(s: &Vec<Tok>, lo: usize, j: usize) -> (r: Option<usize>)
    requires
        lo <= j <= s.len(),
    ensures
        match r {
            Some(p) => expr_prefix(s@, lo as int, j as int) == Some(p as int) && lo < p <= j,
            None => expr_prefix(s@, lo as int, j as int) is None,
        },
{
    let mut k: usize = j;
    while k > lo
        invariant
            lo <= k <= j <= s.len(),
            expr_prefix(s@, lo as int, j as int) == expr_prefix(s@, lo as int, k as int),
        decreases k,
    {
        if parses_as_expr(render(&copy_range(s, lo, k)).as_str()) {
            return Some(k);
        }
        k = k - 1;
    }
    None
}

/// A copy of the tokens from `lo` up to `hi`.
pub fn copy_range(s: &Vec<Tok>, lo: usize, hi: usize) -> (r: Vec<Tok>)
    requires
        lo <= hi <= s.len(),
    ensures
        r@ == s@.subrange(lo as int, hi as int),
{
    let mut r: Vec<Tok> = Vec::new();
    let mut k: usize = lo;
    while k < hi
        invariant
            lo <= k <= hi <= s.len(),
            r@ == s@.subrange(lo as int, k as int),
        decreases hi - k,
    {
        r.push(s[k].duplicate());
        k = k + 1;
        assert(r@ =~= s@.subrange(lo as int, k as int));
    }
    r
}

pub fn error_at(s: &Vec<Tok>, k: usize, expected: Expected) -> (e: SyntaxError)
    ensures
        reports(e, s@, (k as int, expected)),
{
    let (line, column) = if k < s.len() {
        (s[k].line, s[k].column)
    } else if s.len() > 0 {
        (s[s.len() - 1].line, s[s.len() - 1].column)
    } else {
        (0, 0)
    };
    SyntaxError { expected, index: k, line, column }
}

/// Prepends the declarations already read to what the rest of a block gives.
pub open spec fn after(done: Seq<Span>, rest: Result<Seq<Span>, Failure>) -> Result<Seq<Span>, Failure> {
    match rest {
        Ok(q) => Ok(done + q),
        Err(x) => Err(x),
    }
}

/// Parses the tokens of one block into its declarations, in order.
pub fn parse_block(s: &Vec<Tok>) -> (r: Result<Vec<LazyStatic>, SyntaxError>)
    ensures
        match block_decls(s@) {
            Ok(spans) => r matches Ok(ds) && ds.len() == spans.len()
                && forall|k: int| 0 <= k < ds.len() ==> #[trigger] record_of(ds[k], s@, spans[k]),
            Err(x) => r matches Err(e) && reports(e, s@, x),
        },
{
    let mut ds: Vec<LazyStatic> = Vec::new();
    let ghost mut done: Seq<Span> = seq![];
    let mut i: usize = 0;
    while i < s.len()
        invariant
            i <= s.len(),
            block_decls(s@) == after(done, decls_from(s@, i as int)),
            ds.len() == done.len(),
            forall|k: int| 0 <= k < ds.len() ==> #[trigger] record_of(ds[k], s@, done[k]),
        decreases s.len() - i,
    {
        let (a, v, t, e) = match find_decl(s, i) {
            Ok(d) => d,
            Err((k, x)) => {
                return Err(error_at(s, k, x));
            },
        };
        let d = LazyStatic {
            attrs: copy_range(s, i, a),
            vis: copy_range(s, a, v),
            static_token: s[v].duplicate(),
            ref_token: s[v + 1].duplicate(),
            ident: s[v + 2].duplicate(),
            colon_token: s[v + 3].duplicate(),
            ty: copy_range(s, v + 4, t),
            eq_token: s[t].duplicate(),
            expr: copy_range(s, t + 1, e),
            semi_token: s[e].duplicate(),
        };
        let ghost sp: Span = (i as int, a as int, v as int, t as int, e as int);
        assert(record_of(d, s@, sp));
        proof {
            assert(decls_from(s@, i as int) == after(seq![sp], decls_from(s@, e + 1)));
            assert(done + seq![sp] + seq![] =~= done + seq![sp]);
            match decls_from(s@, e + 1) {
                Ok(q) => {
                    assert(done + (seq![sp] + q) =~= done + seq![sp] + q);
                },
                Err(_) => {},
            }
            done = done + seq![sp];
        }
        ds.push(d);
        i = e + 1;
    }
    proof {
        assert(done + seq![] =~= done);
    }
    Ok(ds)
}

} // verus!
