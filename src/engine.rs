//! Picks the `lazy_static!` invocations out of a file's top-level items and
//! gathers the declarations of all of them, in order.

use vstd::prelude::*;
use crate::token::Tok;
use crate::grammar::{LazyStatic, SyntaxError, Span, Failure, block_decls, parse_block, record_of, reports};

verus! {

/// A top-level item of a file, as far as the rewriting cares: a macro
/// invocation, with the name of the macro where its path is a single
/// identifier, and the tokens it is given; or anything else.
#[derive(Debug)]
pub enum TopItem {
    Invocation { name: Option<String>, tokens: Vec<Tok> },
    Other,
}

/// The invocations that are rewritten: of the macro named exactly
/// `lazy_static`.
pub open spec fn is_target(it: TopItem) -> bool {
    match it {
        TopItem::Invocation { name, tokens: _ } => name is Some && name->0@ == "lazy_static"@,
        TopItem::Other => false,
    }
}

pub open spec fn body_of(it: TopItem) -> Seq<Tok> {
    match it {
        TopItem::Invocation { name: _, tokens } => tokens@,
        TopItem::Other => seq![],
    }
}

/// The declarations of all target blocks among `items`, in order, each with
/// the block that holds it; or the body of the first malformed block and its
/// failure.
pub open spec fn collect(items: Seq<TopItem>) -> Result<Seq<(Seq<Tok>, Span)>, (Seq<Tok>, Failure)>
    decreases items.len(),
{
    if items.len() == 0 {
        Ok(seq![])
    } else {
        match collect(items.drop_last()) {
            Err(x) => Err(x),
            Ok(prev) => if is_target(items.last()) {
                let body = body_of(items.last());
                match block_decls(body) {
                    Err(x) => Err((body, x)),
                    Ok(spans) => Ok(prev + spans.map_values(|sp: Span| (body, sp))),
                }
            } else {
                Ok(prev)
            },
        }
    }
}

impl TopItem {
    /// Whether this item is a `lazy_static!` invocation.
    pub fn is_lazy_static(&self) -> (r: bool)
        ensures
            r == is_target(*self),
    {
        match self {
            TopItem::Invocation { name: Some(n), tokens: _ } => {
                let w = String::from_str("lazy_static");
                *n == w
            },
            _ => false,
        }
    }
}

/// The declarations of every `lazy_static!` block among `items`, in order;
/// fails on the first malformed block, with nothing else.
pub fn translate_items(items: &Vec<TopItem>) -> (r: Result<Vec<LazyStatic>, SyntaxError>)
    ensures
        match collect(items@) {
            Ok(all) => r matches Ok(ds) && ds.len() == all.len()
                && forall|k: int| 0 <= k < ds.len() ==> #[trigger] record_of(ds[k], all[k].0, all[k].1),
            Err(x) => r matches Err(e) && reports(e, x.0, x.1),
        },
{
    let mut ds: Vec<LazyStatic> = Vec::new();
    let mut i: usize = 0;
    while i < items.len()
        invariant
            i <= items.len(),
            collect(items@.subrange(0, i as int)) matches Ok(all) && ds.len() == all.len()
                && forall|k: int| 0 <= k < ds.len() ==> #[trigger] record_of(ds[k], all[k].0, all[k].1),
        decreases items.len() - i,
    {
        let ghost pre = items@.subrange(0, i as int);
        let ghost cur = items@.subrange(0, i + 1);
        assert(cur.drop_last() =~= pre);
        let target = items[i].is_lazy_static();
        match &items[i] {
            TopItem::Invocation { name: _, tokens: block } if target => {
                match parse_block(block) {
                    Err(e) => {
                        proof {
                            lemma_failure_stays(items@, i as int);
                        }
                        return Err(e);
                    },
                    Ok(mut more) => {
                        let ghost old_ds = ds@;
                        ds.append(&mut more);
                        proof {
                            let all = collect(pre)->Ok_0;
                            let spans = block_decls(block@)->Ok_0;
                            let now = all + spans.map_values(|sp: Span| (block@, sp));
                            assert(collect(cur) == Ok::<_, (Seq<Tok>, Failure)>(now));
                            assert forall|k: int| 0 <= k < ds.len() implies #[trigger] record_of(ds[k], now[k].0, now[k].1) by {
                                if k < old_ds.len() {
                                    assert(ds[k] == old_ds[k]);
                                } else {
                                    assert(now[k] == (block@, spans[k - old_ds.len()]));
                                }
                            }
                        }
                    },
                }
            },
            _ => {},
        }
        i = i + 1;
    }
    assert(items@.subrange(0, items.len() as int) =~= items@);
    Ok(ds)
}

/// A failure in the items before `i` or at `i` is the failure of all items.
proof fn lemma_failure_stays(items: Seq<TopItem>, i: int)
    requires
        0 <= i < items.len(),
        collect(items.subrange(0, i + 1)) is Err,
    ensures
        collect(items.subrange(0, i + 1)) == collect(items),
    decreases items.len() - i,
{
    if i + 1 < items.len() {
        assert(items.subrange(0, i + 2).drop_last() =~= items.subrange(0, i + 1));
        lemma_failure_stays(items, i + 1);
    } else {
        assert(items.subrange(0, i + 1) =~= items);
    }
}

} // verus!
