use vstd::prelude::*;
use crate::container::Container;
use crate::dispatch::{DispatchError, settles};
use crate::handler::{Chain, Endpoint, Filter, Handled, Handler, Outcome, Parser};
use crate::inject::{all_present, injected};

verus! {

/// An endpoint run on a container that holds every tag it injects answers with its
/// function applied to the injected values; it never declines.
pub proof fn law_endpoint_answers<V, O, F: Fn(Vec<&V>) -> O>(ep: Endpoint<F>, c: Container<V>, r: Handled<V, O>)
    requires
        all_present(c@, ep.tags@),
        ep.yields(c, r),
    ensures
        r matches Ok(Outcome::Break(o)) && exists|a: Vec<&V>|
            injected(c, ep.tags@, a@) && #[trigger] ep.f.ensures((a,), o),
{
}

/// An endpoint run on a container that lacks one of its tags fails with a missing
/// dependency on a tag that the container lacks, and gives no answer; dispatched,
/// this is reported as a missing dependency.
pub proof fn law_missing_dependency<V, O, F: Fn(Vec<&V>) -> O>(
    ep: Endpoint<F>,
    c: Container<V>,
    r: Handled<V, O>,
    out: Result<O, DispatchError>,
)
    requires
        !all_present(c@, ep.tags@),
        ep.yields(c, r),
        settles(r, out),
    ensures
        r matches Err(e) && ep.tags@.contains(e.tag) && !c@.contains_key(e.tag),
        out matches Err(DispatchError::DependencyMissing(t)) && !c@.contains_key(t),
{
    let e = r->Err_0;
    let k = choose|k: int| crate::inject::first_missing_at(c@, ep.tags@, k) && e.tag == ep.tags@[k];
    assert(ep.tags@[k] == e.tag);
}

/// An endpoint whose obligations are all held by the container never fails with a
/// missing dependency: checking the signature before a dispatch rules that failure out.
pub proof fn law_signature_rules_out_missing<V, O, F: Fn(Vec<&V>) -> O>(
    ep: Endpoint<F>,
    c: Container<V>,
    r: Handled<V, O>,
)
    requires
        Handler::<V, O>::spec_signature(&ep).2.subset_of(c@.dom()),
        ep.yields(c, r),
    ensures
        r matches Ok(Outcome::Break(_)),
{
    assert forall|i: int| 0 <= i < ep.tags@.len() implies c@.contains_key(#[trigger] ep.tags@[i]) by {
        assert(ep.tags@.to_set().contains(ep.tags@[i]));
    }
}

/// A filter whose predicate rejects the container hands that very container on without
/// running its inner handler; one whose predicate accepts it gives exactly what the
/// inner handler gives.
pub proof fn law_filter<V, O, P: Fn(&Container<V>) -> bool, H: Handler<V, O>>(
    fl: Filter<P, H>,
    c: Container<V>,
    r: Handled<V, O>,
)
    requires
        fl.yields(c, r),
    ensures
        (forall|b: bool| fl.pred.ensures((&c,), b) ==> !b) ==> r == Handled::<V, O>::Ok(
            Outcome::Continue(c),
        ),
        (forall|b: bool| fl.pred.ensures((&c,), b) ==> b) ==> fl.inner.yields(c, r),
{
}

/// `narrow` gives back the event it cannot narrow, and `recombine` undoes a narrowing.
pub open spec fn lawful_narrowing<V, N: Fn(V) -> Result<(V, V), V>, M: Fn(V, V) -> V>(
    narrow: N,
    recombine: M,
) -> bool {
    forall|e: V, nr: Result<(V, V), V>| #[trigger] narrow.ensures((e,), nr) ==> match nr {
        Err(x) => x == e,
        Ok((n, rest)) => forall|y: V| #[trigger] recombine.ensures((n, rest), y) ==> y == e,
    }
}

/// Whenever `h` declines, the value under `t` is the one it was given.
pub open spec fn keeps<V, O, H: Handler<V, O>>(h: H, t: u64) -> bool {
    forall|c: Container<V>, d: Container<V>| #[trigger] h.yields(c, Handled::<V, O>::Ok(Outcome::Continue(d)))
        ==> d@.contains_key(t) && d@[t] == c@[t]
}

/// When the narrowing is undone by its recombination and the inner handler declines
/// without touching the narrowed value, the parser passes along the very event it was given, under its tag.
pub proof fn law_parser_round_trip<V, O, N, M, H>(p: Parser<N, M, H>, c: Container<V>, r: Handled<V, O>)
    where
        N: Fn(V) -> Result<(V, V), V>,
        M: Fn(V, V) -> V,
        H: Handler<V, O>,
    requires
        lawful_narrowing(p.narrow, p.recombine),
        keeps(p.inner, p.to),
        c@.contains_key(p.from),
        p.yields(c, r),
    ensures
        r matches Ok(Outcome::Continue(d)) ==> d@.contains_key(p.from) && d@[p.from] == c@[p.from],
{
    let nr = choose|nr: Result<(V, V), V>| #[trigger] p.narrow.ensures((c@[p.from],), nr) && match nr {
        Err(e) => r matches Ok(Outcome::Continue(d)) && d@ == c@.insert(p.from, e),
        Ok((n, rest)) => exists|c1: Container<V>, r1: Handled<V, O>|
            c1@ == c@.remove(p.from).insert(p.to, n) && #[trigger] p.inner.yields(c1, r1) && match r1 {
                Ok(Outcome::Continue(d)) => p.restores(d, rest, r),
                _ => r == r1,
            },
    };
    match nr {
        Err(e) => {},
        Ok((n, rest)) => {
            let (c1, r1) = choose|c1: Container<V>, r1: Handled<V, O>|
                c1@ == c@.remove(p.from).insert(p.to, n) && #[trigger] p.inner.yields(c1, r1) && match r1 {
                    Ok(Outcome::Continue(d)) => p.restores(d, rest, r),
                    _ => r == r1,
                };
            match r1 {
                Ok(Outcome::Continue(d)) => {
                    assert(d@[p.to] == n);
                    let y = choose|y: V| #[trigger] p.recombine.ensures((d@[p.to], rest), y)
                        && (r matches Ok(Outcome::Continue(e)) && e@ == d@.remove(p.to).insert(p.from, y));
                    assert(y == c@[p.from]);
                },
                _ => {},
            }
        },
    }
}

/// A chain gives the first handler's result when that result ends the chain, and
/// otherwise what the second handler gives on the container that the first handed on.
pub proof fn law_chain_first_break<V, O, A: Handler<V, O>, B: Handler<V, O>>(
    ch: Chain<A, B>,
    c: Container<V>,
    r: Handled<V, O>,
)
    requires
        ch.yields(c, r),
    ensures
        exists|r1: Handled<V, O>| #[trigger] ch.first.yields(c, r1) && match r1 {
            Ok(Outcome::Continue(d)) => ch.second.yields(d, r),
            _ => r == r1,
        },
{
}

/// When two handlers both answer a container, each with one answer, the chain observes
/// the answer of whichever comes first: swapping them swaps the answer.
pub proof fn law_chain_order<V, O, A: Handler<V, O>, B: Handler<V, O>>(
    ab: Chain<A, B>,
    ba: Chain<B, A>,
    c: Container<V>,
    x: O,
    y: O,
)
    requires
        ab.first == ba.second,
        ab.second == ba.first,
        forall|r: Handled<V, O>| #[trigger] ab.first.yields(c, r) ==> r == Handled::<V, O>::Ok(Outcome::Break(x)),
        forall|r: Handled<V, O>| #[trigger] ab.second.yields(c, r) ==> r == Handled::<V, O>::Ok(Outcome::Break(y)),
    ensures
        forall|r: Handled<V, O>| #[trigger] ab.yields(c, r) ==> r == Handled::<V, O>::Ok(Outcome::Break(x)),
        forall|r: Handled<V, O>| #[trigger] ba.yields(c, r) ==> r == Handled::<V, O>::Ok(Outcome::Break(y)),
{
}

} // verus!
