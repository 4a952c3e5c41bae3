use vstd::prelude::*;
use crate::container::Container;
use crate::signature::Signature;
use crate::inject::{DependencyMissing, all_present, first_missing_at, inject, injected};

verus! {

/// What running a handler gives: a final answer, or the container handed on
/// to the next sibling.
pub enum Outcome<V, O> {
    Break(O),
    Continue(Container<V>),
}

/// The result of running a handler on a container.
pub type Handled<V, O> = Result<Outcome<V, O>, DependencyMissing>;

/// A step of a dispatch tree: takes a container and either answers or declines.
pub trait Handler<V, O> {
    /// The functions this handler holds may be called on any argument.
    spec fn ready(&self) -> bool;

    /// `r` is a result that running this handler on `c` may give.
    spec fn yields(&self, c: Container<V>, r: Handled<V, O>) -> bool;

    /// The tags this handler consumes, produces, and cannot do without.
    spec fn spec_signature(&self) -> (Set<u64>, Set<u64>, Set<u64>);

    fn signature(&self) -> (s: Signature)
        ensures
            s.describes(self.spec_signature()),
    ;

    fn handle(&self, c: Container<V>) -> (r: Handled<V, O>)
        requires
            self.ready(),
            c.wf(),
        ensures
            self.yields(c, r),
            r matches Ok(Outcome::Continue(d)) ==> d.wf(),
    ;
}

/// A terminal handler: injects the values stored under `tags` and answers with `f` of them.
pub struct Endpoint<F> {
    pub tags: Vec<u64>,
    pub f: F,
}

/// Builds an endpoint that calls `f` with the values stored under `tags`, in that order.
pub fn endpoint<V, O, F: Fn(Vec<&V>) -> O>(tags: Vec<u64>, f: F) -> (r: Endpoint<F>)
    ensures
        r.tags@ == tags@,
        r.f == f,
{
    Endpoint { tags, f }
}

impl<V, O, F: Fn(Vec<&V>) -> O> Handler<V, O> for Endpoint<F> {
    open spec fn ready(&self) -> bool {
        forall|a: Vec<&V>| self.f.requires((a,))
    }

    open spec fn yields(&self, c: Container<V>, r: Handled<V, O>) -> bool {
        if all_present(c@, self.tags@) {
            r matches Ok(Outcome::Break(o)) && exists|a: Vec<&V>|
                injected(c, self.tags@, a@) && #[trigger] self.f.ensures((a,), o)
        } else {
            r matches Err(e) && exists|k: int| first_missing_at(c@, self.tags@, k) && e.tag == self.tags@[k]
        }
    }

    open spec fn spec_signature(&self) -> (Set<u64>, Set<u64>, Set<u64>) {
        (self.tags@.to_set(), Set::empty(), self.tags@.to_set())
    }

    fn signature(&self) -> (s: Signature) {
        let s = Signature { input_types: self.tags.clone(), output_types: Vec::new(), obligations: self.tags.clone() };
        assert(s.outputs() =~= Set::empty());
        s
    }

    fn handle(&self, c: Container<V>) -> (r: Handled<V, O>) {
        match inject(&c, &self.tags) {
            Ok(args) => {
                let ghost a = args;
                let o = (self.f)(args);
                let r: Handled<V, O> = Ok(Outcome::Break(o));
                assert(r matches Ok(Outcome::Break(oo)) && oo == o);
                assert(injected(c, self.tags@, a@) && self.f.ensures((a,), o));
                r
            },
            Err(e) => Err(e),
        }
    }
}

/// A gate: runs `inner` only when `pred` holds of the container.
pub struct Filter<P, H> {
    pub pred: P,
    pub inner: H,
}

/// A filter waiting for the handler that it guards.
pub struct FilterBuilder<P> {
    pub pred: P,
}

/// Starts a gate that runs what follows only when `pred` accepts the container, and
/// hands the container on untouched otherwise.
pub fn filter<V, P: Fn(&Container<V>) -> bool>(pred: P) -> (r: FilterBuilder<P>)
    ensures
        r.pred == pred,
{
    FilterBuilder { pred }
}

impl<P> FilterBuilder<P> {
    /// Guards `inner`.
    pub fn chain<H>(self, inner: H) -> (r: Filter<P, H>)
        ensures
            r.pred == self.pred,
            r.inner == inner,
    {
        Filter { pred: self.pred, inner }
    }

    /// Guards an endpoint that calls `f` with the values stored under `tags`.
    pub fn end_point<V, O, F: Fn(Vec<&V>) -> O>(self, tags: Vec<u64>, f: F) -> (r: Filter<P, Endpoint<F>>)
        ensures
            r.pred == self.pred,
            r.inner.tags@ == tags@,
            r.inner.f == f,
    {
        Filter { pred: self.pred, inner: endpoint(tags, f) }
    }
}

impl<V, O, P: Fn(&Container<V>) -> bool, H: Handler<V, O>> Handler<V, O> for Filter<P, H> {
    open spec fn ready(&self) -> bool {
        &&& forall|c: Container<V>| self.pred.requires((&c,))
        &&& self.inner.ready()
    }

    open spec fn yields(&self, c: Container<V>, r: Handled<V, O>) -> bool {
        ||| self.pred.ensures((&c,), true) && self.inner.yields(c, r)
        ||| self.pred.ensures((&c,), false) && r == Handled::<V, O>::Ok(Outcome::Continue(c))
    }

    open spec fn spec_signature(&self) -> (Set<u64>, Set<u64>, Set<u64>) {
        self.inner.spec_signature()
    }

    fn signature(&self) -> (s: Signature) {
        self.inner.signature()
    }

    fn handle(&self, c: Container<V>) -> (r: Handled<V, O>) {
        if (self.pred)(&c) {
            self.inner.handle(c)
        } else {
            Ok(Outcome::Continue(c))
        }
    }
}

/// A narrowing gate: takes the event stored under `from` apart with `narrow` into a
/// narrowed value, stored under `to` while `inner` runs, and a remainder; when `inner`
/// declines, `recombine` puts the event back together under `from`.
pub struct Parser<N, M, H> {
    pub from: u64,
    pub to: u64,
    pub narrow: N,
    pub recombine: M,
    pub inner: H,
}

/// A narrowing gate waiting for the handler that it guards.
pub struct ParserBuilder<N, M> {
    pub from: u64,
    pub to: u64,
    pub narrow: N,
    pub recombine: M,
}

/// Starts a narrowing gate from the event under `from` to a narrowed value under `to`.
pub fn parser<V, N: Fn(V) -> Result<(V, V), V>, M: Fn(V, V) -> V>(
    from: u64,
    to: u64,
    narrow: N,
    recombine: M,
) -> (r: ParserBuilder<N, M>)
    ensures
        r.from == from,
        r.to == to,
        r.narrow == narrow,
        r.recombine == recombine,
{
    ParserBuilder { from, to, narrow, recombine }
}

impl<N, M> ParserBuilder<N, M> {
    /// Guards `inner`.
    pub fn chain<H>(self, inner: H) -> (r: Parser<N, M, H>)
        ensures
            r.from == self.from,
            r.to == self.to,
            r.narrow == self.narrow,
            r.recombine == self.recombine,
            r.inner == inner,
    {
        Parser { from: self.from, to: self.to, narrow: self.narrow, recombine: self.recombine, inner }
    }

    /// Guards an endpoint that calls `f` with the values stored under `tags`.
    pub fn end_point<V, O, F: Fn(Vec<&V>) -> O>(self, tags: Vec<u64>, f: F) -> (r: Parser<N, M, Endpoint<F>>)
        ensures
            r.from == self.from,
            r.to == self.to,
            r.narrow == self.narrow,
            r.recombine == self.recombine,
            r.inner.tags@ == tags@,
            r.inner.f == f,
    {
        Parser { from: self.from, to: self.to, narrow: self.narrow, recombine: self.recombine, inner: endpoint(tags, f) }
    }
}

impl<N, M, H> Parser<N, M, H> {
    /// What the parser passes along once `inner` has declined with `d`, where `rest` is the remainder of the event.
    pub open spec fn restores<V, O>(&self, d: Container<V>, rest: V, r: Handled<V, O>) -> bool
        where M: Fn(V, V) -> V
    {
        if d@.contains_key(self.to) {
            exists|y: V| #[trigger] self.recombine.ensures((d@[self.to], rest), y)
                && (r matches Ok(Outcome::Continue(e)) && e@ == d@.remove(self.to).insert(self.from, y))
        } else {
            r == Handled::<V, O>::Err(DependencyMissing { tag: self.to })
        }
    }
}

impl<V, O, N, M, H> Handler<V, O> for Parser<N, M, H> where
    N: Fn(V) -> Result<(V, V), V>,
    M: Fn(V, V) -> V,
    H: Handler<V, O>,
 {
    open spec fn ready(&self) -> bool {
        &&& forall|e: V| self.narrow.requires((e,))
        &&& forall|n: V, rest: V| self.recombine.requires((n, rest))
        &&& self.inner.ready()
    }

    open spec fn yields(&self, c: Container<V>, r: Handled<V, O>) -> bool {
        if !c@.contains_key(self.from) {
            r == Handled::<V, O>::Ok(Outcome::Continue(c))
        } else {
            exists|nr: Result<(V, V), V>| #[trigger] self.narrow.ensures((c@[self.from],), nr)
                && match nr {
                Err(e) => r matches Ok(Outcome::Continue(d)) && d@ == c@.insert(self.from, e),
                Ok((n, rest)) => exists|c1: Container<V>, r1: Handled<V, O>|
                    c1@ == c@.remove(self.from).insert(self.to, n) && #[trigger] self.inner.yields(c1, r1)
                        && match r1 {
                        Ok(Outcome::Continue(d)) => self.restores(d, rest, r),
                        _ => r == r1,
                    },
            }
        }
    }

    open spec fn spec_signature(&self) -> (Set<u64>, Set<u64>, Set<u64>) {
        let d = self.inner.spec_signature();
        (d.0.remove(self.to).insert(self.from), d.1, d.2.remove(self.to))
    }

    fn signature(&self) -> (s: Signature) {
        self.inner.signature().narrowed(self.from, self.to)
    }

    fn handle(&self, c: Container<V>) -> (r: Handled<V, O>) {
        if !c.contains(self.from) {
            return Ok(Outcome::Continue(c));
        }
        let ghost c0 = c;
        let (c1, ev) = c.remove(self.from);
        let ev = match ev {
            Some(ev) => ev,
            None => {
                return Ok(Outcome::Continue(c1));
            },
        };
        let nr = (self.narrow)(ev);
        let ghost g_nr = nr;
        match nr {
            Err(e) => {
                let d = c1.insert(self.from, e);
                assert(c0@.remove(self.from).insert(self.from, e) =~= c0@.insert(self.from, e));
                let r = Ok(Outcome::Continue(d));
                assert(self.narrow.ensures((c0@[self.from],), g_nr));
                r
            },
            Ok((n, rest)) => {
                let c2 = c1.insert(self.to, n);
                let ghost gc2 = c2;
                let r1 = self.inner.handle(c2);
                let ghost g_r1 = r1;
                let r = match r1 {
                    Ok(Outcome::Continue(d)) => {
                        let (d1, nv) = d.remove(self.to);
                        match nv {
                            None => Err(DependencyMissing { tag: self.to }),
                            Some(nv) => {
                                let y = (self.recombine)(nv, rest);
                                let r = Ok(Outcome::Continue(d1.insert(self.from, y)));
                                assert(self.recombine.ensures((d@[self.to], rest), y));
                                r
                            },
                        }
                    },
                    _ => r1,
                };
                assert(self.narrow.ensures((c0@[self.from],), g_nr));
                assert(self.inner.yields(gc2, g_r1));
                r
            },
        }
    }
}

/// A chain with no handlers: hands every container on.
pub struct Empty;

/// Two handlers in order: `second` runs on what `first` hands on.
pub struct Chain<A, B> {
    pub first: A,
    pub second: B,
}

/// Starts a chain of handlers.
pub fn node() -> (r: Empty) {
    Empty
}

impl Empty {
    /// Appends `h` to the chain.
    pub fn and<H>(self, h: H) -> (r: Chain<Empty, H>)
        ensures
            r.first == self,
            r.second == h,
    {
        Chain { first: self, second: h }
    }

    /// Ends the chain, which is itself a handler.
    pub fn build(self) -> (r: Empty)
        ensures
            r == self,
    {
        self
    }
}

impl<A, B> Chain<A, B> {
    /// Appends `h` to the chain.
    pub fn and<H>(self, h: H) -> (r: Chain<Chain<A, B>, H>)
        ensures
            r.first == self,
            r.second == h,
    {
        Chain { first: self, second: h }
    }

    /// Ends the chain, which is itself a handler.
    pub fn build(self) -> (r: Chain<A, B>)
        ensures
            r == self,
    {
        self
    }
}

impl<V, O> Handler<V, O> for Empty {
    open spec fn ready(&self) -> bool {
        true
    }

    open spec fn yields(&self, c: Container<V>, r: Handled<V, O>) -> bool {
        r == Handled::<V, O>::Ok(Outcome::Continue(c))
    }

    open spec fn spec_signature(&self) -> (Set<u64>, Set<u64>, Set<u64>) {
        (Set::empty(), Set::empty(), Set::empty())
    }

    fn signature(&self) -> (s: Signature) {
        Signature::none()
    }

    fn handle(&self, c: Container<V>) -> (r: Handled<V, O>) {
        Ok(Outcome::Continue(c))
    }
}

impl<V, O, A: Handler<V, O>, B: Handler<V, O>> Handler<V, O> for Chain<A, B> {
    open spec fn ready(&self) -> bool {
        self.first.ready() && self.second.ready()
    }

    open spec fn yields(&self, c: Container<V>, r: Handled<V, O>) -> bool {
        exists|r1: Handled<V, O>| #[trigger] self.first.yields(c, r1) && match r1 {
            Ok(Outcome::Continue(d)) => self.second.yields(d, r),
            _ => r == r1,
        }
    }

    open spec fn spec_signature(&self) -> (Set<u64>, Set<u64>, Set<u64>) {
        let a = self.first.spec_signature();
        let b = self.second.spec_signature();
        (a.0 + b.0, a.1 + b.1, a.2 + b.2)
    }

    fn signature(&self) -> (s: Signature) {
        self.first.signature().union(self.second.signature())
    }

    fn handle(&self, c: Container<V>) -> (r: Handled<V, O>) {
        let r1 = self.first.handle(c);
        match r1 {
            Ok(Outcome::Continue(d)) => {
                let ghost g1 = Ok::<Outcome<V, O>, DependencyMissing>(Outcome::Continue(d));
                let r = self.second.handle(d);
                assert(self.first.yields(c, g1));
                r
            },
            _ => r1,
        }
    }
}

} // verus!
