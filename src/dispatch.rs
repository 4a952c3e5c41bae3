use vstd::prelude::*;
use crate::container::Container;
use crate::handler::{Handled, Handler, Outcome};

verus! {

/// Why a dispatch produced no answer.
#[derive(Debug, Clone, Copy, PartialEq, Eq, Structural)]
pub enum DispatchError {
    /// A handler needed the value of this tag, and the container held none.
    DependencyMissing(u64),
    /// Every handler declined.
    NoHandlerMatched,
}

/// What a dispatch reports for the root's result `r`.
pub open spec fn settles<V, O>(r: Handled<V, O>, out: Result<O, DispatchError>) -> bool {
    match r {
        Ok(Outcome::Break(o)) => out == Ok::<O, DispatchError>(o),
        Ok(Outcome::Continue(_)) => out == Err::<O, DispatchError>(DispatchError::NoHandlerMatched),
        Err(e) => out == Err::<O, DispatchError>(DispatchError::DependencyMissing(e.tag)),
    }
}

/// Runs `root` on `deps`: its answer, or why there is none.
pub fn dispatch<V, O, H: Handler<V, O>>(root: &H, deps: Container<V>) -> (out: Result<O, DispatchError>)
    requires
        root.ready(),
        deps.wf(),
    ensures
        exists|r: Handled<V, O>| #[trigger] root.yields(deps, r) && settles(r, out),
{
    let ghost c = deps;
    let r = root.handle(deps);
    let ghost g = r;
    let out = match r {
        Ok(Outcome::Break(o)) => Ok(o),
        Ok(Outcome::Continue(_)) => Err(DispatchError::NoHandlerMatched),
        Err(e) => Err(DispatchError::DependencyMissing(e.tag)),
    };
    assert(root.yields(c, g) && settles(g, out));
    out
}

/// Stores `event` under `tag` beside the shared values of `deps`, then runs `root`.
pub fn handle_event<V, O, H: Handler<V, O>>(root: &H, deps: Container<V>, tag: u64, event: V) -> (out:
    Result<O, DispatchError>)
    requires
        root.ready(),
        deps.wf(),
    ensures
        exists|c: Container<V>, r: Handled<V, O>|
            c.wf() && c@ == deps@.insert(tag, event) && #[trigger] root.yields(c, r) && settles(r, out),
{
    let c = deps.insert(tag, event);
    let ghost gc = c;
    let out = dispatch(root, c);
    assert(gc.wf() && gc@ == deps@.insert(tag, event));
    out
}

} // verus!
