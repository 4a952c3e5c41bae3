use vstd::prelude::*;
use crate::container::Container;

verus! {

/// A handler asked for a tag that the container does not hold.
#[derive(Debug, Clone, Copy, PartialEq, Eq, Structural)]
pub struct DependencyMissing {
    pub tag: u64,
}

/// Every tag of `tags` is held by `m`.
pub open spec fn all_present<V>(m: Map<u64, V>, tags: Seq<u64>) -> bool {
    forall|i: int| 0 <= i < tags.len() ==> m.contains_key(#[trigger] tags[i])
}

/// `tags[k]` is the first tag of `tags` that `m` does not hold.
pub open spec fn first_missing_at<V>(m: Map<u64, V>, tags: Seq<u64>, k: int) -> bool {
    &&& 0 <= k < tags.len()
    &&& !m.contains_key(tags[k])
    &&& forall|j: int| 0 <= j < k ==> m.contains_key(#[trigger] tags[j])
}

/// `args` holds, in order, the values that `c` stores under `tags`.
pub open spec fn injected<V>(c: Container<V>, tags: Seq<u64>, args: Seq<&V>) -> bool {
    &&& args.len() == tags.len()
    &&& forall|i: int| 0 <= i < tags.len() ==> *args[i] == c@[#[trigger] tags[i]]
}

/// Takes from `c`, in the order of `tags`, the value stored under each tag; fails
/// on the first tag that `c` does not hold.
pub fn inject<'a, V>(c: &'a Container<V>, tags: &Vec<u64>) -> (r: Result<Vec<&'a V>, DependencyMissing>)
    requires
        c.wf(),
    ensures
        r is Ok <==> all_present(c@, tags@),
        r matches Ok(args) ==> injected(*c, tags@, args@),
        r matches Err(e) ==> exists|k: int| first_missing_at(c@, tags@, k) && e.tag == tags@[k],
{
    let mut args: Vec<&V> = Vec::new();
    let mut i: usize = 0;
    while i < tags.len()
        invariant
            c.wf(),
            i <= tags@.len(),
            args@.len() == i,
            forall|j: int| 0 <= j < i ==> c@.contains_key(#[trigger] tags@[j]),
            forall|j: int| 0 <= j < i ==> *args@[j] == c@[#[trigger] tags@[j]],
        decreases tags@.len() - i,
    {
        match c.get(tags[i]) {
            Some(v) => {
                args.push(v);
            },
            None => {
                assert(first_missing_at(c@, tags@, i as int));
                assert(!all_present(c@, tags@));
                return Err(DependencyMissing { tag: tags[i] });
            },
        }
        i += 1;
    }
    Ok(args)
}

} // verus!
