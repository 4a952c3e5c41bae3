use vstd::prelude::*;
use vstd::seq_lib::seq_to_set_distributes_over_add;
use crate::container::Container;

verus! {

/// What a handler consumes, what it produces, and which tags it cannot do without.
pub struct Signature {
    pub input_types: Vec<u64>,
    pub output_types: Vec<u64>,
    pub obligations: Vec<u64>,
}

impl Signature {
    /// Every obligation is a tag that `c` holds.
    pub fn satisfied_by<V>(&self, c: &Container<V>) -> (r: bool)
        requires
            c.wf(),
        ensures
            r == self.obligations@.to_set().subset_of(c@.dom()),
    {
        let mut i: usize = 0;
        while i < self.obligations.len()
            invariant
                c.wf(),
                i <= self.obligations@.len(),
                forall|j: int| 0 <= j < i ==> c@.contains_key(#[trigger] self.obligations@[j]),
            decreases self.obligations@.len() - i,
        {
            if !c.contains(self.obligations[i]) {
                assert(self.obligations@.to_set().contains(self.obligations@[i as int]));
                return false;
            }
            i += 1;
        }
        proof {
            assert forall|t: u64| self.obligations@.to_set().contains(t) implies c@.contains_key(t) by {
                let k = choose|k: int| 0 <= k < self.obligations@.len() && self.obligations@[k] == t;
            }
        }
        true
    }
}

/// The tags of `a` followed by those of `b`.
fn union_tags(a: Vec<u64>, b: Vec<u64>) -> (r: Vec<u64>)
    ensures
        r@.to_set() == a@.to_set() + b@.to_set(),
{
    let mut r = a;
    let mut b = b;
    let ghost a0 = r@;
    let ghost b0 = b@;
    r.append(&mut b);
    proof {
        seq_to_set_distributes_over_add(a0, b0);
    }
    r
}

/// The tags of `a` other than `t`.
fn without_tag(a: &Vec<u64>, t: u64) -> (r: Vec<u64>)
    ensures
        r@.to_set() == a@.to_set().remove(t),
{
    let mut r: Vec<u64> = Vec::new();
    let mut i: usize = 0;
    while i < a.len()
        invariant
            i <= a@.len(),
            r@.to_set() == a@.subrange(0, i as int).to_set().remove(t),
        decreases a@.len() - i,
    {
        proof {
            a@.subrange(0, i as int).lemma_push_to_set_commute(a@[i as int]);
            assert(a@.subrange(0, i as int).push(a@[i as int]) =~= a@.subrange(0, i + 1));
        }
        if a[i] != t {
            proof {
                r@.lemma_push_to_set_commute(a[i as int]);
            }
            r.push(a[i]);
        }
        i += 1;
    }
    proof {
        assert(a@.subrange(0, a@.len() as int) =~= a@);
    }
    r
}

impl Signature {
    pub open spec fn inputs(&self) -> Set<u64> {
        self.input_types@.to_set()
    }

    pub open spec fn outputs(&self) -> Set<u64> {
        self.output_types@.to_set()
    }

    pub open spec fn required(&self) -> Set<u64> {
        self.obligations@.to_set()
    }

    /// This signature lists the sets of `d`: inputs, outputs, obligations.
    pub open spec fn describes(&self, d: (Set<u64>, Set<u64>, Set<u64>)) -> bool {
        self.inputs() == d.0 && self.outputs() == d.1 && self.required() == d.2
    }

    /// No inputs, no outputs, no obligations.
    pub fn none() -> (r: Signature)
        ensures
            r.describes((Set::empty(), Set::empty(), Set::empty())),
    {
        let r = Signature { input_types: Vec::new(), output_types: Vec::new(), obligations: Vec::new() };
        assert(r.inputs() =~= Set::empty());
        r
    }

    /// What two handlers in a chain consume, produce and need together.
    pub fn union(self, other: Signature) -> (r: Signature)
        ensures
            r.inputs() == self.inputs() + other.inputs(),
            r.outputs() == self.outputs() + other.outputs(),
            r.required() == self.required() + other.required(),
    {
        Signature {
            input_types: union_tags(self.input_types, other.input_types),
            output_types: union_tags(self.output_types, other.output_types),
            obligations: union_tags(self.obligations, other.obligations),
        }
    }

    /// The signature of a handler run behind a narrowing from `from` to `to`: the event
    /// is consumed in place of the narrowed value, which is no longer an obligation.
    pub fn narrowed(self, from: u64, to: u64) -> (r: Signature)
        ensures
            r.inputs() == self.inputs().remove(to).insert(from),
            r.outputs() == self.outputs(),
            r.required() == self.required().remove(to),
    {
        let mut input_types = without_tag(&self.input_types, to);
        proof {
            input_types@.lemma_push_to_set_commute(from);
        }
        input_types.push(from);
        Signature { input_types, output_types: self.output_types, obligations: without_tag(&self.obligations, to) }
    }
}

} // verus!
