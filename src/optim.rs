use vstd::prelude::*;

verus! {

/// The keys after gradients for the keys `grads` were stepped from a state
/// holding `keys`: each key not yet held is appended, in the order first seen.
pub open spec fn recorded(keys: Seq<u64>, grads: Seq<u64>) -> Seq<u64>
    decreases grads.len(),
{
    if grads.len() == 0 {
        keys
    } else {
        let before = recorded(keys, grads.drop_last());
        if before.contains(grads.last()) {
            before
        } else {
            before.push(grads.last())
        }
    }
}

/// Which parameters the optimizer holds moment estimates for, keyed by the
/// parameter's identity. Entries are added the first time a parameter's
/// gradient is stepped, and never removed.
pub struct OptimizerState {
    keys: Vec<u64>,
}

impl View for OptimizerState {
    type V = Seq<u64>;

    closed spec fn view(&self) -> Seq<u64> {
        self.keys@
    }
}

impl OptimizerState {
    /// No key is held twice.
    pub open spec fn wf(&self) -> bool {
        self@.no_duplicates()
    }

    /// A state that holds no entry.
    pub fn new() -> (r: OptimizerState)
        ensures
            r@ == Seq::<u64>::empty(),
            r.wf(),
    {
        OptimizerState { keys: Vec::new() }
    }

    /// How many parameters have an entry.
    pub fn len(&self) -> (r: usize)
        ensures
            r == self@.len(),
    {
        self.keys.len()
    }

    /// Whether the parameter `key` has an entry.
    pub fn contains(&self, key: u64) -> (r: bool)
        ensures
            r == self@.contains(key),
    {
        contains_key(&self.keys, key)
    }

    /// Whether the entries are exactly the parameters `params`, no more and no
    /// fewer.
    pub fn holds_exactly(&self, params: &Vec<u64>) -> (r: bool)
        ensures
            r == (self@.to_set() == params@.to_set()),
    {
        let mut i: usize = 0;
        while i < params.len()
            invariant
                0 <= i <= params@.len(),
                forall|j: int| 0 <= j < i ==> self@.contains(#[trigger] params@[j]),
            decreases params@.len() - i,
        {
            if !self.contains(params[i]) {
                proof {
                    assert(params@.to_set().contains(params@[i as int]));
                    assert(!self@.to_set().contains(params@[i as int]));
                }
                return false;
            }
            i = i + 1;
        }
        let mut k: usize = 0;
        while k < self.keys.len()
            invariant
                0 <= k <= self@.len(),
                forall|j: int| 0 <= j < params@.len() ==> self@.contains(#[trigger] params@[j]),
                forall|j: int| 0 <= j < k ==> params@.contains(#[trigger] self@[j]),
            decreases self@.len() - k,
        {
            if !contains_key(params, self.keys[k]) {
                proof {
                    assert(self@.to_set().contains(self@[k as int]));
                    assert(!params@.to_set().contains(self@[k as int]));
                }
                return false;
            }
            k = k + 1;
        }
        proof {
            assert forall|x: u64| self@.to_set().contains(x) <==> params@.to_set().contains(x) by {
                if self@.contains(x) {
                    let j = choose|j: int| 0 <= j < self@.len() && self@[j] == x;
                    assert(params@.contains(self@[j]));
                }
                if params@.contains(x) {
                    let j = choose|j: int| 0 <= j < params@.len() && params@[j] == x;
                    assert(self@.contains(params@[j]));
                }
            }
            assert(self@.to_set() =~= params@.to_set());
        }
        true
    }

    /// The keys held, in the order they were first stepped.
    pub fn keys(&self) -> (r: Vec<u64>)
        ensures
            r@ == self@,
    {
        self.keys.clone()
    }

    /// Takes note of one optimizer step over gradients for the parameters
    /// `grads`: each of them now has an entry, and every earlier entry stays.
    pub fn record_step(&mut self, grads: &Vec<u64>)
        requires
            old(self).wf(),
        ensures
            final(self)@ == recorded(old(self)@, grads@),
            final(self).wf(),
            final(self)@.to_set() == old(self)@.to_set().union(grads@.to_set()),
            final(self)@.subrange(0, old(self)@.len() as int) == old(self)@,
    {
        let mut i: usize = 0;
        while i < grads.len()
            invariant
                0 <= i <= grads@.len(),
                self@ == recorded(old(self)@, grads@.subrange(0, i as int)),
            decreases grads@.len() - i,
        {
            let key = grads[i];
            assert(grads@.subrange(0, i as int + 1).drop_last() =~= grads@.subrange(0, i as int));
            if !self.contains(key) {
                self.keys.push(key);
            }
            i = i + 1;
        }
        assert(grads@.subrange(0, grads@.len() as int) =~= grads@);
        proof {
            lemma_recorded(old(self)@, grads@);
        }
    }
}

/// Whether `key` occurs in `keys`.
fn contains_key(keys: &Vec<u64>, key: u64) -> (r: bool)
    ensures
        r == keys@.contains(key),
{
    let mut i: usize = 0;
    while i < keys.len()
        invariant
            0 <= i <= keys@.len(),
            forall|j: int| 0 <= j < i ==> keys@[j] != key,
        decreases keys@.len() - i,
    {
        if keys[i] == key {
            return true;
        }
        i = i + 1;
    }
    false
}

/// What stepping gradients does to the held keys: none is lost or repeated,
/// the earlier ones keep their places, and exactly the gradients' keys are
/// added.
pub proof fn lemma_recorded(keys: Seq<u64>, grads: Seq<u64>)
    requires
        keys.no_duplicates(),
    ensures
        recorded(keys, grads).no_duplicates(),
        recorded(keys, grads).to_set() == keys.to_set().union(grads.to_set()),
        recorded(keys, grads).len() >= keys.len(),
        recorded(keys, grads).subrange(0, keys.len() as int) == keys,
    decreases grads.len(),
{
    if grads.len() == 0 {
        assert(grads.to_set() =~= Set::<u64>::empty());
        assert(keys.to_set().union(grads.to_set()) =~= keys.to_set());
        assert(keys.subrange(0, keys.len() as int) =~= keys);
    } else {
        let rest = grads.drop_last();
        let x = grads.last();
        lemma_recorded(keys, rest);
        let before = recorded(keys, rest);
        assert(grads =~= rest.push(x));
        rest.lemma_push_to_set_commute(x);
        assert(grads.to_set() == rest.to_set().insert(x));
        if !before.contains(x) {
            before.lemma_push_to_set_commute(x);
            assert(before.push(x).subrange(0, keys.len() as int) =~= before.subrange(
                0,
                keys.len() as int,
            ));
        } else {
            assert(before.to_set().contains(x));
        }
        assert(recorded(keys, grads).to_set() =~= keys.to_set().union(grads.to_set()));
    }
}

/// After the first optimizer step, where the gradients cover every parameter of
/// the model, the optimizer holds an entry for each parameter of the model and
/// for nothing else, once each.
pub proof fn lemma_first_step_covers_parameters(params: Seq<u64>, grads: Seq<u64>)
    requires
        grads.to_set() == params.to_set(),
    ensures
        recorded(Seq::empty(), grads).to_set() == params.to_set(),
        recorded(Seq::empty(), grads).no_duplicates(),
{
    lemma_recorded(Seq::empty(), grads);
    assert(Seq::<u64>::empty().to_set() =~= Set::empty());
    assert(Set::<u64>::empty().union(grads.to_set()) =~= grads.to_set());
}

/// The entries never shrink: every key held before a step is held after it.
pub proof fn lemma_state_grows(keys: Seq<u64>, grads: Seq<u64>, key: u64)
    requires
        keys.no_duplicates(),
        keys.contains(key),
    ensures
        recorded(keys, grads).contains(key),
{
    lemma_recorded(keys, grads);
    assert(keys.to_set().contains(key));
    assert(recorded(keys, grads).to_set().contains(key));
}

} // verus!
