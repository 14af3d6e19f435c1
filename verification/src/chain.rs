use vstd::prelude::*;

use crate::merge::Merge;
use crate::merge::MergeResult;
use crate::semantics::merge_consistent;
use crate::semantics::pair_consistent;
use crate::semantics::replays_as;
use crate::semantics::lemma_seq_run_push;
use crate::semantics::seq_ok;
use crate::semantics::seq_result;
use crate::state::State;

verus! {

/// One step of the compression pass: fold the next action `a` into the
/// output accumulated so far.
///
/// With a non-empty output, `a` is compared against the last emitted
/// action: `Unmergable` appends `a`, `Merged` replaces the last emitted
/// action with the merged one, `CancelsOut` removes it, and `Overwrites`
/// discards the whole output and restarts it with `a` alone.
pub open spec fn compress_step<A: Merge>(out: Seq<A>, a: A) -> Seq<A> {
    if out.len() == 0 {
        out.push(a)
    } else {
        match a.merge_spec(out.last()) {
            MergeResult::Unmergable => out.push(a),
            MergeResult::CancelsOut => out.drop_last(),
            MergeResult::Overwrites => seq![a],
            MergeResult::Merged(x) => out.drop_last().push(x),
        }
    }
}

/// The output of the single left-to-right compression pass over `actions`,
/// starting from an empty output.
pub open spec fn compress_fold<A: Merge>(actions: Seq<A>) -> Seq<A>
    decreases actions.len(),
{
    if actions.len() == 0 {
        Seq::empty()
    } else {
        compress_step(compress_fold(actions.drop_last()), actions.last())
    }
}

/// What compression does to a chain of actions: a chain of zero or one
/// actions is already maximally compressed and is left unchanged; a longer
/// chain is replaced by the output of the single pass.
pub open spec fn spec_compress<A: Merge>(actions: Seq<A>) -> Seq<A> {
    if actions.len() <= 1 {
        actions
    } else {
        compress_fold(actions)
    }
}

/// One step of the compression pass preserves the replayed effect: if the
/// output so far can stand in for the actions already read, then the
/// output after folding in one more action can stand in for them plus
/// that action.
proof fn lemma_compress_step_replays<S: State>(
    out: Seq<S::Action>,
    prefix: Seq<S::Action>,
    a: S::Action,
) where S::Action: Merge
    requires
        merge_consistent::<S>(),
        replays_as::<S>(out, prefix),
    ensures
        replays_as::<S>(compress_step(out, a), prefix.push(a)),
{
    let res = compress_step(out, a);
    let pa = prefix.push(a);
    assert forall|st: S| #[trigger] seq_ok(st, pa) implies seq_ok(st, res) && seq_result(st, res)
        == seq_result(st, pa) by {
        lemma_seq_run_push(st, prefix, a);
        assert(seq_ok(st, prefix));
        let sigma = seq_result(st, prefix);
        assert(seq_ok(st, out) && seq_result(st, out) == sigma);
        if out.len() == 0 {
            lemma_seq_run_push(st, out, a);
        } else {
            let p = out.last();
            let out0 = out.drop_last();
            assert(out0.push(p) =~= out);
            lemma_seq_run_push(st, out0, p);
            let tau = seq_result(st, out0);
            assert(pair_consistent::<S>(a, p));
            match a.merge_spec(p) {
                MergeResult::Unmergable => {
                    lemma_seq_run_push(st, out, a);
                },
                MergeResult::Merged(x) => {
                    assert(tau.apply_ok(p));
                    assert(tau.apply_ok(x) && tau.apply_result(x) == sigma.apply_result(a));
                    lemma_seq_run_push(st, out0, x);
                },
                MergeResult::CancelsOut => {
                    assert(tau.apply_ok(p));
                    assert(tau.apply_result(p).apply_result(a) == tau);
                },
                MergeResult::Overwrites => {
                    assert(st.apply_ok(a) <==> sigma.apply_ok(a));
                    assert(st.apply_ok(a) && st.apply_result(a) == sigma.apply_result(a));
                    lemma_seq_run_push(st, Seq::empty(), a);
                    assert(Seq::<S::Action>::empty().push(a) =~= seq![a]);
                },
            }
        }
    };
}

/// The single compression pass preserves the replayed effect of the whole
/// sequence read so far.
proof fn lemma_compress_fold_replays<S: State>(actions: Seq<S::Action>) where S::Action: Merge
    requires
        merge_consistent::<S>(),
    ensures
        replays_as::<S>(compress_fold(actions), actions),
    decreases actions.len(),
{
    if actions.len() == 0 {
        assert forall|st: S| #[trigger] seq_ok(st, actions) implies seq_ok(
            st,
            compress_fold(actions),
        ) && seq_result(st, compress_fold(actions)) == seq_result(st, actions) by {
            assert(compress_fold(actions) == Seq::<S::Action>::empty());
        };
    } else {
        let front = actions.drop_last();
        lemma_compress_fold_replays::<S>(front);
        lemma_compress_step_replays::<S>(compress_fold(front), front, actions.last());
        assert(front.push(actions.last()) =~= actions);
    }
}

/// Compression preserves effect: for a merge relation that is consistent
/// with the state-mutation semantics of `S`, applying the compressed form
/// of a chain of actions to any state from which the original chain runs
/// successfully succeeds as well and yields the same final state.
pub proof fn lemma_compress_preserves_effect<S: State>(actions: Seq<S::Action>) where
    S::Action: Merge,
    requires
        merge_consistent::<S>(),
    ensures
        replays_as::<S>(spec_compress(actions), actions),
{
    if actions.len() <= 1 {
        assert(replays_as::<S>(actions, actions));
    } else {
        lemma_compress_fold_replays::<S>(actions);
    }
}

/// A 'chain' of actions.
///
/// Represents a number of consecutive actions.
#[derive(Clone, Debug)]
pub struct Chain<Action> where Action: Clone {
    chain: Vec<Action>,
}

impl<A: Clone> View for Chain<A> {
    type V = Seq<A>;

    closed spec fn view(&self) -> Seq<A> {
        self.chain@
    }
}

impl<A: Clone> Chain<A> {
    /// Return the underlying vector of actions.
    pub fn actions(&self) -> (r: &[A])
        ensures
            r@ == self@,
    {
        self.chain.as_slice()
    }

    /// Compress the chain.
    ///
    /// Executing the compressed chain should result in the exact
    /// same mutation of the data as the original chain
    /// (see [`lemma_compress_preserves_effect`]).
    ///
    /// The pass is single and greedy: each action is compared against the
    /// immediately preceding emitted action only, so a chain that would
    /// need cascading re-merges may not reach its minimal form in one
    /// call. Calling `compress` repeatedly approaches a fixed point.
    pub fn compress(&mut self) where A: Merge
        ensures
            final(self)@ == spec_compress(old(self)@),
            old(self)@.len() <= 1 ==> final(self)@ == old(self)@,
    {
        let ghost acts = self.chain@;
        if self.chain.len() <= 1 {
            return ;
        }
        let mut rev: Vec<A> = Vec::new();
        while self.chain.len() > 0
            invariant
                rev@.len() + self.chain@.len() == acts.len(),
                self.chain@ == acts.take(self.chain@.len() as int),
                forall|j: int| 0 <= j < rev@.len() ==> rev@[j] == acts[acts.len() - 1 - j],
            decreases self.chain.len(),
        {
            let a = self.chain.pop().unwrap();
            rev.push(a);
            proof {
                assert(self.chain@ =~= acts.take(self.chain@.len() as int));
            }
        }
        let mut out: Vec<A> = Vec::new();
        while rev.len() > 0
            invariant
                rev@.len() <= acts.len(),
                forall|j: int| 0 <= j < rev@.len() ==> rev@[j] == acts[acts.len() - 1 - j],
                out@ == compress_fold(acts.take(acts.len() - rev@.len())),
            decreases rev.len(),
        {
            let ghost i = acts.len() - rev@.len();
            let a = rev.pop().unwrap();
            proof {
                assert(a == acts[i]);
                assert(acts.take(i + 1).drop_last() =~= acts.take(i));
                assert(acts.take(i + 1).last() == acts[i]);
            }
            if out.len() == 0 {
                out.push(a);
            } else {
                let m = a.merge(&out[out.len() - 1]);
                proof {
                    assert(out@[out@.len() - 1] == out@.last());
                }
                match m {
                    MergeResult::Unmergable => {
                        out.push(a);
                    },
                    MergeResult::CancelsOut => {
                        out.pop();
                        proof {
                            assert(out@ =~= compress_fold(acts.take(i + 1)));
                        }
                    },
                    MergeResult::Overwrites => {
                        out.clear();
                        out.push(a);
                        proof {
                            assert(out@ =~= compress_fold(acts.take(i + 1)));
                        }
                    },
                    MergeResult::Merged(x) => {
                        out.pop();
                        out.push(x);
                        proof {
                            assert(out@ =~= compress_fold(acts.take(i + 1)));
                        }
                    },
                }
            }
        }
        proof {
            assert(acts.take(acts.len() as int) =~= acts);
        }
        self.chain = out;
    }

    /// Return a new empty chain of actions.
    pub fn new() -> (r: Self)
        ensures
            r@ == Seq::<A>::empty(),
    {
        Self { chain: Vec::new() }
    }

    /// Return a new empty chain of actions with a specific capacity.
    pub fn with_capacity(capacity: usize) -> (r: Self)
        ensures
            r@ == Seq::<A>::empty(),
    {
        Self { chain: Vec::with_capacity(capacity) }
    }

    /// Add an action to the chain.
    ///
    /// The action will always be added to the back of the chain.
    pub fn push(&mut self, action: A)
        ensures
            final(self)@ == old(self)@.push(action),
    {
        self.chain.push(action);
    }

    /// Return the length of the chain (the number of actions it contains).
    pub fn len(&self) -> (r: usize)
        ensures
            r == self@.len(),
    {
        self.chain.len()
    }

    /// Clear the chain.
    ///
    /// This will remove any action currently in the chain.
    /// After calling this function, the length of the chain will equal 0.
    pub fn clear(&mut self)
        ensures
            final(self)@ == Seq::<A>::empty(),
    {
        self.chain.clear()
    }

    /// Consume the chain and return the vector of its actions.
    pub fn into_actions(self) -> (r: Vec<A>)
        ensures
            r@ == self@,
    {
        self.chain
    }
}

impl<A: Clone> From<Vec<A>> for Chain<A> {
    /// Build a chain holding the actions of `vec`, in order.
    fn from(vec: Vec<A>) -> (r: Self)
        ensures
            r@ == vec@,
    {
        Self { chain: vec }
    }
}

impl<A: Clone> vstd::std_specs::convert::FromSpecImpl<Vec<A>> for Chain<A> {
    closed spec fn obeys_from_spec() -> bool {
        true
    }

    closed spec fn from_spec(vec: Vec<A>) -> Self {
        Chain { chain: vec }
    }
}

} // verus!
