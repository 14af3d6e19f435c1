use vstd::prelude::*;

use crate::merge::Merge;
use crate::merge::MergeResult;
use crate::state::State;

verus! {

/// Whether every action of `actions`, applied in order starting from `s`,
/// applies successfully.
pub open spec fn seq_ok<S: State>(s: S, actions: Seq<S::Action>) -> bool
    decreases actions.len(),
{
    actions.len() == 0 || (s.apply_ok(actions[0]) && seq_ok(
        s.apply_result(actions[0]),
        actions.skip(1),
    ))
}

/// The state reached by applying every action of `actions` in order,
/// starting from `s`. Meaningful only when [`seq_ok`] holds.
pub open spec fn seq_result<S: State>(s: S, actions: Seq<S::Action>) -> S
    decreases actions.len(),
{
    if actions.len() == 0 {
        s
    } else {
        seq_result(s.apply_result(actions[0]), actions.skip(1))
    }
}

/// The length of the longest prefix of `actions` whose actions all apply
/// successfully in order, starting from `s`.
pub open spec fn ok_prefix_len<S: State>(s: S, actions: Seq<S::Action>) -> nat
    decreases actions.len(),
{
    if actions.len() == 0 || !s.apply_ok(actions[0]) {
        0
    } else {
        1 + ok_prefix_len(s.apply_result(actions[0]), actions.skip(1))
    }
}

/// Splitting a run of `x + y` at the border: the combined run succeeds
/// exactly when `x` runs from `s` and `y` runs on from where `x` ended,
/// and it ends where `y` ends.
pub proof fn lemma_seq_run_concat<S: State>(s: S, x: Seq<S::Action>, y: Seq<S::Action>)
    ensures
        seq_ok(s, x + y) <==> (seq_ok(s, x) && seq_ok(seq_result(s, x), y)),
        seq_result(s, x + y) == seq_result(seq_result(s, x), y),
    decreases x.len(),
{
    if x.len() == 0 {
        assert(x + y =~= y);
    } else {
        assert((x + y).skip(1) =~= x.skip(1) + y);
        lemma_seq_run_concat(s.apply_result(x[0]), x.skip(1), y);
    }
}

/// A run of `x.push(a)` is a run of `x` followed by one step of `a`.
pub proof fn lemma_seq_run_push<S: State>(s: S, x: Seq<S::Action>, a: S::Action)
    ensures
        seq_ok(s, x.push(a)) <==> (seq_ok(s, x) && seq_result(s, x).apply_ok(a)),
        seq_result(s, x.push(a)) == seq_result(s, x).apply_result(a),
{
    let sa = seq![a];
    assert(x.push(a) =~= x + sa);
    lemma_seq_run_concat(s, x, sa);
    assert(sa.skip(1) =~= Seq::<S::Action>::empty());
    let sr = seq_result(s, x);
    assert(seq_ok(sr, sa) == (sr.apply_ok(a) && seq_ok(sr.apply_result(a), sa.skip(1))));
    assert(seq_ok(sr.apply_result(a), sa.skip(1)));
    assert(seq_result(sr, sa) == seq_result(sr.apply_result(a), sa.skip(1)));
    assert(seq_result(sr.apply_result(a), sa.skip(1)) == sr.apply_result(a));
}

/// The longest successful prefix is pinned down by its parts: if the
/// first `i` actions run successfully and the next one (if any) fails,
/// then `i` is the longest successful prefix length.
pub proof fn lemma_ok_prefix_len_from_parts<S: State>(s: S, actions: Seq<S::Action>, i: int)
    requires
        0 <= i <= actions.len(),
        seq_ok(s, actions.take(i)),
        i < actions.len() ==> !seq_result(s, actions.take(i)).apply_ok(actions[i]),
    ensures
        ok_prefix_len(s, actions) == i,
    decreases actions.len(),
{
    if i == 0 {
        assert(actions.take(0) =~= Seq::<S::Action>::empty());
        if actions.len() > 0 {
            assert(!s.apply_ok(actions[0]));
        }
    } else {
        assert(actions.take(i)[0] == actions[0]);
        let s1 = s.apply_result(actions[0]);
        assert(actions.take(i).skip(1) =~= actions.skip(1).take(i - 1));
        assert(seq_ok(s1, actions.skip(1).take(i - 1)));
        assert(seq_result(s, actions.take(i)) == seq_result(s1, actions.skip(1).take(i - 1)));
        if i < actions.len() {
            assert(actions.skip(1)[i - 1] == actions[i]);
        }
        lemma_ok_prefix_len_from_parts(s1, actions.skip(1), i - 1);
    }
}

/// Whether one merge verdict for the pair (`previous` first, then `a`) is
/// consistent with the actual state-mutation semantics of `S`:
/// - `Merged(x)` must mean that applying `previous` then `a` has the same
///   net effect as applying `x` alone;
/// - `CancelsOut` must mean that applying `previous` then `a` has no net
///   effect;
/// - `Overwrites` must mean that the effect of `a` does not depend on the
///   state it is applied to.
pub open spec fn pair_consistent<S: State>(a: S::Action, previous: S::Action) -> bool where
    S::Action: Merge,
 {
    match a.merge_spec(previous) {
        MergeResult::Unmergable => true,
        MergeResult::Merged(x) => forall|st: S|
            {
                &&& ((#[trigger] st.apply_ok(previous) && st.apply_result(previous).apply_ok(a))
                    <==> st.apply_ok(x))
                &&& (st.apply_ok(previous) && st.apply_result(previous).apply_ok(a)
                    ==> st.apply_result(previous).apply_result(a) == st.apply_result(x))
            },
        MergeResult::CancelsOut => forall|st: S|
            (#[trigger] st.apply_ok(previous) && st.apply_result(previous).apply_ok(a))
                ==> st.apply_result(previous).apply_result(a) == st,
        MergeResult::Overwrites => forall|st1: S, st2: S|
            {
                &&& ((#[trigger] st1.apply_ok(a)) <==> (#[trigger] st2.apply_ok(a)))
                &&& (st1.apply_ok(a) && st2.apply_ok(a) ==> st1.apply_result(a)
                    == st2.apply_result(a))
            },
    }
}

/// Whether the merge relation of `S::Action` is consistent with the
/// state-mutation semantics of `S` on every pair of actions.
pub open spec fn merge_consistent<S: State>() -> bool where S::Action: Merge {
    forall|a: S::Action, previous: S::Action| #[trigger] pair_consistent::<S>(a, previous)
}

/// Whether the action sequence `x` can stand in for the action sequence
/// `y`: from any starting state from which `y` runs successfully, `x` runs
/// successfully too and ends in the same state.
pub open spec fn replays_as<S: State>(x: Seq<S::Action>, y: Seq<S::Action>) -> bool {
    forall|st: S|
        #[trigger] seq_ok(st, y) ==> seq_ok(st, x) && seq_result(st, x) == seq_result(st, y)
}

} // verus!
