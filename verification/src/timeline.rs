use vstd::prelude::*;

use crate::chain::Chain;
use crate::semantics::lemma_ok_prefix_len_from_parts;
use crate::semantics::lemma_seq_run_push;
use crate::semantics::ok_prefix_len;
use crate::semantics::seq_ok;
use crate::semantics::seq_result;
use crate::state::InverseResult;
use crate::state::State;

verus! {

/// The stored undo mechanism for one history entry: either a full snapshot
/// of the state taken before the action was applied, or an action that
/// reverses the applied action.
enum Breadcrumb<S: State> {
    FullCopy(Box<S>),
    Action(S::Action),
}

/// Whether `crumb` correctly restores the state `before` from the state
/// `after`.
spec fn crumb_ok<S: State>(crumb: Breadcrumb<S>, before: S, after: S) -> bool {
    match crumb {
        Breadcrumb::FullCopy(saved) => *saved == before,
        Breadcrumb::Action(inv) => after.apply_ok(inv) && after.apply_result(inv) == before,
    }
}

/// The mathematical content of a [`Timeline`]: the sequence of states the
/// timeline has moved through, the recorded actions, and the cursor.
///
/// `states[0]` is the state from before the first recorded action and
/// `states[i + 1]` the state that applying `actions[i]` to `states[i]`
/// led to; `cursor` is the boundary between the applied "past" entries
/// (which undo walks back through) and the "future" entries that redo can
/// replay. The current state of the timeline is `states[cursor]`.
#[verifier::ext_equal]
pub struct TimelineModel<S: State> {
    /// The states the timeline has moved through, oldest first.
    pub states: Seq<S>,
    /// The recorded actions; `actions[i]` led from `states[i]` to
    /// `states[i + 1]`.
    pub actions: Seq<S::Action>,
    /// How many of the recorded actions are applied in the current state.
    pub cursor: nat,
}

impl<S: State> TimelineModel<S> {
    /// The model is internally consistent: one more state than actions,
    /// the cursor inside the history, and each recorded action leading
    /// from the state before it to the state after it.
    pub open spec fn wf(self) -> bool {
        &&& self.states.len() == self.actions.len() + 1
        &&& self.cursor <= self.actions.len()
        &&& forall|i: int|
            0 <= i < self.actions.len() ==> (#[trigger] self.states[i].apply_ok(self.actions[i])
                && self.states[i].apply_result(self.actions[i]) == self.states[i + 1])
    }

    /// The model of a freshly created timeline wrapping `state`.
    pub open spec fn init(state: S) -> Self {
        TimelineModel { states: seq![state], actions: Seq::empty(), cursor: 0 }
    }

    /// The current state.
    pub open spec fn current(self) -> S {
        self.states[self.cursor as int]
    }

    /// The number of undo steps that can be performed.
    pub open spec fn undos_remaining(self) -> nat {
        self.cursor
    }

    /// The number of redo steps that can be performed.
    pub open spec fn redos_remaining(self) -> nat {
        (self.actions.len() - self.cursor) as nat
    }

    /// Whether `action` applies successfully to the current state.
    pub open spec fn can_apply(self, action: S::Action) -> bool {
        self.current().apply_ok(action)
    }

    /// The model after successfully applying `action`: any "future" beyond
    /// the cursor is discarded, the action and the state it leads to are
    /// recorded, and the cursor advances by one.
    pub open spec fn apply(self, action: S::Action) -> Self {
        TimelineModel {
            states: self.states.take(self.cursor as int + 1).push(
                self.current().apply_result(action),
            ),
            actions: self.actions.take(self.cursor as int).push(action),
            cursor: self.cursor + 1,
        }
    }

    /// The model after successfully applying each action of `acts` in
    /// order.
    pub open spec fn apply_all(self, acts: Seq<S::Action>) -> Self
        decreases acts.len(),
    {
        if acts.len() == 0 {
            self
        } else {
            self.apply(acts[0]).apply_all(acts.skip(1))
        }
    }

    /// The model after one undo: only the cursor moves back; the history
    /// keeps its contents.
    pub open spec fn undo(self) -> Self {
        TimelineModel { cursor: (self.cursor - 1) as nat, ..self }
    }

    /// The model after `n` undos in a row.
    pub open spec fn undo_all(self, n: nat) -> Self
        decreases n,
    {
        if n == 0 {
            self
        } else {
            self.undo().undo_all((n - 1) as nat)
        }
    }

    /// The model after one redo: only the cursor moves forward again.
    pub open spec fn redo(self) -> Self {
        TimelineModel { cursor: self.cursor + 1, ..self }
    }
}

/// One successful apply keeps the model consistent: the cursor advances
/// by one onto the newly recorded state, every state up to the old cursor
/// is kept, and no redos remain.
proof fn lemma_apply_facts<S: State>(m: TimelineModel<S>, a: S::Action)
    requires
        m.wf(),
        m.can_apply(a),
    ensures
        m.apply(a).wf(),
        m.apply(a).cursor == m.cursor + 1,
        m.apply(a).current() == m.current().apply_result(a),
        m.apply(a).redos_remaining() == 0,
        forall|j: int| 0 <= j <= m.cursor ==> m.apply(a).states[j] == m.states[j],
{
    let m2 = m.apply(a);
    assert forall|i: int|
        0 <= i < m2.actions.len() implies (#[trigger] m2.states[i].apply_ok(m2.actions[i])
        && m2.states[i].apply_result(m2.actions[i]) == m2.states[i + 1]) by {
        if i < m.cursor {
            assert(m.states[i].apply_ok(m.actions[i]));
        }
    };
}

/// Successively applying every action of a successful run keeps the model
/// consistent, moves the cursor up by the run's length onto the run's
/// final state, keeps every state up to the old cursor, and (for a
/// non-empty run) leaves no redos.
proof fn lemma_apply_all_facts<S: State>(m: TimelineModel<S>, acts: Seq<S::Action>)
    requires
        m.wf(),
        seq_ok(m.current(), acts),
    ensures
        m.apply_all(acts).wf(),
        m.apply_all(acts).cursor == m.cursor + acts.len(),
        m.apply_all(acts).current() == seq_result(m.current(), acts),
        forall|j: int| 0 <= j <= m.cursor ==> m.apply_all(acts).states[j] == m.states[j],
        acts.len() > 0 ==> m.apply_all(acts).redos_remaining() == 0,
    decreases acts.len(),
{
    if acts.len() > 0 {
        lemma_apply_facts(m, acts[0]);
        lemma_apply_all_facts(m.apply(acts[0]), acts.skip(1));
    }
}

/// Applying one more action at the end of a run is one more apply after
/// the run.
proof fn lemma_apply_all_push<S: State>(m: TimelineModel<S>, acts: Seq<S::Action>, a: S::Action)
    ensures
        m.apply_all(acts.push(a)) == m.apply_all(acts).apply(a),
    decreases acts.len(),
{
    if acts.len() == 0 {
        assert(acts.push(a)[0] == a);
        assert(acts.push(a).skip(1) =~= Seq::<S::Action>::empty());
        assert(m.apply(a).apply_all(acts.push(a).skip(1)) == m.apply(a));
    } else {
        assert(acts.push(a)[0] == acts[0]);
        assert(acts.push(a).skip(1) =~= acts.skip(1).push(a));
        lemma_apply_all_push(m.apply(acts[0]), acts.skip(1), a);
    }
}

/// Undoing `n` times only moves the cursor back by `n`; the history and
/// its states are untouched.
proof fn lemma_undo_all_facts<S: State>(m: TimelineModel<S>, n: nat)
    requires
        n <= m.cursor,
    ensures
        m.undo_all(n).cursor == m.cursor - n,
        m.undo_all(n).states == m.states,
        m.undo_all(n).actions == m.actions,
    decreases n,
{
    if n > 0 {
        lemma_undo_all_facts(m.undo(), (n - 1) as nat);
    }
}

/// Undo round-trip: after any run of successfully applied actions,
/// undoing as many times as there were actions returns the current state
/// to its value from before the run.
pub proof fn lemma_undo_round_trip<S: State>(m: TimelineModel<S>, acts: Seq<S::Action>)
    requires
        m.wf(),
        seq_ok(m.current(), acts),
    ensures
        m.apply_all(acts).undo_all(acts.len()).current() == m.current(),
{
    lemma_apply_all_facts(m, acts);
    lemma_undo_all_facts(m.apply_all(acts), acts.len());
}

/// Undo/redo round-trip: after applying an action, undoing it and
/// redoing it leads back to the model from right after the apply.
pub proof fn lemma_undo_redo_round_trip<S: State>(m: TimelineModel<S>, a: S::Action)
    requires
        m.wf(),
        m.can_apply(a),
    ensures
        m.apply(a).undo().redo() == m.apply(a),
{
    assert(m.apply(a).undo().redo() =~= m.apply(a));
}

/// Cursor bookkeeping: after a run of successfully applied actions on a
/// fresh timeline, with no undos in between, the number of remaining
/// undos is the run's length and no redos remain.
pub proof fn lemma_cursor_bookkeeping<S: State>(state: S, acts: Seq<S::Action>)
    requires
        seq_ok(state, acts),
    ensures
        TimelineModel::init(state).apply_all(acts).undos_remaining() == acts.len(),
        TimelineModel::init(state).apply_all(acts).redos_remaining() == 0,
{
    lemma_apply_all_facts(TimelineModel::init(state), acts);
}

/// The `Timeline` wraps around a `State` and makes it accessible by using
/// actions only.
///
/// It stores a history of actions, so that actions can be easily undone or
/// redone.
///
/// It is **highly recommended** to implement `fn inverse(&self, action)`
/// on the state. If the inverse function is not implemented, the Timeline
/// will create a full duplicate of the state *on the heap* before every
/// action.
pub struct Timeline<S: State> {
    timeline: Vec<(S::Action, Breadcrumb<S>)>,
    available_undos: usize,
    current_state: S,
    history_states: Ghost<Seq<S>>,
}

/// An error type that is returned by the timeline operations.
#[derive(Debug)]
pub enum TimelineError<E> {
    /// Undo was requested while no action was left to undo.
    NothingToUndo,
    /// Redo was requested while no action was left to redo.
    NothingToRedo,
    /// The wrapped state's `apply` returned an error, which is carried
    /// here.
    ApplyError(E),
}

impl<S: State> View for Timeline<S> {
    type V = TimelineModel<S>;

    closed spec fn view(&self) -> TimelineModel<S> {
        TimelineModel {
            states: self.history_states@,
            actions: Seq::new(self.timeline@.len(), |i: int| self.timeline@[i].0),
            cursor: self.available_undos as nat,
        }
    }
}

impl<S: State> Timeline<S> {
    /// The timeline's internal well-formedness: its model is consistent,
    /// the owned state is the model's current state, and every recorded
    /// breadcrumb restores the state from before its action.
    pub closed spec fn inv(self) -> bool {
        &&& self@.wf()
        &&& self.history_states@.len() == self.timeline@.len() + 1
        &&& self.available_undos <= self.timeline@.len()
        &&& self.current_state == self.history_states@[self.available_undos as int]
        &&& forall|i: int|
            0 <= i < self.timeline@.len() ==> crumb_ok(
                (#[trigger] self.timeline@[i]).1,
                self.history_states@[i],
                self.history_states@[i + 1],
            )
    }

    /// Create a new `Timeline` which wraps around an *item*.
    ///
    /// # Arguments
    ///
    /// - state: A datastructure containing the state.
    pub fn new(state: S) -> (t: Self)
        ensures
            t.inv(),
            t@ == TimelineModel::init(state),
    {
        let ghost s0 = state;
        let ghost hs = seq![s0];
        let t = Timeline {
            timeline: Vec::new(),
            available_undos: 0,
            current_state: state,
            history_states: Ghost(hs),
        };
        proof {
            assert(t@ =~= TimelineModel::init(s0));
        }
        t
    }

    /// Get a reference to the current state.
    ///
    /// Can be useful to inspect state.
    pub fn current_state(&self) -> (r: &S)
        requires
            self.inv(),
        ensures
            *r == self@.current(),
    {
        &self.current_state
    }

    /// Apply an action.
    ///
    /// The state is asked for the action's inverse strictly before the
    /// action mutates it; the inverse — or, where the state declines, a
    /// full snapshot — is recorded as the entry's breadcrumb. On success
    /// any previously undone "future" entries are discarded, so no redos
    /// remain. On failure the error is returned wrapped and the timeline
    /// is left unchanged.
    pub fn apply(&mut self, action: S::Action) -> (r: Result<(), TimelineError<S::Error>>)
        requires
            old(self).inv(),
        ensures
            final(self).inv(),
            r is Ok <==> old(self)@.can_apply(action),
            r is Ok ==> final(self)@ == old(self)@.apply(action),
            r is Ok ==> final(self)@.redos_remaining() == 0,
            r is Err ==> final(self)@ == old(self)@ && (r matches Err(
                TimelineError::ApplyError(_),
            )),
    {
        let ghost pre = *self;
        let crumb = match self.current_state.inverse(&action) {
            InverseResult::Action(inverse) => Breadcrumb::Action(inverse),
            InverseResult::FullCopyRequired => Breadcrumb::FullCopy(
                Box::new(self.current_state.snapshot()),
            ),
        };
        match self.current_state.apply(&action) {
            Ok(()) => {
                if self.timeline.len() > self.available_undos {
                    self.timeline.truncate(self.available_undos);
                }
                self.timeline.push((action, crumb));
                let ghost hs = pre.history_states@.take(pre.available_undos as int + 1).push(
                    self.current_state,
                );
                self.history_states = Ghost(hs);
                self.available_undos = self.timeline.len();
                proof {
                    assert(self.timeline@ =~= pre.timeline@.take(pre.available_undos as int).push(
                        (action, crumb),
                    ));
                    assert(self@.actions =~= pre@.actions.take(pre.available_undos as int).push(
                        action,
                    ));
                    assert(self@ =~= pre@.apply(action));
                    assert forall|i: int|
                        0 <= i < self@.actions.len() implies (#[trigger] self@.states[i].apply_ok(
                        self@.actions[i],
                    ) && self@.states[i].apply_result(self@.actions[i]) == self@.states[i + 1]) by {
                        if i < pre.available_undos {
                            assert(pre@.states[i].apply_ok(pre@.actions[i]));
                        }
                    };
                    assert(self@.wf());
                    assert forall|i: int| 0 <= i < self.timeline@.len() implies crumb_ok(
                        (#[trigger] self.timeline@[i]).1,
                        self.history_states@[i],
                        self.history_states@[i + 1],
                    ) by {
                        if i < pre.available_undos {
                            assert(crumb_ok(
                                pre.timeline@[i].1,
                                pre.history_states@[i],
                                pre.history_states@[i + 1],
                            ));
                        }
                    };
                    assert(self.inv());
                }
                Ok(())
            },
            Err(e) => {
                proof {
                    assert(self@ =~= pre@);
                    assert(self.inv());
                }
                Err(TimelineError::ApplyError(e))
            },
        }
    }

    /// Apply a chain of commands.
    ///
    /// Each action is applied in the chain's order; the first failure
    /// aborts the loop and returns its error. Application is intentionally
    /// not transactional: the actions before the failure remain applied
    /// and recorded, and the caller decides whether to undo that prefix.
    ///
    /// Undoing undoes the actions in the chain one by one.
    ///
    /// # Return
    /// A result containing either an empty `Ok` or an error.
    #[verifier::loop_isolation(false)]
    pub fn apply_chain(&mut self, chain: Chain<S::Action>) -> (r: Result<
        (),
        TimelineError<S::Error>,
    >) where S::Action: Clone
        requires
            old(self).inv(),
        ensures
            final(self).inv(),
            final(self)@ == old(self)@.apply_all(
                chain@.take(ok_prefix_len(old(self)@.current(), chain@) as int),
            ),
            r is Ok <==> ok_prefix_len(old(self)@.current(), chain@) == chain@.len(),
            r is Err ==> (r matches Err(TimelineError::ApplyError(_))),
    {
        let ghost pre = *self;
        let ghost acts = chain@;
        let mut rest = chain.into_actions();
        proof {
            assert(acts.take(acts.len() as int) =~= acts);
        }
        let mut rev: Vec<S::Action> = Vec::new();
        while rest.len() > 0
            invariant
                rev@.len() + rest@.len() == acts.len(),
                rest@ == acts.take(rest@.len() as int),
                forall|j: int| 0 <= j < rev@.len() ==> rev@[j] == acts[acts.len() - 1 - j],
            decreases rest.len(),
        {
            let a = rest.pop().unwrap();
            rev.push(a);
            proof {
                assert(rest@ =~= acts.take(rest@.len() as int));
            }
        }
        proof {
            assert(acts.take(0) =~= Seq::<S::Action>::empty());
        }
        while rev.len() > 0
            invariant
                self.inv(),
                pre@.wf(),
                rev@.len() <= acts.len(),
                forall|j: int| 0 <= j < rev@.len() ==> rev@[j] == acts[acts.len() - 1 - j],
                seq_ok(pre@.current(), acts.take(acts.len() - rev@.len())),
                self@ == pre@.apply_all(acts.take(acts.len() - rev@.len())),
            decreases rev.len(),
        {
            let ghost i = acts.len() - rev@.len();
            let a = rev.pop().unwrap();
            proof {
                assert(a == acts[i]);
                lemma_apply_all_facts(pre@, acts.take(i));
            }
            match self.apply(a) {
                Ok(()) => {
                    proof {
                        lemma_seq_run_push(pre@.current(), acts.take(i), acts[i]);
                        assert(acts.take(i).push(acts[i]) =~= acts.take(i + 1));
                        lemma_apply_all_push(pre@, acts.take(i), acts[i]);
                    }
                },
                Err(e) => {
                    proof {
                        lemma_ok_prefix_len_from_parts(pre@.current(), acts, i);
                    }
                    return Err(e);
                },
            }
        }
        proof {
            lemma_ok_prefix_len_from_parts(pre@.current(), acts, acts.len() as int);
        }
        Ok(())
    }

    /// Go one step back in history.
    ///
    /// The breadcrumb recorded for the entry just before the cursor is
    /// replayed: a stored inverse action is applied to the state, a stored
    /// snapshot replaces the state wholesale. The history entry itself is
    /// kept, so that the step remains available for redo.
    ///
    /// # Return
    /// A result containing either an empty `Ok` or an error if
    /// there are no actions left to undo.
    pub fn undo(&mut self) -> (r: Result<(), TimelineError<S::Error>>)
        requires
            old(self).inv(),
        ensures
            final(self).inv(),
            r is Ok <==> old(self)@.undos_remaining() > 0,
            r is Ok ==> final(self)@ == old(self)@.undo(),
            r is Err ==> final(self)@ == old(self)@ && r == Err::<(), TimelineError<S::Error>>(
                TimelineError::NothingToUndo,
            ),
    {
        let ghost pre = *self;
        if self.available_undos == 0 {
            return Err(TimelineError::NothingToUndo);
        }
        let idx = self.available_undos - 1;
        proof {
            assert(crumb_ok(
                pre.timeline@[idx as int].1,
                pre.history_states@[idx as int],
                pre.history_states@[idx as int + 1],
            ));
        }
        match &self.timeline[idx].1 {
            Breadcrumb::Action(inverse) => {
                // A failure here would be surfaced, not swallowed; the
                // breadcrumb invariant guarantees that a recorded inverse
                // applies successfully, so this apply cannot fail.
                match self.current_state.apply(inverse) {
                    Ok(()) => (),
                    Err(e) => {
                        return Err(TimelineError::ApplyError(e));
                    },
                }
            },
            Breadcrumb::FullCopy(saved) => {
                self.current_state = saved.snapshot();
            },
        }
        self.available_undos = idx;
        proof {
            assert(self@ =~= pre@.undo());
        }
        Ok(())
    }

    /// Go one step forward in history.
    ///
    /// The original forward action stored at the cursor's position is
    /// re-applied to the state, and the cursor advances by one.
    ///
    /// # Return
    /// A result containing either an empty `Ok` or an error if
    /// there are no actions left to redo.
    pub fn redo(&mut self) -> (r: Result<(), TimelineError<S::Error>>)
        requires
            old(self).inv(),
        ensures
            final(self).inv(),
            r is Ok <==> old(self)@.redos_remaining() > 0,
            r is Ok ==> final(self)@ == old(self)@.redo(),
            r is Err ==> final(self)@ == old(self)@ && r == Err::<(), TimelineError<S::Error>>(
                TimelineError::NothingToRedo,
            ),
    {
        let ghost pre = *self;
        if self.timeline.len() == self.available_undos {
            return Err(TimelineError::NothingToRedo);
        }
        let idx = self.available_undos;
        proof {
            assert(pre@.states[idx as int].apply_ok(pre@.actions[idx as int]));
            assert(pre@.actions[idx as int] == pre.timeline@[idx as int].0);
        }
        // A failure here would be surfaced, not swallowed; the history
        // invariant guarantees that a recorded action re-applies
        // successfully to the state it was first applied to.
        match self.current_state.apply(&self.timeline[idx].0) {
            Ok(()) => (),
            Err(e) => {
                return Err(TimelineError::ApplyError(e));
            },
        }
        self.available_undos = idx + 1;
        proof {
            assert(self@ =~= pre@.redo());
        }
        Ok(())
    }

    /// Return the number of undo's that can be performed.
    pub fn undos_remaining(&self) -> (r: usize)
        ensures
            r == self@.undos_remaining(),
    {
        self.available_undos
    }

    /// Return the number of redo's that can be performed.
    pub fn redos_remaining(&self) -> (r: usize)
        requires
            self.inv(),
        ensures
            r == self@.redos_remaining(),
    {
        self.timeline.len() - self.available_undos
    }
}

} // verus!
