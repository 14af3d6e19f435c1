use actions::Chain;
use actions::InverseResult;
use actions::State;
use actions::Timeline;
use actions::TimelineError;

#[derive(Default, Debug)]
pub struct Counter {
    pub value: i32,
}

#[derive(Debug, Clone, PartialEq)]
pub enum CounterAction {
    Increment,
    Decrement,
    SetValue(i32),
}

#[derive(Debug, PartialEq)]
pub enum CounterError {
    WouldOverflow,
}

impl State for Counter {
    type Action = CounterAction;
    type Error = CounterError;

    fn apply_ok(self, action: CounterAction) -> bool {
        let mut c = self;
        c.apply(&action).is_ok()
    }

    fn apply_result(self, action: CounterAction) -> Self {
        let mut c = self;
        let _ = c.apply(&action);
        c
    }

    fn apply(&mut self, action: &CounterAction) -> Result<(), CounterError> {
        match action {
            CounterAction::Increment => match self.value.checked_add(1) {
                Some(new_value) => self.value = new_value,
                None => return Err(CounterError::WouldOverflow),
            },
            CounterAction::Decrement => match self.value.checked_sub(1) {
                Some(new_value) => self.value = new_value,
                None => return Err(CounterError::WouldOverflow),
            },
            CounterAction::SetValue(v) => {
                self.value = *v;
            }
        }
        Ok(())
    }

    fn snapshot(&self) -> Counter {
        Counter { value: self.value }
    }

    fn inverse(&self, action: &CounterAction) -> InverseResult<CounterAction> {
        match action {
            CounterAction::Increment => InverseResult::Action(CounterAction::Decrement),
            CounterAction::Decrement => InverseResult::Action(CounterAction::Increment),
            CounterAction::SetValue(_) => InverseResult::FullCopyRequired,
        }
    }
}

enum Perform {
    Action(CounterAction),
    Undo,
    Redo,
}

/// Perform a change (Action, Undo or Redo) and check (after the change was
/// performed) if the value of the counter is equal to the expected value.
fn change_and_expect(t: &mut Timeline<Counter>, perform: Perform, expected_value: i32) {
    match perform {
        Perform::Action(action) => t.apply(action).unwrap(),
        Perform::Undo => t.undo().unwrap(),
        Perform::Redo => t.redo().unwrap(),
    };
    assert_eq!(t.current_state().value, expected_value);
}

#[test]
fn timeline_forward() {
    let mut t = Timeline::new(Counter::default());
    let test_values = vec![
        (CounterAction::Increment, 1),
        (CounterAction::Increment, 2),
        (CounterAction::Increment, 3),
        (CounterAction::Increment, 4),
        (CounterAction::Decrement, 3),
        (CounterAction::Decrement, 2),
        (CounterAction::Increment, 3),
        (CounterAction::SetValue(5), 5),
        (CounterAction::SetValue(7), 7),
        (CounterAction::Decrement, 6),
    ];

    for (action, expected_value) in test_values {
        change_and_expect(&mut t, Perform::Action(action), expected_value);
    }
}

#[test]
fn timeline_undo() {
    let mut t = Timeline::new(Counter::default());
    let test_values = vec![
        (Perform::Action(CounterAction::Increment), 1),
        (Perform::Action(CounterAction::Increment), 2),
        (Perform::Action(CounterAction::Increment), 3),
        (Perform::Undo, 2),
        (Perform::Undo, 1),
        (Perform::Action(CounterAction::SetValue(5)), 5),
        (Perform::Undo, 1),
    ];

    for (action, expected_value) in test_values {
        change_and_expect(&mut t, action, expected_value);
    }
}

#[test]
#[should_panic]
fn timeline_undo_2() {
    let mut t = Timeline::new(Counter::default());
    let test_values = vec![
        (Perform::Action(CounterAction::Increment), 1),
        (Perform::Action(CounterAction::Increment), 2),
        (Perform::Action(CounterAction::Increment), 3),
        (Perform::Undo, 2),
        (Perform::Undo, 1),
        (Perform::Undo, 0),
        // Should fail because there is no action to be undone
        (Perform::Undo, -1),
    ];

    for (action, expected_value) in test_values {
        change_and_expect(&mut t, action, expected_value);
    }
}

#[test]
fn timeline_redo() {
    let mut t = Timeline::new(Counter::default());
    let test_values = vec![
        (Perform::Action(CounterAction::Increment), 1),
        (Perform::Action(CounterAction::Increment), 2),
        (Perform::Action(CounterAction::Increment), 3),
        (Perform::Undo, 2),
        (Perform::Undo, 1),
        (Perform::Redo, 2),
        (Perform::Redo, 3),
        (Perform::Action(CounterAction::Increment), 4),
        (Perform::Undo, 3), // If this fails, there is probably an error in the *undo*.
    ];

    for (action, expected_value) in test_values {
        change_and_expect(&mut t, action, expected_value);
    }
}

#[test]
fn timeline_undos_remaining() {
    let mut t = Timeline::new(Counter::default());
    let test_values = vec![
        (Perform::Action(CounterAction::Increment), 1),
        (Perform::Action(CounterAction::Increment), 2),
        (Perform::Action(CounterAction::Increment), 3),
    ];

    for (action, expected_value) in test_values {
        change_and_expect(&mut t, action, expected_value);
    }

    assert_eq!(t.undos_remaining(), 3);
}

#[test]
fn timeline_redos_remaining() {
    let mut t = Timeline::new(Counter::default());

    let test_values = vec![
        (Perform::Action(CounterAction::Increment), 1),
        (Perform::Action(CounterAction::Increment), 2),
        (Perform::Action(CounterAction::Increment), 3),
        (Perform::Action(CounterAction::SetValue(-5)), -5),
        (Perform::Undo, 3),
        (Perform::Undo, 2),
        (Perform::Undo, 1),
    ];

    for (action, expected_value) in test_values {
        change_and_expect(&mut t, action, expected_value);
    }

    // After undoing 3 times, there should be 3 redo's available.
    assert_eq!(t.redos_remaining(), 3);
}

#[test]
fn timeline_redos_remaining_2() {
    let mut t = Timeline::new(Counter::default());

    let test_values = vec![
        (Perform::Action(CounterAction::Increment), 1),
        (Perform::Action(CounterAction::Increment), 2),
        (Perform::Action(CounterAction::Increment), 3),
        (Perform::Undo, 2),
        (Perform::Undo, 1),
        // Performing an action while not at the latest action should
        // make the timeline 'discard the future'...
        (Perform::Action(CounterAction::SetValue(5)), 5),
    ];

    for (action, expected_value) in test_values {
        change_and_expect(&mut t, action, expected_value);
    }
    // ... So there should not be any redo's remaining.
    assert_eq!(t.redos_remaining(), 0);
}

#[test]
/// Counter starting at 0; apply Increment three times, undo twice, redo
/// twice, apply Increment once more, undo once.
fn timeline_scenario_counter() {
    let mut t = Timeline::new(Counter::default());

    for expected in [1, 2, 3] {
        t.apply(CounterAction::Increment).unwrap();
        assert_eq!(t.current_state().value, expected);
    }
    t.undo().unwrap();
    t.undo().unwrap();
    assert_eq!(t.current_state().value, 1);
    t.redo().unwrap();
    t.redo().unwrap();
    assert_eq!(t.current_state().value, 3);
    t.apply(CounterAction::Increment).unwrap();
    assert_eq!(t.current_state().value, 4);
    t.undo().unwrap();
    assert_eq!(t.current_state().value, 3);
}

#[test]
/// Undo on a fresh timeline reports that there is nothing to undo.
fn timeline_nothing_to_undo() {
    let mut t = Timeline::new(Counter::default());
    assert!(matches!(t.undo(), Err(TimelineError::NothingToUndo)));
    assert_eq!(t.current_state().value, 0);
}

#[test]
/// Redo without an undone entry reports that there is nothing to redo.
fn timeline_nothing_to_redo() {
    let mut t = Timeline::new(Counter::default());
    assert!(matches!(t.redo(), Err(TimelineError::NothingToRedo)));
    t.apply(CounterAction::Increment).unwrap();
    assert!(matches!(t.redo(), Err(TimelineError::NothingToRedo)));
}

#[test]
/// A failing apply surfaces the state's error and leaves the counters,
/// the history and the state unchanged.
fn timeline_apply_error_atomicity() {
    let mut t = Timeline::new(Counter { value: i32::MAX });
    t.undo().unwrap_err();
    let r = t.apply(CounterAction::Increment);
    assert!(matches!(
        r,
        Err(TimelineError::ApplyError(CounterError::WouldOverflow))
    ));
    assert_eq!(t.current_state().value, i32::MAX);
    assert_eq!(t.undos_remaining(), 0);
    assert_eq!(t.redos_remaining(), 0);

    // The same after some history exists: the history stays replayable.
    let mut t = Timeline::new(Counter { value: i32::MAX - 2 });
    t.apply(CounterAction::Increment).unwrap();
    t.apply(CounterAction::Increment).unwrap();
    t.undo().unwrap();
    let r = t.apply(CounterAction::SetValue(i32::MAX));
    assert!(r.is_ok());
    let r = t.apply(CounterAction::Increment);
    assert!(matches!(r, Err(TimelineError::ApplyError(_))));
    assert_eq!(t.undos_remaining(), 2);
    assert_eq!(t.redos_remaining(), 0);
    assert_eq!(t.current_state().value, i32::MAX);
    t.undo().unwrap();
    assert_eq!(t.current_state().value, i32::MAX - 1);
}

#[test]
/// Undoing as many times as there were applies returns the state to its
/// initial value, through inverse actions and snapshots alike.
fn timeline_undo_round_trip() {
    let mut t = Timeline::new(Counter { value: 41 });
    let actions = vec![
        CounterAction::Increment,
        CounterAction::SetValue(7),
        CounterAction::Decrement,
        CounterAction::Increment,
    ];
    for action in actions.iter() {
        t.apply(action.clone()).unwrap();
    }
    for _ in 0..actions.len() {
        t.undo().unwrap();
    }
    assert_eq!(t.current_state().value, 41);
    assert_eq!(t.undos_remaining(), 0);
    assert_eq!(t.redos_remaining(), 4);
}

#[test]
/// Apply, undo, redo ends in the state from right after the apply.
fn timeline_undo_redo_round_trip() {
    let mut t = Timeline::new(Counter { value: 10 });
    t.apply(CounterAction::SetValue(25)).unwrap();
    t.undo().unwrap();
    assert_eq!(t.current_state().value, 10);
    t.redo().unwrap();
    assert_eq!(t.current_state().value, 25);

    t.apply(CounterAction::Decrement).unwrap();
    t.undo().unwrap();
    t.redo().unwrap();
    assert_eq!(t.current_state().value, 24);
    assert_eq!(t.undos_remaining(), 2);
    assert_eq!(t.redos_remaining(), 0);
}

#[test]
/// A chain is applied in order; the first failing action aborts the run
/// and the successfully applied prefix stays applied and recorded.
fn timeline_apply_chain_partial() {
    let mut chain = Chain::new();
    chain.push(CounterAction::Increment);
    chain.push(CounterAction::Increment);
    chain.push(CounterAction::Increment);
    let mut t = Timeline::new(Counter::default());
    t.apply_chain(chain).unwrap();
    assert_eq!(t.current_state().value, 3);
    assert_eq!(t.undos_remaining(), 3);

    let mut failing = Chain::new();
    failing.push(CounterAction::Decrement);
    failing.push(CounterAction::SetValue(i32::MAX));
    failing.push(CounterAction::Increment);
    failing.push(CounterAction::Decrement);
    let r = t.apply_chain(failing);
    assert!(matches!(r, Err(TimelineError::ApplyError(_))));
    // The two actions before the failure remain applied.
    assert_eq!(t.current_state().value, i32::MAX);
    assert_eq!(t.undos_remaining(), 5);
    assert_eq!(t.redos_remaining(), 0);
    t.undo().unwrap();
    assert_eq!(t.current_state().value, 2);
}
