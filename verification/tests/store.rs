use coster::gui::store::{plan_notifications, remove_gone_listeners, CompositeReducer, Reducer, ReducerResult, Store};
use std::rc::Rc;

struct TestState {
    emitted_events: Vec<TestEvent>,
}

impl Default for TestState {
    fn default() -> Self {
        TestState { emitted_events: Vec::new() }
    }
}

struct TestAction;

#[derive(Debug, Clone, PartialEq)]
enum TestEvent {
    Event1,
    Event2,
}

#[derive(Debug, PartialEq)]
enum TestEffect {
    Effect1,
    Effect2,
}

struct Reducer1;

impl Reducer<TestState, TestAction, TestEvent, TestEffect> for Reducer1 {
    fn reduce(&self, prev_state: &Rc<TestState>, _action: &TestAction) -> ReducerResult<TestState, TestEvent, TestEffect> {
        let mut emitted_events = prev_state.emitted_events.clone();
        emitted_events.push(TestEvent::Event1);
        let state = Rc::new(TestState { emitted_events });

        ReducerResult { state, events: vec![TestEvent::Event1], effects: vec![TestEffect::Effect1] }
    }
}

struct Reducer2;

impl Reducer<TestState, TestAction, TestEvent, TestEffect> for Reducer2 {
    fn reduce(&self, prev_state: &Rc<TestState>, _action: &TestAction) -> ReducerResult<TestState, TestEvent, TestEffect> {
        let mut emitted_events = prev_state.emitted_events.clone();
        emitted_events.push(TestEvent::Event2);
        let state = Rc::new(TestState { emitted_events });

        ReducerResult { state, events: vec![TestEvent::Event2], effects: vec![TestEffect::Effect2] }
    }
}

#[test]
fn composite_reducer() {
    let reducer = CompositeReducer::new(vec![Box::new(Reducer1), Box::new(Reducer2)]);

    let result = reducer.reduce(&Rc::new(TestState::default()), &TestAction);
    assert_eq!(result.state.emitted_events, vec![TestEvent::Event1, TestEvent::Event2]);
    assert_eq!(result.events, vec![TestEvent::Event1, TestEvent::Event2]);
    assert_eq!(result.effects, vec![TestEffect::Effect1, TestEffect::Effect2]);
}

#[test]
fn composite_reducer_without_reducers() {
    let reducer: CompositeReducer<TestState, TestAction, TestEvent, TestEffect> = CompositeReducer::new(vec![]);
    let prev = Rc::new(TestState::default());
    let result = reducer.reduce(&prev, &TestAction);
    assert!(Rc::ptr_eq(&prev, &result.state));
    assert!(result.events.is_empty());
    assert!(result.effects.is_empty());
}

#[test]
fn reducer_result_new() {
    let state = Rc::new(TestState::default());
    let result: ReducerResult<TestState, TestEvent, TestEffect> =
        ReducerResult::new(state.clone(), vec![TestEvent::Event2], vec![TestEffect::Effect1]);
    assert!(Rc::ptr_eq(&state, &result.state));
    assert_eq!(vec![TestEvent::Event2], result.events);
    assert_eq!(vec![TestEffect::Effect1], result.effects);
}

#[test]
fn gone_listeners_are_swap_removed_from_the_back() {
    let mut listeners = vec!["a", "b", "c", "d", "e"];
    remove_gone_listeners(&mut listeners, &vec![false, true, false, true, false]);
    assert_eq!(vec!["a", "e", "c"], listeners);

    let mut last_gone = vec!["a", "b"];
    remove_gone_listeners(&mut last_gone, &vec![false, true]);
    assert_eq!(vec!["a"], last_gone);
}

#[test]
fn notifications_follow_the_subscriptions() {
    let listeners: Vec<Option<Vec<i32>>> = vec![Some(vec![]), None, Some(vec![1, 3]), Some(vec![2])];
    let (calls, gone) = plan_notifications(&listeners, &vec![3, 1, 5]);
    assert_eq!(vec![(0, None), (2, Some(0)), (2, Some(1))], calls);
    assert_eq!(vec![false, true, false, false], gone);
}

#[test]
fn store_reduces_actions_in_turn() {
    let reducer = CompositeReducer::new(vec![Box::new(Reducer1)]);
    let mut store = Store::new(reducer, TestState::default());
    assert!(store.state().emitted_events.is_empty());
    store.enqueue(TestAction);
    let results = store.dispatch(TestAction);
    assert_eq!(2, results.len());
    assert_eq!(vec![TestEvent::Event1], results[0].state.emitted_events);
    assert_eq!(vec![TestEvent::Event1, TestEvent::Event1], results[1].state.emitted_events);
    assert_eq!(vec![TestEvent::Event1, TestEvent::Event1], store.state().emitted_events);
    assert!(store.process_pending().is_empty());
}
