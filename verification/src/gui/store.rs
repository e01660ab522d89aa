//! Store events, reducers and their results, and a reducer made of
//! several reducers applied in turn.

use vstd::prelude::*;
use vstd::std_specs::cmp::PartialEqSpec;
use std::rc::Rc;
use vstd::multiset::Multiset;
use vstd::seq_lib::lemma_multiset_commutative;

verus! {

/// An event that a store notifies its listeners of; one of them means "no
/// event".
pub trait StoreEvent: Sized {
    /// The event that means "no event".
    fn none() -> Self;

    /// This is the event that means "no event".
    fn is_none(&self) -> bool;
}

impl StoreEvent for () {
    fn none() -> (e: Self) {
        ()
    }

    fn is_none(&self) -> (b: bool)
        ensures
            b,
    {
        true
    }
}

/// What a reducer gives for an action: the new state, the events
/// associated with the action and its changes, and the effects to run.
pub struct ReducerResult<State, Event, Effect> {
    pub state: Rc<State>,
    pub events: Vec<Event>,
    pub effects: Vec<Effect>,
}

impl<State, Event, Effect> ReducerResult<State, Event, Effect> {
    /// A result with this state, these events and effects.
    pub fn new(state: Rc<State>, events: Vec<Event>, effects: Vec<Effect>) -> (r: Self)
        ensures
            r.state == state,
            r.events == events,
            r.effects == effects,
    {
        ReducerResult { state, events, effects }
    }
}

/// Takes an action dispatched to a store and the previous state, and
/// produces the next state, the events that the action and the changes
/// are associated with, and the effects to run afterwards.
pub trait Reducer<State, Action, Event, Effect> {
    /// `result` is what this reducer gives for `action` on `prev_state`;
    /// a reducer that states nothing of its results keeps this default.
    open spec fn reduces(&self, prev_state: Rc<State>, action: Action, result: ReducerResult<State, Event, Effect>) -> bool {
        true
    }

    /// The next state, the events and the effects for `action`.
    fn reduce(&self, prev_state: &Rc<State>, action: &Action) -> (result: ReducerResult<State, Event, Effect>)
        ensures
            self.reduces(*prev_state, *action, result);
}

/// A reducer that applies several reducers in turn: each one to the state
/// that the one before gave.
#[verifier::reject_recursive_types(State)]
#[verifier::reject_recursive_types(Action)]
#[verifier::reject_recursive_types(Event)]
#[verifier::reject_recursive_types(Effect)]
pub struct CompositeReducer<State, Action, Event, Effect> {
    reducers: Vec<Box<dyn Reducer<State, Action, Event, Effect>>>,
}

/// The results `steps` are those of `reducers` applied in turn from `prev`
/// (the first `steps.len()` of them).
pub open spec fn reduced_in_turn<State, Action, Event, Effect>(
    reducers: Seq<Box<dyn Reducer<State, Action, Event, Effect>>>,
    prev: Rc<State>,
    action: Action,
    steps: Seq<ReducerResult<State, Event, Effect>>,
) -> bool {
    &&& steps.len() <= reducers.len()
    &&& forall|i: int| #![trigger steps[i]] 0 <= i < steps.len() ==> reducers[i].reduces(
        if i == 0 { prev } else { steps[i - 1].state },
        action,
        steps[i],
    )
}

/// The state after the steps: that of the last one, or `prev` if none.
pub open spec fn state_after<State, Event, Effect>(prev: Rc<State>, steps: Seq<ReducerResult<State, Event, Effect>>) -> Rc<State> {
    if steps.len() == 0 { prev } else { steps.last().state }
}

/// The events of the steps, one step after the other.
pub open spec fn events_of<State, Event, Effect>(steps: Seq<ReducerResult<State, Event, Effect>>) -> Seq<Event>
    decreases steps.len(),
{
    if steps.len() == 0 { Seq::empty() } else { events_of(steps.drop_last()) + steps.last().events@ }
}

/// The effects of the steps, one step after the other.
pub open spec fn effects_of<State, Event, Effect>(steps: Seq<ReducerResult<State, Event, Effect>>) -> Seq<Effect>
    decreases steps.len(),
{
    if steps.len() == 0 { Seq::empty() } else { effects_of(steps.drop_last()) + steps.last().effects@ }
}

impl<State, Action, Event, Effect> CompositeReducer<State, Action, Event, Effect> {
    /// The reducers, in the order they are applied.
    pub closed spec fn reducers(&self) -> Seq<Box<dyn Reducer<State, Action, Event, Effect>>> {
        self.reducers@
    }

    /// A reducer that applies `reducers` in this order.
    pub fn new(reducers: Vec<Box<dyn Reducer<State, Action, Event, Effect>>>) -> (c: Self)
        ensures
            c.reducers() == reducers@,
    {
        CompositeReducer { reducers }
    }
}

impl<State, Action, Event, Effect> Reducer<State, Action, Event, Effect> for CompositeReducer<State, Action, Event, Effect> {
    /// There are results of each reducer in turn, from `prev_state`; the
    /// state is the last one, and the events and effects are theirs in
    /// that order.
    open spec fn reduces(&self, prev_state: Rc<State>, action: Action, result: ReducerResult<State, Event, Effect>) -> bool {
        exists|steps: Seq<ReducerResult<State, Event, Effect>>| {
            &&& steps.len() == self.reducers().len()
            &&& #[trigger] reduced_in_turn(self.reducers(), prev_state, action, steps)
            &&& result.state == state_after(prev_state, steps)
            &&& result.events@ == events_of(steps)
            &&& result.effects@ == effects_of(steps)
        }
    }

    fn reduce(&self, prev_state: &Rc<State>, action: &Action) -> (result: ReducerResult<State, Event, Effect>) {
        let mut sum_result: ReducerResult<State, Event, Effect> = ReducerResult {
            state: prev_state.clone(),
            events: Vec::new(),
            effects: Vec::new(),
        };
        let ghost mut steps: Seq<ReducerResult<State, Event, Effect>> = Seq::empty();
        let mut i: usize = 0;
        while i < self.reducers.len()
            invariant
                i <= self.reducers@.len(),
                steps.len() == i,
                reduced_in_turn(self.reducers@, *prev_state, *action, steps),
                sum_result.state == state_after(*prev_state, steps),
                sum_result.events@ == events_of(steps),
                sum_result.effects@ == effects_of(steps),
            decreases self.reducers@.len() - i,
        {
            let result = self.reducers[i].reduce(&sum_result.state, action);
            proof {
                let ghost old_steps = steps;
                steps = steps.push(result);
                assert(steps.drop_last() =~= old_steps);
                assert forall|k: int| #![trigger steps[k]] 0 <= k < steps.len() implies self.reducers@[k].reduces(
                    if k == 0 { *prev_state } else { steps[k - 1].state },
                    *action,
                    steps[k],
                ) by {
                    if k < old_steps.len() {
                        assert(steps[k] == old_steps[k]);
                        if k > 0 {
                            assert(steps[k - 1] == old_steps[k - 1]);
                        }
                    }
                }
            }
            let ReducerResult { state, events, effects } = result;
            sum_result.state = state;
            let mut events = events;
            let mut effects = effects;
            sum_result.events.append(&mut events);
            sum_result.effects.append(&mut effects);
            i = i + 1;
        }
        proof {
            assert(reduced_in_turn(self.reducers(), *prev_state, *action, steps));
        }
        sum_result
    }
}


/// `s` after `Vec::swap_remove` at `i`: the last item takes the place of
/// the one at `i`.
pub open spec fn swap_removed<T>(s: Seq<T>, i: int) -> Seq<T> {
    s.update(i, s.last()).drop_last()
}

/// The listeners left after the gone ones among the first `i` are removed
/// the way a store removes them after notifying: from the highest position
/// down, each by a swap remove.
pub open spec fn without_gone<T>(listeners: Seq<T>, gone: Seq<bool>, i: int) -> Seq<T>
    decreases i,
{
    if i <= 0 {
        listeners
    } else if gone[i - 1] {
        without_gone(swap_removed(listeners, i - 1), gone, i - 1)
    } else {
        without_gone(listeners, gone, i - 1)
    }
}

/// The listeners among the first `i` that are not gone, counted with
/// their multiplicity.
pub open spec fn live_listeners<T>(listeners: Seq<T>, gone: Seq<bool>, i: int) -> Multiset<T>
    decreases i,
{
    if i <= 0 {
        Multiset::empty()
    } else if gone[i - 1] {
        live_listeners(listeners, gone, i - 1)
    } else {
        live_listeners(listeners, gone, i - 1).insert(listeners[i - 1])
    }
}

/// Removes the listeners that are gone (`gone[i]` for the listener at
/// `i`), from the highest position down, each by a swap remove.
pub fn remove_gone_listeners<T>(listeners: &mut Vec<T>, gone: &Vec<bool>)
    requires
        gone.len() == old(listeners).len(),
    ensures
        final(listeners)@ == without_gone(old(listeners)@, gone@, gone.len() as int),
{
    let ghost all = listeners@;
    let mut i: usize = gone.len();
    while i > 0
        invariant
            i <= gone.len(),
            i <= listeners.len(),
            without_gone(all, gone@, gone.len() as int) == without_gone(listeners@, gone@, i as int),
        decreases i,
    {
        if gone[i - 1] {
            listeners.swap_remove(i - 1);
        }
        i = i - 1;
    }
}

proof fn lemma_live_prefix<T>(a: Seq<T>, b: Seq<T>, gone: Seq<bool>, i: int)
    requires
        0 <= i <= a.len(),
        i <= b.len(),
        forall|j: int| 0 <= j < i ==> a[j] == b[j],
    ensures
        live_listeners(a, gone, i) == live_listeners(b, gone, i),
    decreases i,
{
    if i > 0 {
        lemma_live_prefix(a, b, gone, i - 1);
    }
}

proof fn lemma_without_gone<T>(listeners: Seq<T>, gone: Seq<bool>, i: int)
    requires
        0 <= i <= listeners.len(),
        i <= gone.len(),
    ensures
        without_gone(listeners, gone, i).to_multiset() == live_listeners(listeners, gone, i).add(
            listeners.skip(i).to_multiset(),
        ),
    decreases i,
{
    broadcast use vstd::multiset::group_multiset_axioms, vstd::multiset::group_multiset_properties, vstd::seq_lib::group_seq_properties;

    if i > 0 {
        let s = listeners;
        assert(seq![s[i - 1]] =~= Seq::<T>::empty().push(s[i - 1]));
        assert(Seq::<T>::empty().to_multiset() =~= Multiset::<T>::empty());
        assert(s.skip(i - 1) =~= seq![s[i - 1]] + s.skip(i));
        lemma_multiset_commutative(seq![s[i - 1]], s.skip(i));
        if gone[i - 1] {
            let t = swap_removed(s, i - 1);
            lemma_without_gone(t, gone, i - 1);
            lemma_live_prefix(t, s, gone, i - 1);
            if i < s.len() {
                let middle = s.subrange(i, s.len() - 1);
                assert(t.skip(i - 1) =~= seq![s.last()] + middle);
                assert(s.skip(i) =~= middle + seq![s.last()]);
                lemma_multiset_commutative(seq![s.last()], middle);
                lemma_multiset_commutative(middle, seq![s.last()]);
            } else {
                assert(t.skip(i - 1) =~= Seq::<T>::empty());
                assert(s.skip(i) =~= Seq::<T>::empty());
            }
            assert(without_gone(s, gone, i).to_multiset() =~= live_listeners(s, gone, i).add(s.skip(i).to_multiset()));
        } else {
            lemma_without_gone(s, gone, i - 1);
            assert(without_gone(s, gone, i).to_multiset() =~= live_listeners(s, gone, i).add(s.skip(i).to_multiset()));
        }
    } else {
        assert(listeners.skip(0) =~= listeners);
        assert(live_listeners(listeners, gone, 0).add(listeners.skip(0).to_multiset()) =~= listeners.to_multiset());
    }
}

/// After the gone listeners are removed, the listeners left are exactly
/// those that are not gone, each as often as before.
pub proof fn law_removal_keeps_live_listeners<T>(listeners: Seq<T>, gone: Seq<bool>)
    requires
        gone.len() == listeners.len(),
    ensures
        without_gone(listeners, gone, gone.len() as int).to_multiset() == live_listeners(listeners, gone, gone.len() as int),
{
    broadcast use vstd::multiset::group_multiset_axioms, vstd::multiset::group_multiset_properties, vstd::seq_lib::group_seq_properties;

    lemma_without_gone(listeners, gone, gone.len() as int);
    assert(listeners.skip(gone.len() as int) =~= Seq::<T>::empty());
    assert(listeners.skip(gone.len() as int).to_multiset() =~= Multiset::<T>::empty());
    assert(live_listeners(listeners, gone, gone.len() as int).add(Multiset::empty()) =~= live_listeners(
        listeners,
        gone,
        gone.len() as int,
    ));
}


/// One of the events in `subscribed` equals `event` (by the events' `==`).
pub open spec fn subscribed_to<Event: PartialEq>(subscribed: Seq<Event>, event: Event) -> bool {
    exists|k: int| 0 <= k < subscribed.len() && (#[trigger] subscribed[k]).eq_spec(&event)
}

/// The calls for the listener at `listener`, subscribed to the events in
/// `subscribed` (none of them empty), for the first `n` of the notified
/// `events`: one for each event it is subscribed to, in order, by the
/// event's position.
pub open spec fn event_calls<Event: PartialEq>(listener: int, subscribed: Seq<Event>, events: Seq<Event>, n: int) -> Seq<
    (int, Option<int>),
>
    decreases n,
{
    if n <= 0 {
        Seq::empty()
    } else if subscribed_to(subscribed, events[n - 1]) {
        event_calls(listener, subscribed, events, n - 1).push((listener, Some(n - 1)))
    } else {
        event_calls(listener, subscribed, events, n - 1)
    }
}

/// The calls a store makes to the first `n` listeners when it notifies
/// them of `events`, in order: a listener that is gone (`None`) gets none;
/// one subscribed to no event in particular gets one call with the
/// no-event (`None` in place of an event's position); any other gets a
/// call for each event it is subscribed to.
pub open spec fn notify_calls<Event: PartialEq>(listeners: Seq<Option<Vec<Event>>>, events: Seq<Event>, n: int) -> Seq<
    (int, Option<int>),
>
    decreases n,
{
    if n <= 0 {
        Seq::empty()
    } else {
        notify_calls(listeners, events, n - 1) + match listeners[n - 1] {
            None => Seq::empty(),
            Some(subscribed) => if subscribed@.len() == 0 {
                seq![(n - 1, None)]
            } else {
                event_calls(n - 1, subscribed@, events, events.len() as int)
            },
        }
    }
}

/// A call by the listener's position and the event's position.
pub open spec fn call_view(c: (usize, Option<usize>)) -> (int, Option<int>) {
    (c.0 as int, match c.1 {
        Some(j) => Some(j as int),
        None => None,
    })
}

/// The calls, by positions.
pub open spec fn call_views(calls: Seq<(usize, Option<usize>)>) -> Seq<(int, Option<int>)> {
    calls.map_values(|c: (usize, Option<usize>)| call_view(c))
}

/// Whether one of the events in `subscribed` equals `event`.
fn is_subscribed<Event: PartialEq>(subscribed: &Vec<Event>, event: &Event) -> (b: bool)
    ensures
        Event::obeys_eq_spec() ==> b == subscribed_to(subscribed@, *event),
{
    let mut k: usize = 0;
    while k < subscribed.len()
        invariant
            k <= subscribed.len(),
            Event::obeys_eq_spec() ==> forall|j: int| 0 <= j < k ==> !(#[trigger] subscribed@[j]).eq_spec(event),
        decreases subscribed.len() - k,
    {
        if subscribed[k] == *event {
            return true;
        }
        k = k + 1;
    }
    false
}

/// The calls a store makes when it notifies its listeners of `events`
/// (see `notify_calls`), and which listeners are gone, to be removed
/// afterwards by [remove_gone_listeners]. Each listener is given by the
/// events it is subscribed to, or `None` once it is gone. (For events whose
/// `==` Verus knows; for others nothing is said of which events match.)
pub fn plan_notifications<Event: PartialEq>(listeners: &Vec<Option<Vec<Event>>>, events: &Vec<Event>) -> (r: (
    Vec<(usize, Option<usize>)>,
    Vec<bool>,
))
    ensures
        r.1.len() == listeners.len(),
        forall|i: int| 0 <= i < listeners.len() ==> #[trigger] r.1@[i] == listeners@[i] is None,
        Event::obeys_eq_spec() ==> call_views(r.0@) == notify_calls(listeners@, events@, listeners.len() as int),
{
    let mut calls: Vec<(usize, Option<usize>)> = Vec::new();
    let mut gone: Vec<bool> = Vec::new();
    let mut i: usize = 0;
    while i < listeners.len()
        invariant
            i <= listeners.len(),
            gone.len() == i,
            forall|q: int| 0 <= q < i ==> #[trigger] gone@[q] == listeners@[q] is None,
            Event::obeys_eq_spec() ==> call_views(calls@) == notify_calls(listeners@, events@, i as int),
        decreases listeners.len() - i,
    {
        let ghost before = calls@;
        match &listeners[i] {
            None => {
                gone.push(true);
                proof {
                    assert(notify_calls(listeners@, events@, i + 1) =~= notify_calls(listeners@, events@, i as int));
                }
            },
            Some(subscribed) => {
                gone.push(false);
                if subscribed.len() == 0 {
                    calls.push((i, None));
                    proof {
                        assert(calls@ == before.push((i, None)));
                        assert(call_view((i, None)) == (i as int, None::<int>));
                        assert(call_views(calls@) =~= call_views(before).push((i as int, None::<int>)));
                        assert(notify_calls(listeners@, events@, i + 1) =~= notify_calls(listeners@, events@, i as int).push(
                            (i as int, None),
                        ));
                    }
                } else {
                    let mut j: usize = 0;
                    while j < events.len()
                        invariant
                            i < listeners.len(),
                            listeners@[i as int] == Some(*subscribed),
                            j <= events.len(),
                            before.len() <= calls.len(),
                            calls@.take(before.len() as int) == before,
                            Event::obeys_eq_spec() ==> call_views(calls@.skip(before.len() as int)) == event_calls(
                                i as int,
                                subscribed@,
                                events@,
                                j as int,
                            ),
                        decreases events.len() - j,
                    {
                        let ghost mid = calls@;
                        if is_subscribed(subscribed, &events[j]) {
                            calls.push((i, Some(j)));
                            proof {
                                assert(calls@.take(before.len() as int) =~= mid.take(before.len() as int));
                                assert(calls@.skip(before.len() as int) =~= mid.skip(before.len() as int).push((i, Some(j))));
                                assert(call_view((i, Some(j))) == (i as int, Some(j as int)));
                                assert(call_views(calls@.skip(before.len() as int)) =~= call_views(mid.skip(before.len() as int)).push((i as int, Some(j as int))));
                            }
                        }
                        j = j + 1;
                    }
                    proof {
                        if Event::obeys_eq_spec() {
                            assert(calls@ =~= before + calls@.skip(before.len() as int));
                            assert(call_views(calls@) =~= call_views(before) + call_views(calls@.skip(before.len() as int)));
                        }
                    }
                }
            },
        }
        i = i + 1;
    }
    (calls, gone)
}


/// The results `steps` are those of `reducer` applied to `actions` in
/// turn, from `prev`: each action on the state that the one before gave.
/// (Opaque, for the speed of the proofs that carry it: `reveal` it to read
/// it.)
#[verifier::opaque]
pub open spec fn dispatched_in_turn<State, Action, Event, Effect>(
    reducer: CompositeReducer<State, Action, Event, Effect>,
    prev: Rc<State>,
    actions: Seq<Action>,
    steps: Seq<ReducerResult<State, Event, Effect>>,
) -> bool {
    &&& steps.len() == actions.len()
    &&& forall|i: int| #![trigger steps[i]] 0 <= i < steps.len() ==> reducer.reduces(
        if i == 0 { prev } else { steps[i - 1].state },
        actions[i],
        steps[i],
    )
}

/// One more action reduced on the last state keeps the results in turn.
proof fn lemma_dispatched_push<State, Action, Event, Effect>(
    reducer: CompositeReducer<State, Action, Event, Effect>,
    prev: Rc<State>,
    actions: Seq<Action>,
    steps: Seq<ReducerResult<State, Event, Effect>>,
    action: Action,
    result: ReducerResult<State, Event, Effect>,
)
    requires
        dispatched_in_turn(reducer, prev, actions, steps),
        reducer.reduces(state_after(prev, steps), action, result),
    ensures
        dispatched_in_turn(reducer, prev, actions.push(action), steps.push(result)),
{
    reveal(dispatched_in_turn);
    let steps2 = steps.push(result);
    let actions2 = actions.push(action);
    assert forall|i: int| #![trigger steps2[i]] 0 <= i < steps2.len() implies reducer.reduces(
        if i == 0 { prev } else { steps2[i - 1].state },
        actions2[i],
        steps2[i],
    ) by {
        if i < steps.len() {
            assert(steps2[i] == steps[i]);
            assert(actions2[i] == actions[i]);
            if i > 0 {
                assert(steps2[i - 1] == steps[i - 1]);
            }
        } else if i > 0 {
            assert(steps2[i - 1] == steps.last());
        }
    }
}

/// A store: the current state, the reducer that gives the next state for
/// an action, and the actions dispatched while others were being reduced
/// (from a listener, say), waiting their turn. The listeners are told of
/// the events of each result (see [plan_notifications]).
#[verifier::reject_recursive_types(State)]
#[verifier::reject_recursive_types(Action)]
#[verifier::reject_recursive_types(Event)]
#[verifier::reject_recursive_types(Effect)]
pub struct Store<State, Action, Event, Effect> {
    reducer: CompositeReducer<State, Action, Event, Effect>,
    state: Rc<State>,
    queue: Vec<Action>,
}

impl<State, Action, Event, Effect> Store<State, Action, Event, Effect> {
    /// The reducer of the store.
    pub closed spec fn reducer(&self) -> CompositeReducer<State, Action, Event, Effect> {
        self.reducer
    }

    /// The current state.
    pub closed spec fn current(&self) -> Rc<State> {
        self.state
    }

    /// The actions waiting their turn, first first.
    pub closed spec fn pending(&self) -> Seq<Action> {
        self.queue@
    }

    /// A store with this reducer and initial state, and no action waiting.
    pub fn new(reducer: CompositeReducer<State, Action, Event, Effect>, initial_state: State) -> (s: Self)
        ensures
            s.reducer() == reducer,
            *s.current() == initial_state,
            s.pending().len() == 0,
    {
        Store { reducer, state: Rc::new(initial_state), queue: Vec::new() }
    }

    /// The current state.
    pub fn state(&self) -> (r: Rc<State>)
        ensures
            *r == *self.current(),
    {
        self.state.clone()
    }

    /// Puts the action last among those waiting.
    pub fn enqueue(&mut self, action: Action)
        ensures
            final(self).reducer() == old(self).reducer(),
            final(self).current() == old(self).current(),
            final(self).pending() == old(self).pending().push(action),
    {
        self.queue.push(action);
    }

    /// Reduces the actions waiting, first first, each on the state the one
    /// before gave; the results, in order. The state is then that of the
    /// last result, and no action is waiting.
    pub fn process_pending(&mut self) -> (results: Vec<ReducerResult<State, Event, Effect>>)
        ensures
            dispatched_in_turn(old(self).reducer(), old(self).current(), old(self).pending(), results@),
            final(self).current() == state_after(old(self).current(), results@),
            final(self).pending().len() == 0,
            final(self).reducer() == old(self).reducer(),
    {
        let ghost actions = self.queue@;
        let ghost prev = self.state;
        let mut results: Vec<ReducerResult<State, Event, Effect>> = Vec::new();
        proof {
            assert(actions.skip(0) =~= actions);
            assert(actions.take(0) =~= Seq::<Action>::empty());
            reveal(dispatched_in_turn);
            assert(dispatched_in_turn(self.reducer, prev, actions.take(0), results@));
        }
        while self.queue.len() > 0
            invariant
                self.reducer == old(self).reducer,
                actions == old(self).queue@,
                prev == old(self).state,
                results.len() + self.queue.len() == actions.len(),
                self.queue@ == actions.skip(results.len() as int),
                self.state == state_after(prev, results@),
                dispatched_in_turn(self.reducer, prev, actions.take(results.len() as int), results@),
            decreases self.queue.len(),
        {
            let ghost n = results.len() as int;
            let action = self.queue.remove(0);
            proof {
                assert(action == actions.skip(n)[0]);
                assert(self.queue@ =~= actions.skip(n + 1));
            }
            let result = self.reducer.reduce(&self.state, &action);
            proof {
                lemma_dispatched_push(self.reducer, prev, actions.take(n), results@, action, result);
                assert(actions.take(n).push(action) =~= actions.take(n + 1));
            }
            self.state = result.state.clone();
            results.push(result);
        }
        proof {
            assert(actions.take(results.len() as int) =~= actions);
        }
        results
    }

    /// Dispatches the action: it is reduced after the actions already
    /// waiting (see [Store::process_pending]).
    pub fn dispatch(&mut self, action: Action) -> (results: Vec<ReducerResult<State, Event, Effect>>)
        ensures
            dispatched_in_turn(old(self).reducer(), old(self).current(), old(self).pending().push(action), results@),
            final(self).current() == state_after(old(self).current(), results@),
            final(self).pending().len() == 0,
            final(self).reducer() == old(self).reducer(),
    {
        self.enqueue(action);
        self.process_pending()
    }
}

} // verus!
