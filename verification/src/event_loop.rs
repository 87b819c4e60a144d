//! The loop that the events go through: one context handles them, one after the other.
use crate::event::{answer, waiting_part, LayerEvent, ReturnData, WaitingLayerShellEvent};
use std::collections::VecDeque;
use vstd::prelude::*;

verus! {

/// Where the context is.
#[derive(Debug, PartialEq, Eq)]
pub enum ContextState<C, F> {
    /// Someone has taken it and has to return it.
    Taken,
    /// It can handle an event.
    Context(C),
    /// It will be back when the future is ready.
    Future(F),
}

/// What the loop needs to have done.
#[derive(Debug, PartialEq, Eq)]
pub enum LoopStep<C, F, V> {
    /// Poll the future.
    Poll(F),
    /// Let the context handle the event.
    Handle(C, V),
    /// Nothing, until the next event.
    Idle,
}

/// How a future was found.
#[derive(Debug, PartialEq, Eq)]
pub enum Polled<C, F> {
    Ready(C),
    Pending(F),
}

/// The waiting events once others have arrived: they wait behind.
pub open spec fn after_arrival<V>(waiting: Seq<V>, arrived: Seq<V>) -> Seq<V> {
    waiting + arrived
}

/// The waiting events once the next one was taken.
pub open spec fn after_take<V>(waiting: Seq<V>) -> Seq<V> {
    waiting.skip(1)
}

/// The waiting events once one was given back: it goes first.
pub open spec fn after_return<V>(waiting: Seq<V>, returned: V) -> Seq<V> {
    seq![returned] + waiting
}

/// The context and the events that wait for it.
pub struct EventLoop<C, F, V> {
    context_state: ContextState<C, F>,
    waiting_layer_shell_events: VecDeque<V>,
}

impl<C, F, V> EventLoop<C, F, V> {
    /// Where the context is.
    pub closed spec fn state(self) -> ContextState<C, F> {
        self.context_state
    }

    /// The events that wait, the next one first.
    pub closed spec fn waiting(self) -> Seq<V> {
        self.waiting_layer_shell_events@
    }

    /// A loop in which no event waits.
    pub fn new(context: C) -> (event_loop: Self)
        ensures
            event_loop.state() == ContextState::<C, F>::Context(context),
            event_loop.waiting() == Seq::<V>::empty(),
    {
        EventLoop {
            context_state: ContextState::Context(context),
            waiting_layer_shell_events: VecDeque::new(),
        }
    }

    /// Tells whether someone has taken the context and has to return it.
    pub fn is_taken(&self) -> (taken: bool)
        ensures
            taken == (self.state() is Taken),
    {
        matches!(self.context_state, ContextState::Taken)
    }

    /// What the loop needs to have done next. A future goes first; otherwise the context handles
    /// the event that waits longest.
    pub fn next(&mut self) -> (step: LoopStep<C, F, V>)
        requires
            !(old(self).state() is Taken),
        ensures
            match old(self).state() {
                ContextState::Future(future) => {
                    &&& step == LoopStep::<C, F, V>::Poll(future)
                    &&& final(self).state() is Taken
                    &&& final(self).waiting() == old(self).waiting()
                },
                ContextState::Context(context) => if old(self).waiting().len() > 0 {
                    &&& step == LoopStep::<C, F, V>::Handle(context, old(self).waiting()[0])
                    &&& final(self).state() is Taken
                    &&& final(self).waiting() == after_take(old(self).waiting())
                    &&& final(self).waiting() == old(self).waiting().skip(1)
                } else {
                    &&& step is Idle
                    &&& final(self).state() == old(self).state()
                    &&& final(self).waiting() == old(self).waiting()
                },
                ContextState::Taken => false,
            },
    {
        let mut context_state = ContextState::Taken;
        std::mem::swap(&mut self.context_state, &mut context_state);
        match context_state {
            ContextState::Future(future) => LoopStep::Poll(future),
            ContextState::Context(context) => {
                match self.waiting_layer_shell_events.pop_front() {
                    Some(event) => {
                        assert(self.waiting() =~= after_take(old(self).waiting()));
                        LoopStep::Handle(context, event)
                    },
                    None => {
                        self.context_state = ContextState::Context(context);
                        LoopStep::Idle
                    },
                }
            },
            ContextState::Taken => LoopStep::Idle,
        }
    }

    /// Takes back what came of a polled future, and tells whether the loop goes on at once.
    pub fn polled(&mut self, polled: Polled<C, F>) -> (need_continue: bool)
        requires
            old(self).state() is Taken,
        ensures
            need_continue == (polled is Ready),
            final(self).waiting() == old(self).waiting(),
            match polled {
                Polled::Ready(context) => final(self).state() == ContextState::<C, F>::Context(
                    context,
                ),
                Polled::Pending(future) => final(self).state() == ContextState::<C, F>::Future(
                    future,
                ),
            },
    {
        match polled {
            Polled::Ready(context) => {
                self.context_state = ContextState::Context(context);
                true
            },
            Polled::Pending(future) => {
                self.context_state = ContextState::Future(future);
                false
            },
        }
    }

    /// Takes the context back, which may be busy now. An event that it could not handle yet
    /// becomes the next one.
    pub fn handled(&mut self, context_state: ContextState<C, F>, returned: Option<V>)
        requires
            old(self).state() is Taken,
            !(context_state is Taken),
        ensures
            final(self).state() == context_state,
            final(self).waiting() == match returned {
                Some(event) => after_return(old(self).waiting(), event),
                None => old(self).waiting(),
            },
            returned matches Some(event) ==> final(self).waiting() == seq![event] + old(
                self).waiting(),
    {
        match returned {
            Some(event) => {
                self.waiting_layer_shell_events.push_front(event);
            },
            None => {},
        }
        self.context_state = context_state;
    }
}

impl<C, F, R, W, M, H> EventLoop<C, F, WaitingLayerShellEvent<R, W, M, H>> {
    /// Takes an event of the layer shell, which waits behind those that are there already.
    ///
    /// Returns what the layer shell is answered, and whether a virtual keyboard has to be created
    /// now: that is when the globals can be bound and a keyboard is wanted.
    pub fn receive(
        &mut self,
        event: LayerEvent<R, W, M, H>,
        virtual_keyboard_support: bool,
    ) -> (received: (ReturnData, bool))
        ensures
            received.0 == answer(event),
            received.1 == (event is BindProvide && virtual_keyboard_support),
            final(self).state() == old(self).state(),
            final(self).waiting() == after_arrival(old(self).waiting(), waiting_part(event)),
            received.0 == ReturnData::RequestBind <==> event is InitRequest,
            received.0 == ReturnData::NoRequest <==> !(event is InitRequest),
            match event {
                LayerEvent::BindProvide(region) => final(self).waiting() == old(
                    self).waiting().push(WaitingLayerShellEvent::UpdateInputRegion(region)),
                LayerEvent::RequestMessages(window) => final(self).waiting() == old(
                    self).waiting().push(WaitingLayerShellEvent::Window(window)),
                LayerEvent::UserEvent(action) => final(self).waiting() == old(
                    self).waiting().push(WaitingLayerShellEvent::UserAction(action)),
                LayerEvent::NormalDispatch => final(self).waiting() == old(self).waiting().push(
                    WaitingLayerShellEvent::NormalDispatch,
                ),
                _ => final(self).waiting() == old(self).waiting(),
            },
    {
        let mut def_returndata = ReturnData::NoRequest;
        let mut create_virtual_keyboard = false;
        match event {
            LayerEvent::InitRequest => {
                def_returndata = ReturnData::RequestBind;
            },
            LayerEvent::BindProvide(region) => {
                self.waiting_layer_shell_events.push_back(
                    WaitingLayerShellEvent::UpdateInputRegion(region),
                );
                create_virtual_keyboard = virtual_keyboard_support;
            },
            LayerEvent::RequestMessages(event) => {
                self.waiting_layer_shell_events.push_back(WaitingLayerShellEvent::Window(event));
            },
            LayerEvent::UserEvent(action) => {
                self.waiting_layer_shell_events.push_back(
                    WaitingLayerShellEvent::UserAction(action),
                );
            },
            LayerEvent::NormalDispatch => {
                self.waiting_layer_shell_events.push_back(WaitingLayerShellEvent::NormalDispatch);
            },
            LayerEvent::Other => {},
        }
        assert(self.waiting() =~= old(self).waiting() + waiting_part(event));
        (def_returndata, create_virtual_keyboard)
    }
}

/// What happens to the events that wait.
pub enum LoopOp<V> {
    /// An event arrives.
    Arrive(V),
    /// The next event is handed to the context.
    Take,
    /// The context has handled the event.
    Finish,
    /// The context could not handle the event yet.
    GiveBack,
}

/// The events that wait, the one that the context has, and those that it has handled.
pub struct LoopHistory<V> {
    pub handled: Seq<V>,
    pub in_hand: Seq<V>,
    pub waiting: Seq<V>,
}

impl<V> LoopHistory<V> {
    /// Whether the loop allows the operation: the context has one event at most.
    pub open spec fn allows(self, op: LoopOp<V>) -> bool {
        match op {
            LoopOp::Arrive(_) => true,
            LoopOp::Take => self.in_hand.len() == 0 && self.waiting.len() > 0,
            LoopOp::Finish => self.in_hand.len() == 1,
            LoopOp::GiveBack => self.in_hand.len() == 1,
        }
    }

    /// What the operation does, with the waiting events as [`EventLoop`] changes them.
    pub open spec fn after(self, op: LoopOp<V>) -> LoopHistory<V> {
        match op {
            LoopOp::Arrive(event) => LoopHistory {
                waiting: after_arrival(self.waiting, seq![event]),
                ..self
            },
            LoopOp::Take => LoopHistory {
                in_hand: seq![self.waiting[0]],
                waiting: after_take(self.waiting),
                ..self
            },
            LoopOp::Finish => LoopHistory {
                handled: self.handled + self.in_hand,
                in_hand: Seq::empty(),
                ..self
            },
            LoopOp::GiveBack => LoopHistory {
                in_hand: Seq::empty(),
                waiting: after_return(self.waiting, self.in_hand[0]),
                ..self
            },
        }
    }

    /// What a row of operations does.
    pub open spec fn after_all(self, ops: Seq<LoopOp<V>>) -> LoopHistory<V>
        decreases ops.len(),
    {
        if ops.len() == 0 {
            self
        } else {
            self.after_all(ops.drop_last()).after(ops.last())
        }
    }

    /// Whether the loop allows a row of operations.
    pub open spec fn allows_all(self, ops: Seq<LoopOp<V>>) -> bool
        decreases ops.len(),
    {
        ops.len() > 0 ==> self.allows_all(ops.drop_last()) && self.after_all(
            ops.drop_last(),
        ).allows(ops.last())
    }

    /// All events that ever came, the oldest first.
    pub open spec fn all(self) -> Seq<V> {
        self.handled + self.in_hand + self.waiting
    }
}

/// The events that arrive in a row of operations.
pub open spec fn arrivals<V>(ops: Seq<LoopOp<V>>) -> Seq<V>
    decreases ops.len(),
{
    if ops.len() == 0 {
        Seq::empty()
    } else {
        match ops.last() {
            LoopOp::Arrive(event) => arrivals(ops.drop_last()).push(event),
            _ => arrivals(ops.drop_last()),
        }
    }
}

/// Events are handled in the order in which they arrive. None is lost and none is handled twice,
/// also when the context gives one back: whatever the loop does, the events that were handled,
/// the one that the context has, and those that wait are all that came, in their order.
pub proof fn law_events_keep_their_order<V>(start: LoopHistory<V>, ops: Seq<LoopOp<V>>)
    requires
        start.allows_all(ops),
    ensures
        start.after_all(ops).all() == start.all() + arrivals(ops),
    decreases ops.len(),
{
    if ops.len() == 0 {
        assert(start.all() + arrivals(ops) =~= start.all());
    } else {
        let before = ops.drop_last();
        law_events_keep_their_order(start, before);
        let history = start.after_all(before);
        match ops.last() {
            LoopOp::Arrive(event) => {
                assert(history.after(ops.last()).all() =~= history.all() + seq![event]);
                assert(start.all() + arrivals(before) + seq![event] =~= start.all() + arrivals(ops));
            },
            _ => {
                assert(history.after(ops.last()).all() =~= history.all());
            },
        }
    }
}

/// An event that is given back is the next one again, ahead of what arrived in the meantime.
pub proof fn law_returned_event_is_next<V>(waiting: Seq<V>, arrived: Seq<V>)
    requires
        waiting.len() > 0,
    ensures
        after_return(after_arrival(after_take(waiting), arrived), waiting[0]) == after_arrival(
            waiting,
            arrived,
        ),
{
    assert(seq![waiting[0]] + (waiting.skip(1) + arrived) =~= waiting + arrived);
}

/// What waits is a queue: an arrival waits behind all others, the one that waits longest is taken,
/// and one that is given back is taken next.
pub proof fn law_waiting_events_are_a_queue<V>(waiting: Seq<V>, event: V)
    ensures
        after_arrival(waiting, seq![event]).last() == event,
        after_arrival(waiting, seq![event]).drop_last() == waiting,
        after_arrival(waiting, Seq::empty()) == waiting,
        waiting.len() > 0 ==> seq![waiting[0]] + after_take(waiting) == waiting,
        after_return(waiting, event)[0] == event,
        after_take(after_return(waiting, event)) == waiting,
{
    assert(after_arrival(waiting, seq![event]).drop_last() =~= waiting);
    assert(after_arrival(waiting, Seq::empty()) =~= waiting);
    if waiting.len() > 0 {
        assert(seq![waiting[0]] + after_take(waiting) =~= waiting);
    }
    assert(after_take(after_return(waiting, event)) =~= waiting);
}

} // verus!
