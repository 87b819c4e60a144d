//! What becomes of the messages for the application, in whole events and in rows of them.
use crate::action::LayershellCustomActions;
use crate::application::{Platform, Reply};
use crate::dispatch::{Dispatch, DispatchEffect, DispatchReply};
use crate::event::WaitingLayerShellEvent;
use crate::handling::{
    dispatch_parts_of, law_dispatch_event_follows_script, lemma_dispatch_step_of_event,
    lemma_first_dispatch_parts, lemma_no_dispatch_parts, EventHistory, EventRun,
};
use crate::update::UpdateEffect;
use vstd::prelude::*;

verus! {

/// The messages that the parts of a dispatch feed to the application, in their order.
pub open spec fn fed_by<E, M, T>(parts: Seq<DispatchEffect<E, M, T>>) -> Seq<M>
    decreases parts.len(),
{
    if parts.len() == 0 {
        Seq::empty()
    } else {
        let before = fed_by(parts.drop_last());
        match parts.last() {
            DispatchEffect::Update(UpdateEffect::Feed(message)) => before.push(message),
            _ => before,
        }
    }
}

/// The messages that an answer brings: those that the interface produced.
pub open spec fn brought_by<P: Platform>(reply: Reply<P>) -> Seq<P::Message> {
    match reply {
        Reply::Refresh { produced, .. } => produced@,
        Reply::Dispatch(DispatchReply::Updated { produced, .. }) => produced@,
        _ => Seq::empty(),
    }
}

/// The messages that a dispatch has taken and not fed yet.
pub open spec fn in_flight<M>(dispatch: Dispatch<M>) -> Seq<M> {
    match dispatch {
        Dispatch::Feeding { update, .. } => update@,
        _ => Seq::empty(),
    }
}

impl<P: Platform> EventRun<P> {
    /// The message that the event itself brings, if its output is one.
    pub open spec fn output_message(self) -> Seq<P::Message> {
        match self.output {
            Some(Err(message)) => seq![message],
            _ => Seq::empty(),
        }
    }

    /// The messages that came with the first `steps` steps, in their order.
    pub open spec fn came_so_far(self, steps: int) -> Seq<P::Message>
        decreases steps,
    {
        if steps <= 0 {
            Seq::empty()
        } else if steps == 1 {
            self.output_message()
        } else {
            self.came_so_far(steps - 1) + brought_by(self.replies[steps - 2])
        }
    }

    /// All messages that came while the event was handled, in their order.
    pub open spec fn came(self) -> Seq<P::Message> {
        self.came_so_far(self.effects.len() as int)
    }

    /// All messages that were fed to the application while the event was handled, in their order.
    pub open spec fn fed(self) -> Seq<P::Message> {
        fed_by(self.dispatch_parts())
    }
}

proof fn lemma_fed_by_both<E, M, T>(
    first: Seq<DispatchEffect<E, M, T>>,
    second: Seq<DispatchEffect<E, M, T>>,
)
    ensures
        fed_by(first + second) == fed_by(first) + fed_by(second),
    decreases second.len(),
{
    if second.len() == 0 {
        assert(first + second =~= first);
        assert(fed_by(first) + fed_by(second) =~= fed_by(first));
    } else {
        lemma_fed_by_both(first, second.drop_last());
        assert((first + second).drop_last() =~= first + second.drop_last());
        assert((first + second).last() == second.last());
        assert(fed_by(first + second) =~= fed_by(first) + fed_by(second));
    }
}

proof fn lemma_feeds_nothing<E, M, T>(parts: Seq<DispatchEffect<E, M, T>>)
    requires
        forall|p: int|
            0 <= p < parts.len() ==> !((#[trigger] parts[p]) matches DispatchEffect::Update(effect)
                && effect is Feed),
    ensures
        fed_by(parts) == Seq::<M>::empty(),
    decreases parts.len(),
{
    if parts.len() > 0 {
        assert forall|p: int| 0 <= p < parts.drop_last().len() implies !((
        #[trigger] parts.drop_last()[p]) matches DispatchEffect::Update(effect)
            && effect is Feed) by {
            assert(parts.drop_last()[p] == parts[p]);
        }
        lemma_feeds_nothing(parts.drop_last());
        assert(!(parts[parts.len() - 1] matches DispatchEffect::Update(effect) && effect is Feed));
    }
}

/// Parts whose last one alone feeds a message.
proof fn lemma_feeds_last<E, M, T>(parts: Seq<DispatchEffect<E, M, T>>, message: M)
    requires
        parts.len() > 0,
        parts.last() == DispatchEffect::<E, M, T>::Update(UpdateEffect::Feed(message)),
        forall|p: int|
            0 <= p < parts.len() - 1 ==> !((#[trigger] parts[p]) matches DispatchEffect::Update(
                effect,
            ) && effect is Feed),
    ensures
        fed_by(parts) == seq![message],
{
    let earlier = parts.drop_last();
    assert forall|p: int| 0 <= p < earlier.len() implies !((
    #[trigger] earlier[p]) matches DispatchEffect::Update(effect) && effect is Feed) by {
        assert(earlier[p] == parts[p]);
    }
    lemma_feeds_nothing(earlier);
    assert(Seq::<M>::empty().push(message) =~= seq![message]);
}

/// A step of a dispatch neither loses nor doubles a message: what was taken and what was there,
/// with what the answer brings, is what is fed now, what is taken now and what is left.
proof fn lemma_step_keeps_messages<E, M, T>(
    dispatch: Dispatch<M>,
    reply: DispatchReply<M, T>,
    events: (Seq<E>, Seq<E>),
    messages: (Seq<M>, Seq<M>),
    title: (Seq<char>, Seq<char>),
    next: Dispatch<M>,
    parts: Seq<DispatchEffect<E, M, T>>,
)
    requires
        dispatch.stepped(
            reply,
            events.0,
            messages.0,
            title.0,
            next,
            parts,
            events.1,
            messages.1,
            title.1,
        ),
        dispatch is Feeding ==> messages.0.len() == 0,
    ensures
        in_flight(dispatch) + messages.0 + (match reply {
            DispatchReply::Updated { produced, .. } => produced@,
            _ => Seq::<M>::empty(),
        }) == fed_by(parts) + in_flight(next) + messages.1,
        next is Feeding ==> messages.1.len() == 0,
{
    let brought = match reply {
        DispatchReply::Updated { produced, .. } => produced@,
        _ => Seq::<M>::empty(),
    };
    match dispatch {
        Dispatch::Extracting { feed } => {
            if feed && messages.0.len() > 0 {
                lemma_feeds_last(parts, messages.0[0]);
            } else {
                lemma_feeds_nothing(parts);
            }
        },
        Dispatch::Feeding { update, .. } => {
            if update@.len() > 0 {
                lemma_feeds_last(parts, update@[0]);
            } else {
                lemma_feeds_nothing(parts);
            }
        },
        _ => {
            lemma_feeds_nothing(parts);
        },
    }
    assert(in_flight(dispatch) + messages.0 + brought =~= fed_by(parts) + in_flight(next)
        + messages.1);
}

/// What a step after the first does with the messages.
#[verifier::spinoff_prover]
proof fn lemma_messages_at_step<P: Platform>(run: EventRun<P>, i: int) where
    P::Message: TryInto<LayershellCustomActions<P::RegionEdit>, Error = P::Message>,

    requires
        run.valid(),
        0 < i <= run.replies.len(),
        run.dispatch_at(i - 1) is Feeding ==> run.after[i - 1].messages.len() == 0,
    ensures
        in_flight(run.dispatch_at(i - 1)) + run.after[i - 1].messages + brought_by(
            run.replies[i - 1],
        ) == fed_by(dispatch_parts_of(run.effects[i])) + in_flight(run.dispatch_at(i))
            + run.after[i].messages,
        run.dispatch_at(i) is Feeding ==> run.after[i].messages.len() == 0,
{
    assert(run.stepped(i));
    assert(run.stepped(i - 1));
    let parts = dispatch_parts_of(run.effects[i]);
    if run.jobs[i - 1] is Dispatch {
        lemma_dispatch_step_of_event(run, i);
        lemma_first_dispatch_parts(run.effects[i]);
        lemma_step_keeps_messages(
            run.dispatch_at(i - 1),
            run.replies[i - 1]->Dispatch_0,
            (run.after[i - 1].iced_events, run.after[i].iced_events),
            (run.after[i - 1].messages, run.after[i].messages),
            (run.after[i - 1].title, run.after[i].title),
            run.dispatch_at(i),
            parts,
        );
    } else {
        lemma_no_dispatch_parts(run.effects[i]);
        lemma_feeds_nothing(parts);
        assert(in_flight(run.dispatch_at(i - 1)) + run.after[i - 1].messages + brought_by(
            run.replies[i - 1],
        ) =~= fed_by(parts) + in_flight(run.dispatch_at(i)) + run.after[i].messages);
    }
}

#[verifier::spinoff_prover]
proof fn lemma_messages_at_first_step<P: Platform>(run: EventRun<P>) where
    P::Message: TryInto<LayershellCustomActions<P::RegionEdit>, Error = P::Message>,

    requires
        run.valid(),
    ensures
        run.before[0].messages + run.output_message() == run.after[0].messages,
        fed_by(dispatch_parts_of(run.effects[0])) == Seq::<P::Message>::empty(),
        !(run.dispatch_at(0) is Feeding),
{
    assert(run.stepped(0));
    if run.event is NormalDispatch {
        lemma_first_dispatch_parts(run.effects[0]);
    } else {
        lemma_no_dispatch_parts(run.effects[0]);
    }
    lemma_feeds_nothing(dispatch_parts_of(run.effects[0]));
    assert(run.before[0].messages + run.output_message() =~= run.after[0].messages);
}

/// What was so before an addition on both sides is so after it.
proof fn lemma_both_extended<X>(
    start: Seq<X>,
    came: Seq<X>,
    brought: Seq<X>,
    fed: Seq<X>,
    taken: Seq<X>,
    there: Seq<X>,
    fed_now: Seq<X>,
    taken_now: Seq<X>,
    there_now: Seq<X>,
)
    requires
        start + came == fed + taken + there,
        taken + there + brought == fed_now + taken_now + there_now,
    ensures
        start + (came + brought) == (fed + fed_now) + taken_now + there_now,
{
    assert(start + (came + brought) =~= (start + came) + brought);
    assert((fed + taken + there) + brought =~= fed + (taken + there + brought));
    assert(fed + (fed_now + taken_now + there_now) =~= (fed + fed_now) + taken_now + there_now);
}

#[verifier::spinoff_prover]
proof fn lemma_messages_so_far<P: Platform>(run: EventRun<P>, i: int) where
    P::Message: TryInto<LayershellCustomActions<P::RegionEdit>, Error = P::Message>,

    requires
        run.valid(),
        0 <= i <= run.replies.len(),
    ensures
        run.before[0].messages + run.came_so_far(i + 1) == fed_by(run.dispatch_parts_so_far(i + 1))
            + in_flight(run.dispatch_at(i)) + run.after[i].messages,
        run.dispatch_at(i) is Feeding ==> run.after[i].messages.len() == 0,
    decreases i,
{
    let earlier = run.dispatch_parts_so_far(i);
    let parts = dispatch_parts_of(run.effects[i]);
    lemma_fed_by_both(earlier, parts);
    if i == 0 {
        lemma_messages_at_first_step(run);
        assert(fed_by(earlier).len() == 0);
        assert(run.after[0].messages =~= fed_by(run.dispatch_parts_so_far(1)) + in_flight(
            run.dispatch_at(0),
        ) + run.after[0].messages);
    } else {
        lemma_messages_so_far(run, i - 1);
        lemma_messages_at_step(run, i);
        lemma_both_extended(
            run.before[0].messages,
            run.came_so_far(i),
            brought_by(run.replies[i - 1]),
            fed_by(earlier),
            in_flight(run.dispatch_at(i - 1)),
            run.after[i - 1].messages,
            fed_by(parts),
            in_flight(run.dispatch_at(i)),
            run.after[i].messages,
        );
    }
}

/// While an event is handled, no message is lost, doubled or overtaken: those that were there and
/// those that came are, in this order, those that were fed and those that are left.
pub proof fn law_messages_are_fed_or_kept<P: Platform>(run: EventRun<P>) where
    P::Message: TryInto<LayershellCustomActions<P::RegionEdit>, Error = P::Message>,

    requires
        run.valid(),
    ensures
        run.before[0].messages + run.came() == run.fed() + run.end().messages,
{
    let last = run.replies.len() as int;
    lemma_messages_so_far(run, last);
    assert(run.stepped(last));
    assert(run.fed() + Seq::<P::Message>::empty() =~= run.fed());
}

/// A dispatch event leaves no message over when an interface is built.
pub proof fn law_dispatch_event_leaves_no_message<P: Platform>(run: EventRun<P>) where
    P::Message: TryInto<LayershellCustomActions<P::RegionEdit>, Error = P::Message>,

    requires
        run.valid(),
        run.event is NormalDispatch,
        run.before[0].built(),
    ensures
        run.end().messages == Seq::<P::Message>::empty(),
{
    if run.before[0].pending() {
        law_dispatch_event_follows_script(run);
    } else {
        law_messages_are_fed_or_kept(run);
        assert(run.stepped(0));
        if run.replies.len() > 0 {
            lemma_nothing_comes(run, run.replies.len() as int);
        }
        assert(run.before[0].messages + run.came() =~= Seq::<P::Message>::empty());
        assert(run.end().messages.len() == 0);
    }
}

proof fn lemma_nothing_comes<P: Platform>(run: EventRun<P>, i: int) where
    P::Message: TryInto<LayershellCustomActions<P::RegionEdit>, Error = P::Message>,

    requires
        run.valid(),
        0 <= i <= run.replies.len(),
        run.jobs[0] is Resolving || run.jobs[0] is Finished,
    ensures
        run.jobs[i] is Resolving || run.jobs[i] is Finished,
        run.came_so_far(i + 1) == run.output_message(),
    decreases i,
{
    if i > 0 {
        lemma_nothing_comes(run, i - 1);
        assert(run.stepped(i));
        assert(run.came_so_far(i + 1) =~= run.came_so_far(i));
    }
}

/// An output of the application that is no action for the window comes as a message, once. Nothing
/// is fed before the next dispatch.
pub proof fn law_output_comes_once<P: Platform>(run: EventRun<P>) where
    P::Message: TryInto<LayershellCustomActions<P::RegionEdit>, Error = P::Message>,

    requires
        run.valid(),
        run.event matches WaitingLayerShellEvent::UserAction(action) && action is Output,
    ensures
        run.came() == run.output_message(),
        run.fed() == Seq::<P::Message>::empty(),
        run.end().messages == run.before[0].messages + run.output_message(),
{
    let last = run.replies.len() as int;
    assert(run.stepped(0));
    lemma_nothing_comes(run, last);
    law_messages_are_fed_or_kept(run);
    lemma_settled_feeds_nothing(run, last);
    assert(run.fed() + run.end().messages =~= run.end().messages);
}

proof fn lemma_settled_feeds_nothing<P: Platform>(run: EventRun<P>, i: int) where
    P::Message: TryInto<LayershellCustomActions<P::RegionEdit>, Error = P::Message>,

    requires
        run.valid(),
        0 <= i <= run.replies.len(),
        run.jobs[0] is Resolving || run.jobs[0] is Finished,
        !(run.event is NormalDispatch),
    ensures
        fed_by(run.dispatch_parts_so_far(i + 1)) == Seq::<P::Message>::empty(),
    decreases i,
{
    assert(run.stepped(i));
    let earlier = run.dispatch_parts_so_far(i);
    let parts = dispatch_parts_of(run.effects[i]);
    lemma_fed_by_both(earlier, parts);
    if i == 0 {
        assert(earlier.len() == 0);
    } else {
        lemma_nothing_comes(run, i - 1);
        lemma_settled_feeds_nothing(run, i - 1);
    }
    lemma_no_dispatch_parts(run.effects[i]);
    assert(fed_by(earlier) =~= Seq::<P::Message>::empty());
    assert(fed_by(parts) =~= Seq::<P::Message>::empty());
    assert(fed_by(run.dispatch_parts_so_far(i + 1)) =~= Seq::<P::Message>::empty());
}

impl<P: Platform> EventHistory<P> {
    /// The messages that came from the event at `from` to that before `to`, in their order.
    pub open spec fn came_between(self, from: int, to: int) -> Seq<P::Message>
        decreases to - from,
    {
        if to <= from {
            Seq::empty()
        } else {
            self.came_between(from, to - 1) + self.runs[to - 1].came()
        }
    }

    /// The messages that were fed to the application from the event at `from` to that before `to`,
    /// in their order.
    pub open spec fn fed_between(self, from: int, to: int) -> Seq<P::Message>
        decreases to - from,
    {
        if to <= from {
            Seq::empty()
        } else {
            self.fed_between(from, to - 1) + self.runs[to - 1].fed()
        }
    }
}

/// Over any row of events, the messages that were there and those that came are, in this order,
/// those that were fed to the application and those that are left: every message is fed at most
/// once, and none before an earlier one.
pub proof fn law_messages_are_fed_once_in_order<P: Platform>(
    history: EventHistory<P>,
    from: int,
    to: int,
) where P::Message: TryInto<LayershellCustomActions<P::RegionEdit>, Error = P::Message>
    requires
        history.valid(),
        0 <= from < to <= history.runs.len(),
    ensures
        history.runs[from].before[0].messages + history.came_between(from, to)
            == history.fed_between(from, to) + history.runs[to - 1].end().messages,
    decreases to - from,
{
    let start = history.runs[from].before[0].messages;
    let run = history.runs[to - 1];
    assert(history.continues(to - 1));
    law_messages_are_fed_or_kept(run);
    if to == from + 1 {
        assert(history.came_between(from, from).len() == 0);
        assert(history.fed_between(from, from).len() == 0);
        assert(history.came_between(from, to) =~= run.came());
        assert(history.fed_between(from, to) =~= run.fed());
    } else {
        law_messages_are_fed_once_in_order(history, from, to - 1);
        let came = history.came_between(from, to - 1);
        let fed = history.fed_between(from, to - 1);
        let left = history.runs[to - 2].end().messages;
        assert(start + (came + run.came()) =~= (start + came) + run.came());
        assert((fed + left) + run.came() =~= fed + (left + run.came()));
        assert(fed + (run.fed() + run.end().messages) =~= (fed + run.fed()) + run.end().messages);
    }
}

/// A dispatch with an interface feeds everything that has come and was not fed yet, in its order:
/// after it, what was there at the beginning of a row of events and what came since is exactly
/// what was fed. So an output waits for the next such dispatch only, and no later dispatch feeds
/// it again.
pub proof fn law_next_dispatch_feeds_all_that_came<P: Platform>(
    history: EventHistory<P>,
    from: int,
    dispatch: int,
) where P::Message: TryInto<LayershellCustomActions<P::RegionEdit>, Error = P::Message>
    requires
        history.valid(),
        0 <= from <= dispatch < history.runs.len(),
        history.runs[dispatch].event is NormalDispatch,
        history.runs[dispatch].before[0].built(),
    ensures
        history.fed_between(from, dispatch + 1) == history.runs[from].before[0].messages
            + history.came_between(from, dispatch + 1),
        forall|to: int|
            dispatch + 1 < to <= history.runs.len() ==> #[trigger] history.came_between(
                dispatch + 1,
                to,
            ) == history.fed_between(dispatch + 1, to) + history.runs[to - 1].end().messages,
{
    assert(history.continues(dispatch));
    law_messages_are_fed_once_in_order(history, from, dispatch + 1);
    law_dispatch_event_leaves_no_message(history.runs[dispatch]);
    let fed = history.fed_between(from, dispatch + 1);
    assert(fed + Seq::<P::Message>::empty() =~= fed);
    assert forall|to: int| dispatch + 1 < to <= history.runs.len() implies #[trigger] history.came_between(
        dispatch + 1,
        to,
    ) == history.fed_between(dispatch + 1, to) + history.runs[to - 1].end().messages by {
        assert(history.continues(dispatch + 1));
        law_messages_are_fed_once_in_order(history, dispatch + 1, to);
        assert(Seq::<P::Message>::empty() + history.came_between(dispatch + 1, to)
            =~= history.came_between(dispatch + 1, to));
    }
}

/// The event for the interface that an answer brings, if it brings one.
pub open spec fn arrived_with<P: Platform>(reply: Reply<P>) -> Seq<P::Event> {
    match reply {
        Reply::Converted(Some(event)) => seq![event],
        _ => Seq::empty(),
    }
}

impl<P: Platform> EventRun<P> {
    /// The events for the interface that arrived with the first `steps` steps, in their order.
    pub open spec fn arrived_so_far(self, steps: int) -> Seq<P::Event>
        decreases steps,
    {
        if steps <= 1 {
            Seq::empty()
        } else {
            self.arrived_so_far(steps - 1) + arrived_with(self.replies[steps - 2])
        }
    }

    /// The events that the interface had processed, as the answer to the step before reports: all
    /// that were pending then.
    pub open spec fn processed_at(self, step: int) -> Seq<P::Event> {
        if step > 0 && (self.replies[step - 1] matches Reply::Dispatch(reply)
            && reply is Updated) {
            self.before[step].iced_events
        } else {
            Seq::empty()
        }
    }

    /// The events that the interface had processed in the first `steps` steps, in their order.
    pub open spec fn processed_so_far(self, steps: int) -> Seq<P::Event>
        decreases steps,
    {
        if steps <= 0 {
            Seq::empty()
        } else {
            self.processed_so_far(steps - 1) + self.processed_at(steps - 1)
        }
    }

    /// All events for the interface that arrived while the event was handled, in their order.
    pub open spec fn arrived(self) -> Seq<P::Event> {
        self.arrived_so_far(self.effects.len() as int)
    }

    /// All events that the interface processed in dispatches while the event was handled, in their
    /// order.
    pub open spec fn processed(self) -> Seq<P::Event> {
        self.processed_so_far(self.effects.len() as int)
    }
}

proof fn lemma_events_so_far<P: Platform>(run: EventRun<P>, i: int) where
    P::Message: TryInto<LayershellCustomActions<P::RegionEdit>, Error = P::Message>,

    requires
        run.valid(),
        0 <= i <= run.replies.len(),
    ensures
        run.before[0].iced_events + run.arrived_so_far(i + 1) == run.processed_so_far(i + 1)
            + run.after[i].iced_events,
    decreases i,
{
    assert(run.stepped(i));
    let start = run.before[0].iced_events;
    if i == 0 {
        assert(run.arrived_so_far(1).len() == 0);
        assert(run.processed_so_far(0).len() == 0);
        assert(run.processed_at(0).len() == 0);
        assert(start + run.arrived_so_far(1) =~= run.processed_so_far(1)
            + run.after[0].iced_events);
    } else {
        lemma_events_so_far(run, i - 1);
        assert(run.stepped(i - 1));
        let earlier = run.processed_so_far(i);
        let pending = run.after[i - 1].iced_events;
        let arrived = arrived_with(run.replies[i - 1]);
        assert(run.before[i].iced_events == pending);
        if run.jobs[i - 1] is Dispatch {
            lemma_dispatch_step_of_event(run, i);
        }
        assert(pending + arrived =~= run.processed_at(i) + run.after[i].iced_events);
        assert(start + (run.arrived_so_far(i) + arrived) =~= (start + run.arrived_so_far(i))
            + arrived);
        assert((earlier + pending) + arrived =~= earlier + (pending + arrived));
        assert(earlier + (run.processed_at(i) + run.after[i].iced_events) =~= (earlier
            + run.processed_at(i)) + run.after[i].iced_events);
    }
}

/// While an event is handled, no event for the interface is lost, doubled or overtaken: those that
/// were pending and those that arrived are, in this order, those that the interface processed and
/// those that are pending in the end.
pub proof fn law_input_events_are_processed_or_kept<P: Platform>(run: EventRun<P>) where
    P::Message: TryInto<LayershellCustomActions<P::RegionEdit>, Error = P::Message>,

    requires
        run.valid(),
    ensures
        run.before[0].iced_events + run.arrived() == run.processed() + run.end().iced_events,
{
    let last = run.replies.len() as int;
    lemma_events_so_far(run, last);
    assert(run.stepped(last));
}

/// A dispatch with an interface lets the interface process everything that is pending, and leaves
/// no event over.
pub proof fn law_dispatch_event_leaves_no_event<P: Platform>(run: EventRun<P>) where
    P::Message: TryInto<LayershellCustomActions<P::RegionEdit>, Error = P::Message>,

    requires
        run.valid(),
        run.event is NormalDispatch,
        run.before[0].built(),
    ensures
        run.end().iced_events == Seq::<P::Event>::empty(),
{
    if run.before[0].pending() {
        law_dispatch_event_follows_script(run);
    } else {
        law_input_events_are_processed_or_kept(run);
        assert(run.stepped(0));
        lemma_nothing_arrives(run, run.replies.len() as int);
        assert(run.before[0].iced_events + run.arrived() =~= Seq::<P::Event>::empty());
        assert(run.end().iced_events.len() == 0);
    }
}

proof fn lemma_nothing_arrives<P: Platform>(run: EventRun<P>, i: int) where
    P::Message: TryInto<LayershellCustomActions<P::RegionEdit>, Error = P::Message>,

    requires
        run.valid(),
        0 <= i <= run.replies.len(),
        run.jobs[0] is Resolving || run.jobs[0] is Finished,
    ensures
        run.jobs[i] is Resolving || run.jobs[i] is Finished,
        run.arrived_so_far(i + 1).len() == 0,
    decreases i,
{
    if i > 0 {
        lemma_nothing_arrives(run, i - 1);
        assert(run.stepped(i));
    }
}

impl<P: Platform> EventHistory<P> {
    /// The events for the interface that arrived from the event at `from` to that before `to`, in
    /// their order.
    pub open spec fn arrived_between(self, from: int, to: int) -> Seq<P::Event>
        decreases to - from,
    {
        if to <= from {
            Seq::empty()
        } else {
            self.arrived_between(from, to - 1) + self.runs[to - 1].arrived()
        }
    }

    /// The events that the interface processed in dispatches from the event at `from` to that
    /// before `to`, in their order.
    pub open spec fn processed_between(self, from: int, to: int) -> Seq<P::Event>
        decreases to - from,
    {
        if to <= from {
            Seq::empty()
        } else {
            self.processed_between(from, to - 1) + self.runs[to - 1].processed()
        }
    }
}

/// Over any row of events, the events for the interface that were pending and those that arrived
/// are, in this order, those that the interface processed in dispatches and those that are still
/// pending: none is lost, doubled or overtaken.
pub proof fn law_input_events_are_processed_once_in_order<P: Platform>(
    history: EventHistory<P>,
    from: int,
    to: int,
) where P::Message: TryInto<LayershellCustomActions<P::RegionEdit>, Error = P::Message>
    requires
        history.valid(),
        0 <= from < to <= history.runs.len(),
    ensures
        history.runs[from].before[0].iced_events + history.arrived_between(from, to)
            == history.processed_between(from, to) + history.runs[to - 1].end().iced_events,
    decreases to - from,
{
    let start = history.runs[from].before[0].iced_events;
    let run = history.runs[to - 1];
    assert(history.continues(to - 1));
    law_input_events_are_processed_or_kept(run);
    if to == from + 1 {
        assert(history.arrived_between(from, from).len() == 0);
        assert(history.processed_between(from, from).len() == 0);
        assert(history.arrived_between(from, to) =~= run.arrived());
        assert(history.processed_between(from, to) =~= run.processed());
    } else {
        law_input_events_are_processed_once_in_order(history, from, to - 1);
        let arrived = history.arrived_between(from, to - 1);
        let processed = history.processed_between(from, to - 1);
        let left = history.runs[to - 2].end().iced_events;
        assert(start + (arrived + run.arrived()) =~= (start + arrived) + run.arrived());
        assert((processed + left) + run.arrived() =~= processed + (left + run.arrived()));
        assert(processed + (run.processed() + run.end().iced_events) =~= (processed
            + run.processed()) + run.end().iced_events);
    }
}

/// The events of the window that reach the interface in one dispatch are told to the subscriptions
/// in the order in which they arrived, each with the status that the interface reported for it.
pub proof fn law_arrived_events_are_told_in_order<P: Platform>(run: EventRun<P>, step: int) where
    P::Message: TryInto<LayershellCustomActions<P::RegionEdit>, Error = P::Message>,

    requires
        run.valid(),
        0 < step <= run.replies.len(),
        run.replies[step - 1] matches Reply::Dispatch(reply) && reply is Updated,
    ensures
        run.after[step].iced_events.len() == 0,
        run.effects[step].len() > 0,
        run.effects[step][0] is Dispatch,
        ({
            let statuses = run.replies[step - 1]->Dispatch_0->statuses@;
            let pending = run.before[step].iced_events;
            forall|i: int|
                0 <= i < pending.len() && i < statuses.len() ==> #[trigger]
                    run.effects[step][0]->Dispatch_0@[i] == (DispatchEffect::<
                    P::Event,
                    P::Message,
                    P::Stream,
                >::Broadcast { event: pending[i], status: statuses[i] })
        }),
{
    assert(run.stepped(step));
    assert(run.stepped(step - 1));
    lemma_dispatch_step_of_event(run, step);
}

} // verus!
