//! Whole events from their beginning to their end, and rows of them: what holds however many
//! answers an event takes.
use crate::action::{window_requests, Action, LayershellCustomActions};
use crate::application::{
    ends_program, law_answer_exits_when_reported, law_event_exits_when_asked,
    law_event_keeps_the_rest, law_handling_keeps_the_rest, law_no_action_waits_after_event,
    law_no_action_waits_at_the_end, reports_exit, requests_exit, ContextView, Effect, Job,
    Platform, Reply, WaitingEvent,
};
use crate::dispatch::{
    joined, law_dispatch_follows_script, leave, occurs_once, occurs_only_at, rebuild, Dispatch,
    DispatchEffect, DispatchReply, DispatchRun,
};
use crate::event::{LayerWindowEvent, WaitingLayerShellEvent};
use crate::refresh::{
    law_refresh_follows_script, refresh_script, Refresh, RefreshAnswers, RefreshEffect,
    RefreshReply,
};
use iced_runtime::user_interface::Cache;
use vstd::prelude::*;

verus! {

/// Whether an interface is built once the parts of a refresh are done, where `built` says whether
/// one was before.
pub open spec fn refresh_leaves_built(parts: Seq<RefreshEffect>, built: bool) -> bool {
    built || parts.contains(RefreshEffect::BuildInterface)
}

/// Whether an interface is built once the parts of a dispatch are done, where `built` says
/// whether one was before: building gives it, and extracting ends it.
pub open spec fn dispatch_leaves_built<E, M, T>(
    parts: Seq<DispatchEffect<E, M, T>>,
    built: bool,
) -> bool
    decreases parts.len(),
{
    if parts.len() == 0 {
        built
    } else {
        match parts.last() {
            DispatchEffect::BuildInterface { .. } => true,
            DispatchEffect::Extract => false,
            _ => dispatch_leaves_built(parts.drop_last(), built),
        }
    }
}

/// Whether an interface is built once the effects are performed, where `built` says whether one
/// was before.
pub open spec fn leaves_built<P: Platform>(effects: Seq<Effect<P>>, built: bool) -> bool
    decreases effects.len(),
{
    if effects.len() == 0 {
        built
    } else {
        let before = leaves_built(effects.drop_last(), built);
        match effects.last() {
            Effect::Refresh(parts) => refresh_leaves_built(parts@, before),
            Effect::Dispatch(parts) => dispatch_leaves_built(parts@, before),
            _ => before,
        }
    }
}

/// Whether the event asks for a refresh of the window.
pub open spec fn is_refresh<P: Platform>(event: WaitingEvent<P>) -> bool {
    event matches WaitingLayerShellEvent::Window(LayerWindowEvent::Refresh)
}

/// An event with all answers that its handling got.
///
/// The first step begins to handle the event, and each further step takes an answer. `before` and
/// `after` are the context before and after each step; the last entry of `before` is the context
/// in the end.
pub struct EventRun<P: Platform> {
    pub event: WaitingEvent<P>,
    /// What the output of the application was found to be, if the event is one.
    pub output: Option<Result<LayershellCustomActions<P::RegionEdit>, P::Message>>,
    pub replies: Seq<Reply<P>>,
    pub jobs: Seq<Job<P>>,
    pub effects: Seq<Seq<Effect<P>>>,
    pub before: Seq<ContextView<P>>,
    pub after: Seq<ContextView<P>>,
}

impl<P: Platform> EventRun<P> {
    /// The effects of the step at `i` are performed: the compositor with its surface and renderer
    /// may have been worked with, the interface may have been built, ended or changed, and nothing
    /// else has changed.
    pub open spec fn performed(self, i: int) -> bool {
        &&& self.before[i + 1].compositor_context is Some
        &&& self.before[i + 1].built() == leaves_built(self.effects[i], self.after[i].built())
        &&& self.before[i + 1] == (ContextView {
            compositor_context: self.before[i + 1].compositor_context,
            user_interface: self.before[i + 1].user_interface,
            ..self.after[i]
        })
    }

    /// The context as it is once the output that the event brings is filed.
    pub open spec fn filed(self) -> ContextView<P> {
        match self.output {
            Some(output) => self.before[0].output_filed(output),
            None => self.before[0],
        }
    }

    /// The context in the end.
    pub open spec fn end(self) -> ContextView<P> {
        self.before.last()
    }

    /// The parts of a refresh that the step at `i` asks for.
    pub open spec fn refresh_parts_at(self, i: int) -> Seq<RefreshEffect> {
        self.effects[i][0]->Refresh_0@
    }

    /// All parts of the refresh that the event asks for.
    pub open spec fn refresh_parts(self) -> Seq<RefreshEffect> {
        self.refresh_parts_at(1) + self.refresh_parts_at(2) + self.refresh_parts_at(3)
            + self.refresh_parts_at(4)
    }

    /// What was answered to the refresh that the event asks for.
    pub open spec fn refresh_reply(self, i: int) -> RefreshReply {
        self.replies[i]->Refresh_reply
    }

    /// The answers to the refresh that the event asks for.
    pub open spec fn refresh_answers(self) -> RefreshAnswers {
        RefreshAnswers {
            fitted: (
                self.refresh_reply(1)->Viewport_width,
                self.refresh_reply(1)->Viewport_height,
            ),
            scale_changed: self.refresh_reply(1)->scale_changed,
            statuses: self.refresh_reply(2)->statuses,
            interaction: self.refresh_reply(3)->interaction,
            pointer: self.refresh_reply(3)->pointer,
        }
    }

    /// Whether the step at `i` asks for parts of a refresh.
    pub open spec fn refreshes(self, i: int) -> bool {
        exists|e: int| 0 <= e < self.effects[i].len() && (#[trigger] self.effects[i][e]) is Refresh
    }

    /// Whether the window is opened: a refresh builds its interface from nothing, or the interface
    /// or the subscriptions are told that it is open.
    pub open spec fn opens(self) -> bool {
        exists|i: int, e: int|
            {
                &&& 0 <= i < self.effects.len()
                &&& 0 <= e < self.effects[i].len()
                &&& opening(#[trigger] self.effects[i][e])
            }
    }
}

/// Whether a part of a refresh opens the window.
pub open spec fn opening_part(part: RefreshEffect) -> bool {
    match part {
        RefreshEffect::BuildInterface => true,
        RefreshEffect::UpdateInterface { opened } => opened,
        RefreshEffect::Broadcast { event, .. } => event is Opened,
        _ => false,
    }
}

/// Whether an effect holds a part that opens the window.
pub open spec fn opening<P: Platform>(effect: Effect<P>) -> bool {
    effect matches Effect::Refresh(parts) && exists|p: int|
        0 <= p < parts@.len() && opening_part(#[trigger] parts@[p])
}

impl<P: Platform> EventRun<P> where
    P::Message: TryInto<LayershellCustomActions<P::RegionEdit>, Error = P::Message>,
 {
    /// The output is what the event's message was found to be: an action for the window or a
    /// message, which is filed at once.
    pub open spec fn output_found(self) -> bool {
        match self.event {
            WaitingLayerShellEvent::UserAction(Action::Output(message)) => {
                &&& self.output is Some
                &&& call_ensures(
                    <P::Message as TryInto<LayershellCustomActions<P::RegionEdit>>>::try_into,
                    (message,),
                    self.output->0,
                )
                &&& self.filed().settled(self.after[0], self.jobs[0])
                &&& self.effects[0] == self.filed().settling()
            },
            _ => self.output is None,
        }
    }

    /// What the step at `i` does follows from how things stood before it. Each answer is one that
    /// is waited for.
    pub open spec fn follows(self, i: int) -> bool {
        if i == 0 {
            &&& self.before[0].event_begun(
                self.event,
                self.after[0],
                self.jobs[0],
                self.effects[0],
            )
            &&& self.output_found()
        } else {
            &&& self.jobs[i - 1].expects(self.replies[i - 1])
            &&& self.before[i].resumed(
                self.jobs[i - 1],
                self.replies[i - 1],
                self.after[i],
                self.jobs[i],
                self.effects[i],
            )
        }
    }

    /// The step at `i` is done and its effects are performed.
    pub open spec fn stepped(self, i: int) -> bool {
        self.follows(i) && self.performed(i)
    }

    /// The event is handled step by step, from a context with a compositor to the end.
    pub open spec fn valid(self) -> bool {
        &&& self.jobs.len() == self.replies.len() + 1
        &&& self.effects.len() == self.replies.len() + 1
        &&& self.after.len() == self.replies.len() + 1
        &&& self.before.len() == self.replies.len() + 2
        &&& self.before[0].compositor_context is Some
        &&& self.jobs.last() is Finished
        &&& forall|i: int| 0 <= i <= self.replies.len() ==> #[trigger] self.stepped(i)
    }
}

proof fn lemma_run_so_far<P: Platform>(run: EventRun<P>, i: int) where
    P::Message: TryInto<LayershellCustomActions<P::RegionEdit>, Error = P::Message>,

    requires
        run.valid(),
        0 <= i <= run.replies.len(),
    ensures
        run.after[i].tidy(run.jobs[i]),
        run.before[i + 1].iced_id == run.before[0].iced_id,
        run.before[i + 1].fonts == run.before[0].fonts,
        run.before[i + 1].wl_input_region == run.after[0].wl_input_region,
        run.after[i].user_interface == run.before[i].user_interface,
    decreases i,
{
    assert(run.stepped(i));
    if i == 0 {
        law_no_action_waits_after_event(
            run.before[0],
            run.event,
            run.after[0],
            run.jobs[0],
            run.effects[0],
        );
        law_event_keeps_the_rest(
            run.before[0],
            run.event,
            run.after[0],
            run.jobs[0],
            run.effects[0],
        );
    } else {
        lemma_run_so_far(run, i - 1);
        assert(run.stepped(i - 1));
        law_no_action_waits_at_the_end(
            run.before[i],
            run.jobs[i - 1],
            run.replies[i - 1],
            run.after[i],
            run.jobs[i],
            run.effects[i],
        );
        law_handling_keeps_the_rest(
            run.before[i],
            run.jobs[i - 1],
            run.replies[i - 1],
            run.after[i],
            run.jobs[i],
            run.effects[i],
        );
    }
}

/// However an event is handled, in the end no action for the window waits any more. The window is
/// the same and still has a compositor, and its input region changes only when a new one is
/// provided.
pub proof fn law_event_is_handled_completely<P: Platform>(run: EventRun<P>) where
    P::Message: TryInto<LayershellCustomActions<P::RegionEdit>, Error = P::Message>,

    requires
        run.valid(),
    ensures
        run.end().waiting_layer_shell_actions == Seq::<
            LayershellCustomActions<P::RegionEdit>,
        >::empty(),
        run.end().iced_id == run.before[0].iced_id,
        run.end().fonts == run.before[0].fonts,
        run.end().compositor_context is Some,
        run.end().wl_input_region == (match run.event {
            WaitingLayerShellEvent::UpdateInputRegion(region) => Some(region),
            _ => run.before[0].wl_input_region,
        }),
{
    let last = run.replies.len() as int;
    lemma_run_so_far(run, last);
    assert(run.stepped(last));
    assert(run.stepped(0));
    law_event_keeps_the_rest(run.before[0], run.event, run.after[0], run.jobs[0], run.effects[0]);
}

/// While an event is handled, the exit is asked for exactly when the window is closed, when a
/// task closes it or exits, or when an answer is that the application should be terminated.
pub proof fn law_exit_only_when_asked<P: Platform>(run: EventRun<P>) where
    P::Message: TryInto<LayershellCustomActions<P::RegionEdit>, Error = P::Message>,

    requires
        run.valid(),
    ensures
        (exists|i: int| 0 <= i < run.effects.len() && requests_exit(#[trigger] run.effects[i])) <==> {
            ||| ends_program::<P>(run.event)
            ||| exists|i: int| 0 <= i < run.replies.len() && reports_exit(#[trigger] run.replies[i])
        },
{
    assert(run.stepped(0));
    law_event_exits_when_asked(run.before[0], run.event, run.after[0], run.jobs[0], run.effects[0]);
    assert forall|i: int| 0 <= i < run.replies.len() implies requests_exit(
        #[trigger] run.effects[i + 1],
    ) == reports_exit(run.replies[i]) by {
        assert(run.stepped(i + 1));
        law_answer_exits_when_reported(
            run.before[i + 1],
            run.jobs[i],
            run.replies[i],
            run.after[i + 1],
            run.jobs[i + 1],
            run.effects[i + 1],
        );
    }
    if exists|i: int| 0 <= i < run.effects.len() && requests_exit(#[trigger] run.effects[i]) {
        let i = choose|i: int| 0 <= i < run.effects.len() && requests_exit(
            #[trigger] run.effects[i],
        );
        if i > 0 {
            assert(requests_exit(run.effects[(i - 1) + 1]));
            assert(reports_exit(run.replies[i - 1]));
        }
    }
    if exists|i: int| 0 <= i < run.replies.len() && reports_exit(#[trigger] run.replies[i]) {
        let i = choose|i: int| 0 <= i < run.replies.len() && reports_exit(
            #[trigger] run.replies[i],
        );
        assert(requests_exit(run.effects[i + 1]));
    }
}

proof fn lemma_resolving<P: Platform>(
    run: EventRun<P>,
    k: int,
    actions: Seq<LayershellCustomActions<P::RegionEdit>>,
    i: int,
) where P::Message: TryInto<LayershellCustomActions<P::RegionEdit>, Error = P::Message>
    requires
        run.valid(),
        0 <= k <= run.replies.len(),
        run.jobs[k] matches Job::Resolving(waited) && waited@ == actions,
        0 <= i <= run.replies.len() - k,
    ensures
        actions.len() > 0,
        i <= actions.len(),
        i < actions.len() ==> (run.jobs[k + i] matches Job::Resolving(rest) && rest@
            == actions.skip(i)),
        i == actions.len() ==> run.jobs[k + i] is Finished,
    decreases i,
{
    if i == 0 {
        assert(actions.skip(0) =~= actions);
        assert(run.stepped(k));
    } else {
        lemma_resolving(run, k, actions, i - 1);
        assert(run.stepped(k + i));
        if i < actions.len() {
            assert(actions.skip(i - 1).skip(1) =~= actions.skip(i));
        }
    }
}

/// Whether an event is still handled, and its actions for the window are not resolved yet.
pub open spec fn is_busy<P: Platform>(job: Job<P>) -> bool {
    !(job is Resolving) && !(job is Finished)
}

impl<P: Platform> EventRun<P> {
    /// Whether the step at `i` asks for a call on the window.
    pub open spec fn calls_window(self, i: int) -> bool {
        exists|e: int| 0 <= e < self.effects[i].len() && (#[trigger] self.effects[i][e]) is Window
    }

    /// The answer at `i` is the size of the window, and leads to the calls of `action` for that
    /// size and to no other calls.
    pub open spec fn resolves(
        self,
        i: int,
        action: LayershellCustomActions<P::RegionEdit>,
    ) -> bool {
        let effects = self.effects[i + 1];
        &&& self.replies[i] matches Reply::WindowSize { width, height }
        &&& effects.len() > 0
        &&& effects[0] matches Effect::Window(requests)
        &&& requests@ == window_requests(
            action,
            self.end().wl_input_region is Some,
            (width, height),
        )
        &&& forall|e: int| 0 < e < effects.len() ==> !((#[trigger] effects[e]) is Window)
    }

    /// No step up to `k` calls the window. From then on every answer resolves the next one of the
    /// actions that waited before the event, and at last the one that the event itself has filed.
    pub open spec fn resolves_from(self, k: int) -> bool {
        let actions = self.filed().waiting_layer_shell_actions;
        &&& 0 <= k <= self.replies.len()
        &&& self.replies.len() == k + actions.len()
        &&& actions.len() > 0 ==> (self.jobs[k] matches Job::Resolving(rest) && rest@ == actions)
        &&& forall|i: int| 0 <= i <= k ==> !(#[trigger] self.calls_window(i))
        &&& forall|i: int|
            k <= i < self.replies.len() ==> #[trigger] self.resolves(i, actions[i - k])
    }
}

proof fn lemma_first_settled<P: Platform>(run: EventRun<P>, i: int) -> (k: int) where
    P::Message: TryInto<LayershellCustomActions<P::RegionEdit>, Error = P::Message>,

    requires
        run.valid(),
        0 <= i <= run.replies.len(),
        forall|j: int| 0 <= j < i ==> is_busy(#[trigger] run.jobs[j]),
    ensures
        i <= k <= run.replies.len(),
        !is_busy(run.jobs[k]),
        forall|j: int| 0 <= j < k ==> is_busy(#[trigger] run.jobs[j]),
    decreases run.replies.len() - i,
{
    if is_busy(run.jobs[i]) {
        lemma_first_settled(run, i + 1)
    } else {
        i
    }
}

proof fn lemma_busy<P: Platform>(run: EventRun<P>, i: int) where
    P::Message: TryInto<LayershellCustomActions<P::RegionEdit>, Error = P::Message>,

    requires
        run.valid(),
        0 <= i <= run.replies.len(),
        forall|j: int| 0 <= j <= i ==> is_busy(#[trigger] run.jobs[j]),
    ensures
        run.output is None,
        run.after[i].waiting_layer_shell_actions == run.before[0].waiting_layer_shell_actions,
        !run.calls_window(i),
    decreases i,
{
    assert(run.stepped(i));
    assert(is_busy(run.jobs[i]));
    if i > 0 {
        lemma_busy(run, i - 1);
        assert(run.stepped(i - 1));
        assert(is_busy(run.jobs[i - 1]));
    }
}

/// Every action that waits is resolved once, in the order in which they came, for the size that
/// the window has at that time: first those that waited before the event, then the one that the
/// event itself has filed. The window is not called before the event is done otherwise.
pub proof fn law_waiting_actions_are_resolved_in_order<P: Platform>(run: EventRun<P>) where
    P::Message: TryInto<LayershellCustomActions<P::RegionEdit>, Error = P::Message>,

    requires
        run.valid(),
    ensures
        exists|k: int| #[trigger] run.resolves_from(k),
{
    let actions = run.filed().waiting_layer_shell_actions;
    let last = run.replies.len() as int;
    let k = lemma_first_settled(run, 0);
    assert(run.stepped(k));
    if k > 0 {
        assert(is_busy(run.jobs[k - 1]));
        lemma_busy(run, k - 1);
        assert(run.stepped(k - 1));
    }
    assert(!run.calls_window(k));
    assert forall|i: int| 0 <= i <= k implies !(#[trigger] run.calls_window(i)) by {
        if i < k {
            lemma_busy(run, i);
        }
    }
    if actions.len() > 0 {
        assert(run.jobs[k] matches Job::Resolving(rest) && rest@ == actions);
        lemma_resolving(run, k, actions, last - k);
    } else {
        assert(run.jobs[k] is Finished);
        if k < last {
            assert(run.stepped(k + 1));
        }
    }
    lemma_run_so_far(run, last);
    assert forall|i: int| k <= i < run.replies.len() implies #[trigger] run.resolves(
        i,
        actions[i - k],
    ) by {
        lemma_resolving(run, k, actions, i - k);
        lemma_run_so_far(run, i);
        assert(run.stepped(i + 1));
    }
    assert(run.resolves_from(k));
}

/// The parts of a dispatch among the effects, in their order.
pub open spec fn dispatch_parts_of<P: Platform>(effects: Seq<Effect<P>>) -> Seq<
    DispatchEffect<P::Event, P::Message, P::Stream>,
>
    decreases effects.len(),
{
    if effects.len() == 0 {
        Seq::empty()
    } else {
        dispatch_parts_of(effects.drop_last()) + (match effects.last() {
            Effect::Dispatch(parts) => parts@,
            _ => Seq::empty(),
        })
    }
}

impl<P: Platform> EventRun<P> {
    /// The parts of a dispatch that the first `steps` steps ask for.
    pub open spec fn dispatch_parts_so_far(self, steps: int) -> Seq<
        DispatchEffect<P::Event, P::Message, P::Stream>,
    >
        decreases steps,
    {
        if steps <= 0 {
            Seq::empty()
        } else {
            self.dispatch_parts_so_far(steps - 1) + dispatch_parts_of(self.effects[steps - 1])
        }
    }

    /// All parts of a dispatch that the event asks for, in their order.
    pub open spec fn dispatch_parts(self) -> Seq<
        DispatchEffect<P::Event, P::Message, P::Stream>,
    > {
        self.dispatch_parts_so_far(self.effects.len() as int)
    }

    /// From `i` on, the first step after which no dispatch goes on.
    pub open spec fn dispatch_end(self, i: int) -> int
        decreases self.replies.len() - i,
    {
        if 0 <= i < self.replies.len() && self.jobs[i] is Dispatch {
            self.dispatch_end(i + 1)
        } else {
            i
        }
    }

    /// How a dispatch stands after the step at `i`.
    pub open spec fn dispatch_at(self, i: int) -> Dispatch<P::Message> {
        match self.jobs[i] {
            Job::Dispatch(dispatch) => dispatch,
            _ => Dispatch::Finished,
        }
    }

    /// The dispatch that the event asks for, with the answers that it got.
    pub open spec fn dispatch_run(self) -> DispatchRun<P::Event, P::Message, P::Stream> {
        let end = self.dispatch_end(0);
        DispatchRun {
            replies: Seq::new(end as nat, |i: int| self.replies[i]->Dispatch_0),
            states: Seq::new((end + 1) as nat, |i: int| self.dispatch_at(i)),
            effects: Seq::new(end as nat, |i: int| self.effects[i + 1][0]->Dispatch_0@),
            events: Seq::new((end + 1) as nat, |i: int| self.after[i].iced_events),
            messages: Seq::new((end + 1) as nat, |i: int| self.after[i].messages),
            titles: Seq::new((end + 1) as nat, |i: int| self.after[i].title),
        }
    }
}

pub(crate) proof fn lemma_no_dispatch_parts<P: Platform>(effects: Seq<Effect<P>>)
    requires
        forall|e: int| 0 <= e < effects.len() ==> !((#[trigger] effects[e]) is Dispatch),
    ensures
        dispatch_parts_of(effects) == Seq::<
            DispatchEffect<P::Event, P::Message, P::Stream>,
        >::empty(),
    decreases effects.len(),
{
    if effects.len() > 0 {
        assert forall|e: int| 0 <= e < effects.drop_last().len() implies !((
        #[trigger] effects.drop_last()[e]) is Dispatch) by {
            assert(effects.drop_last()[e] == effects[e]);
        }
        lemma_no_dispatch_parts(effects.drop_last());
        assert(!(effects[effects.len() - 1] is Dispatch));
    }
}

pub(crate) proof fn lemma_first_dispatch_parts<P: Platform>(effects: Seq<Effect<P>>)
    requires
        0 < effects.len() <= 2,
        effects[0] is Dispatch,
        effects.len() == 2 ==> effects[1] is ReadWindowSize,
    ensures
        dispatch_parts_of(effects) == effects[0]->Dispatch_0@,
{
    reveal_with_fuel(dispatch_parts_of, 3);
    let parts = effects[0]->Dispatch_0@;
    if effects.len() == 2 {
        assert(effects.drop_last().last() == effects[0]);
        assert(effects.drop_last().drop_last().len() == 0);
    } else {
        assert(effects.drop_last().len() == 0);
    }
    assert(dispatch_parts_of(effects) =~= parts);
}

/// What a step of a dispatch does, taken from the step of the event.
pub(crate) proof fn lemma_dispatch_step_of_event<P: Platform>(run: EventRun<P>, i: int) where
    P::Message: TryInto<LayershellCustomActions<P::RegionEdit>, Error = P::Message>,

    requires
        run.valid(),
        0 < i <= run.replies.len(),
        run.jobs[i - 1] is Dispatch,
    ensures
        run.replies[i - 1] is Dispatch,
        0 < run.effects[i].len() <= 2,
        run.effects[i][0] is Dispatch,
        run.effects[i].len() == 2 ==> run.effects[i][1] is ReadWindowSize,
        run.dispatch_at(i - 1).stepped(
            run.replies[i - 1]->Dispatch_0,
            run.after[i - 1].iced_events,
            run.after[i - 1].messages,
            run.after[i - 1].title,
            run.dispatch_at(i),
            run.effects[i][0]->Dispatch_0@,
            run.after[i].iced_events,
            run.after[i].messages,
            run.after[i].title,
        ),
        !(run.jobs[i] is Dispatch) ==> run.jobs[i] is Resolving || run.jobs[i] is Finished,
        run.jobs[i] is Dispatch ==> !(run.dispatch_at(i) is Finished),
{
    assert(run.stepped(i));
    assert(run.stepped(i - 1));
    let dispatch = run.dispatch_at(i - 1);
    let (next, parts) = choose|
        next: Dispatch<P::Message>,
        parts: Seq<DispatchEffect<P::Event, P::Message, P::Stream>>,
    |
        {
            &&& #[trigger] dispatch.stepped(
                run.replies[i - 1]->Dispatch_0,
                run.before[i].iced_events,
                run.before[i].messages,
                run.before[i].title,
                next,
                parts,
                run.after[i].iced_events,
                run.after[i].messages,
                run.after[i].title,
            )
            &&& (ContextView {
                iced_events: run.after[i].iced_events,
                messages: run.after[i].messages,
                title: run.after[i].title,
                ..run.before[i]
            }).dispatch_shown(next, parts, run.after[i], run.jobs[i], run.effects[i])
        };
    assert(next == run.dispatch_at(i));
}

proof fn lemma_dispatch_end<P: Platform>(run: EventRun<P>, i: int)
    requires
        0 <= i <= run.replies.len(),
    ensures
        i <= run.dispatch_end(i) <= run.replies.len(),
        forall|j: int| i <= j < run.dispatch_end(i) ==> (#[trigger] run.jobs[j]) is Dispatch,
        run.dispatch_end(i) < run.replies.len() ==> !(run.jobs[run.dispatch_end(i)] is Dispatch),
    decreases run.replies.len() - i,
{
    if i < run.replies.len() && run.jobs[i] is Dispatch {
        lemma_dispatch_end(run, i + 1);
    }
}

proof fn lemma_joined_one_more<X>(parts: Seq<Seq<X>>)
    requires
        parts.len() > 0,
    ensures
        joined(parts) == joined(parts.drop_last()) + parts.last(),
    decreases parts.len(),
{
    reveal_with_fuel(joined, 2);
    if parts.len() == 1 {
        assert(parts.skip(1).len() == 0);
        assert(parts.drop_last().len() == 0);
        assert(joined(parts) =~= joined(parts.drop_last()) + parts.last());
    } else {
        let rest = parts.skip(1);
        lemma_joined_one_more(rest);
        assert(rest.drop_last() =~= parts.drop_last().skip(1));
        assert(rest.last() == parts.last());
        assert(parts.drop_last()[0] == parts[0]);
        assert(joined(parts) =~= joined(parts.drop_last()) + parts.last());
    }
}

proof fn lemma_no_more_dispatch<P: Platform>(run: EventRun<P>, k: int, i: int) where
    P::Message: TryInto<LayershellCustomActions<P::RegionEdit>, Error = P::Message>,

    requires
        run.valid(),
        0 <= k <= i <= run.replies.len(),
        !(run.jobs[k] is Dispatch),
    ensures
        !(run.jobs[i] is Dispatch),
        run.dispatch_parts_so_far(i + 1) == run.dispatch_parts_so_far(k + 1),
    decreases i,
{
    if i > k {
        lemma_no_more_dispatch(run, k, i - 1);
        assert(run.stepped(i));
        lemma_no_dispatch_parts(run.effects[i]);
        assert(run.dispatch_parts_so_far(i + 1) =~= run.dispatch_parts_so_far(i));
    }
}

proof fn lemma_dispatch_parts<P: Platform>(run: EventRun<P>, i: int) where
    P::Message: TryInto<LayershellCustomActions<P::RegionEdit>, Error = P::Message>,

    requires
        run.valid(),
        run.jobs[0] is Dispatch,
        dispatch_parts_of(run.effects[0]) == seq![
            DispatchEffect::<P::Event, P::Message, P::Stream>::UpdateInterface,
        ],
        0 <= i <= run.dispatch_end(0),
    ensures
        run.dispatch_parts_so_far(i + 1) == seq![
            DispatchEffect::<P::Event, P::Message, P::Stream>::UpdateInterface,
        ] + joined(run.dispatch_run().effects.take(i)),
    decreases i,
{
    let effects = run.dispatch_run().effects;
    lemma_dispatch_end(run, 0);
    if i == 0 {
        assert(run.dispatch_parts_so_far(0).len() == 0);
        assert(effects.take(0).len() == 0);
        assert(run.dispatch_parts_so_far(1) =~= seq![
            DispatchEffect::<P::Event, P::Message, P::Stream>::UpdateInterface,
        ] + joined(effects.take(0)));
    } else {
        lemma_dispatch_parts(run, i - 1);
        assert(run.jobs[i - 1] is Dispatch);
        lemma_dispatch_step_of_event(run, i);
        lemma_first_dispatch_parts(run.effects[i]);
        lemma_joined_one_more(effects.take(i));
        assert(effects.take(i).drop_last() =~= effects.take(i - 1));
        assert(effects.take(i).last() == run.effects[i][0]->Dispatch_0@);
        assert(run.dispatch_parts_so_far(i + 1) =~= seq![
            DispatchEffect::<P::Event, P::Message, P::Stream>::UpdateInterface,
        ] + joined(effects.take(i)));
    }
}

/// A dispatch event with something pending and an interface lets the interface process the pending
/// events, and then does exactly what the script of a dispatch says, for the events, messages and
/// title that are there and the answers that it gets. No event and no message is left over, and a
/// refresh is asked for once.
pub proof fn law_dispatch_event_follows_script<P: Platform>(run: EventRun<P>) where
    P::Message: TryInto<LayershellCustomActions<P::RegionEdit>, Error = P::Message>,

    requires
        run.valid(),
        run.event is NormalDispatch,
        run.before[0].pending(),
        run.before[0].built(),
    ensures
        run.dispatch_run().valid(),
        run.dispatch_run().states[0] is Updating,
        run.dispatch_run().states.last() is Finished,
        run.dispatch_run().events[0] == run.before[0].iced_events,
        run.dispatch_run().messages[0] == run.before[0].messages,
        run.dispatch_run().titles[0] == run.before[0].title,
        forall|i: int|
            0 <= i < run.dispatch_run().replies.len() ==> run.replies[i] == Reply::<P>::Dispatch(
                #[trigger] run.dispatch_run().replies[i],
            ),
        run.dispatch_parts() == seq![
            DispatchEffect::<P::Event, P::Message, P::Stream>::UpdateInterface,
        ] + run.dispatch_run().script(),
        run.end().iced_events == Seq::<P::Event>::empty(),
        run.end().messages == Seq::<P::Message>::empty(),
        run.end().title == run.dispatch_run().titles.last(),
        occurs_once(
            run.dispatch_parts(),
            DispatchEffect::<P::Event, P::Message, P::Stream>::RequestRefresh,
        ),
{
    let end = run.dispatch_end(0);
    let dispatch = run.dispatch_run();
    let last = run.replies.len() as int;
    assert(run.stepped(0));
    lemma_dispatch_end(run, 0);
    assert(run.jobs[last] is Finished);
    assert(run.jobs[0] is Dispatch);
    assert(!(run.jobs[end] is Dispatch));
    lemma_first_dispatch_parts(run.effects[0]);
    assert forall|i: int| 0 <= i < end implies #[trigger] dispatch.follows(i) by {
        assert(run.jobs[i] is Dispatch);
        lemma_dispatch_step_of_event(run, i + 1);
    }
    assert forall|i: int| 0 <= i < dispatch.replies.len() implies run.replies[i] == Reply::<
        P,
    >::Dispatch(#[trigger] dispatch.replies[i]) by {
        assert(run.jobs[i] is Dispatch);
        lemma_dispatch_step_of_event(run, i + 1);
    }
    law_dispatch_follows_script(dispatch);
    lemma_dispatch_parts(run, end);
    assert(dispatch.effects.take(end) =~= dispatch.effects);
    lemma_no_more_dispatch(run, end, last);
    lemma_dispatch_end(run, 1);
    assert(run.jobs[end - 1] is Dispatch);
    lemma_dispatch_step_of_event(run, end);
    lemma_dispatch_kept(run, end, last);
    assert(run.stepped(last));
    let refresh = DispatchEffect::<P::Event, P::Message, P::Stream>::RequestRefresh;
    let script = dispatch.script();
    let k = choose|k: int| #[trigger] occurs_only_at(script, refresh, k);
    assert forall|j: int|
        0 <= j < run.dispatch_parts().len() && #[trigger] run.dispatch_parts()[j]
            == refresh implies j == k + 1 by {
        if j > 0 {
            assert(script[j - 1] == refresh);
        }
    }
    assert(occurs_only_at(run.dispatch_parts(), refresh, k + 1));
}

/// Once a dispatch is over, the rest of the event changes neither events, messages nor title.
proof fn lemma_dispatch_kept<P: Platform>(run: EventRun<P>, k: int, i: int) where
    P::Message: TryInto<LayershellCustomActions<P::RegionEdit>, Error = P::Message>,

    requires
        run.valid(),
        0 <= k <= i <= run.replies.len(),
        run.jobs[k] is Resolving || run.jobs[k] is Finished,
    ensures
        run.jobs[i] is Resolving || run.jobs[i] is Finished,
        run.after[i].iced_events == run.after[k].iced_events,
        run.after[i].messages == run.after[k].messages,
        run.after[i].title == run.after[k].title,
    decreases i,
{
    if i > k {
        lemma_dispatch_kept(run, k, i - 1);
        assert(run.stepped(i));
        assert(run.stepped(i - 1));
    }
}

proof fn lemma_parts_keep_built<E, M, T>(parts: Seq<DispatchEffect<E, M, T>>, built: bool)
    requires
        forall|p: int|
            0 <= p < parts.len() ==> !((#[trigger] parts[p]) is BuildInterface)
                && !(parts[p] is Extract),
    ensures
        dispatch_leaves_built(parts, built) == built,
    decreases parts.len(),
{
    if parts.len() > 0 {
        assert forall|p: int| 0 <= p < parts.drop_last().len() implies !((
        #[trigger] parts.drop_last()[p]) is BuildInterface) && !(parts.drop_last()[p] is Extract) by {
            assert(parts.drop_last()[p] == parts[p]);
        }
        lemma_parts_keep_built(parts.drop_last(), built);
        assert(!(parts[parts.len() - 1] is BuildInterface));
    }
}

proof fn lemma_rebuild_builds<E, M, T>(parts: Seq<DispatchEffect<E, M, T>>, built: bool)
    requires
        exists|cache: Option<Cache>, exit: bool|
            parts == #[trigger] rebuild::<E, M, T>(cache) + #[trigger] leave::<E, M, T>(exit),
    ensures
        dispatch_leaves_built(parts, built),
{
    let (cache, exit) = choose|cache: Option<Cache>, exit: bool|
        parts == #[trigger] rebuild::<E, M, T>(cache) + #[trigger] leave::<E, M, T>(exit);
    reveal_with_fuel(dispatch_leaves_built, 4);
    if exit {
        assert(parts.drop_last().last() == DispatchEffect::<E, M, T>::RequestRefresh);
        assert(parts.drop_last().drop_last().last() is BuildInterface);
    } else {
        assert(parts.last() == DispatchEffect::<E, M, T>::RequestRefresh);
        assert(parts.drop_last().last() is BuildInterface);
    }
}

proof fn lemma_effects_keep_built<P: Platform>(effects: Seq<Effect<P>>, built: bool)
    requires
        forall|e: int|
            0 <= e < effects.len() ==> !((#[trigger] effects[e]) is Refresh) && !(
            effects[e] is Dispatch),
    ensures
        leaves_built(effects, built) == built,
    decreases effects.len(),
{
    if effects.len() > 0 {
        assert forall|e: int| 0 <= e < effects.drop_last().len() implies !((
        #[trigger] effects.drop_last()[e]) is Refresh) && !(effects.drop_last()[e] is Dispatch) by {
            assert(effects.drop_last()[e] == effects[e]);
        }
        lemma_effects_keep_built(effects.drop_last(), built);
        assert(!(effects[effects.len() - 1] is Refresh));
    }
}

/// When the first effect is a dispatch and at most the reading of the size follows, the parts of
/// the dispatch decide.
proof fn lemma_dispatch_decides<P: Platform>(effects: Seq<Effect<P>>, built: bool)
    requires
        0 < effects.len() <= 2,
        effects[0] is Dispatch,
        effects.len() == 2 ==> effects[1] is ReadWindowSize,
    ensures
        leaves_built(effects, built) == dispatch_leaves_built(effects[0]->Dispatch_0@, built),
{
    reveal_with_fuel(leaves_built, 3);
    if effects.len() == 2 {
        assert(effects.drop_last().last() == effects[0]);
        assert(effects.drop_last().drop_last().len() == 0);
    } else {
        assert(effects.drop_last().len() == 0);
    }
}

proof fn lemma_refresh_decides<P: Platform>(effects: Seq<Effect<P>>, built: bool)
    requires
        effects.len() == 1,
        effects[0] is Refresh,
    ensures
        leaves_built(effects, built) == refresh_leaves_built(effects[0]->Refresh_0@, built),
{
    reveal_with_fuel(leaves_built, 2);
    assert(effects.drop_last().len() == 0);
}

impl<P: Platform> EventRun<P> {
    /// What is known of the interface after the step at `i`, when one was built at the beginning
    /// or the event asks for a refresh. A dispatch that has ended the interface builds it again
    /// before it is finished.
    spec fn interface_kept(self, i: int) -> bool {
        match self.jobs[i] {
            Job::Measuring => is_refresh::<P>(self.event),
            Job::Refresh(_) => is_refresh::<P>(self.event) && self.before[i + 1].built(),
            Job::Dispatch(dispatch) => dispatch is Updating ==> self.before[i + 1].built(),
            _ => self.before[0].built() || is_refresh::<P>(self.event)
                ==> self.before[i + 1].built(),
        }
    }
}

proof fn lemma_dispatch_step<E, M, T>(
    dispatch: Dispatch<M>,
    reply: DispatchReply<M, T>,
    events: (Seq<E>, Seq<E>),
    messages: (Seq<M>, Seq<M>),
    title: (Seq<char>, Seq<char>),
    next: Dispatch<M>,
    parts: Seq<DispatchEffect<E, M, T>>,
    built: bool,
)
    requires
        dispatch.stepped(
            reply,
            events.0,
            messages.0,
            title.0,
            next,
            parts,
            events.1,
            messages.1,
            title.1,
        ),
        dispatch is Updating ==> built,
    ensures
        !(next is Updating),
        next is Finished ==> dispatch_leaves_built(parts, built),
{
    if next is Finished {
        match dispatch {
            Dispatch::Updating => {
                lemma_parts_keep_built(parts, built);
            },
            Dispatch::Extracting { .. } => {
                let cache = reply->Extracted_cache;
                assert(parts =~= rebuild::<E, M, T>(cache) + leave::<E, M, T>(false));
                lemma_rebuild_builds(parts, built);
            },
            _ => {
                lemma_rebuild_builds(parts, built);
            },
        }
    }
}

proof fn lemma_interface_kept<P: Platform>(run: EventRun<P>, i: int) where
    P::Message: TryInto<LayershellCustomActions<P::RegionEdit>, Error = P::Message>,

    requires
        run.valid(),
        0 <= i <= run.replies.len(),
    ensures
        run.interface_kept(i),
    decreases i,
{
    assert(run.stepped(i));
    lemma_run_so_far(run, i);
    let effects = run.effects[i];
    let built = run.before[i].built();
    if i == 0 {
        if run.event is NormalDispatch {
            lemma_dispatch_decides(effects, built);
            lemma_parts_keep_built(effects[0]->Dispatch_0@, built);
        } else {
            lemma_effects_keep_built(effects, built);
        }
    } else {
        lemma_interface_kept(run, i - 1);
        match run.jobs[i - 1] {
            Job::Measuring => {
                lemma_refresh_decides(effects, built);
                let parts = effects[0]->Refresh_0@;
                if !built {
                    assert(parts[1] == RefreshEffect::BuildInterface);
                }
            },
            Job::Refresh(_) => {
                if run.jobs[i] is Refresh {
                    lemma_refresh_decides(effects, built);
                } else {
                    lemma_effects_keep_built(effects, built);
                }
            },
            Job::Dispatch(dispatch) => {
                lemma_dispatch_step_of_event(run, i);
                assert(run.stepped(i - 1));
                lemma_dispatch_step(
                    dispatch,
                    run.replies[i - 1]->Dispatch_0,
                    (run.after[i - 1].iced_events, run.after[i].iced_events),
                    (run.after[i - 1].messages, run.after[i].messages),
                    (run.after[i - 1].title, run.after[i].title),
                    run.dispatch_at(i),
                    effects[0]->Dispatch_0@,
                    built,
                );
                lemma_dispatch_decides(effects, built);
            },
            _ => {
                lemma_effects_keep_built(effects, built);
            },
        }
    }
}

/// After a refresh the interface is built, and it stays built after every later event.
pub proof fn law_interface_stays_built<P: Platform>(run: EventRun<P>) where
    P::Message: TryInto<LayershellCustomActions<P::RegionEdit>, Error = P::Message>,

    requires
        run.valid(),
        run.before[0].built() || is_refresh::<P>(run.event),
    ensures
        run.end().built(),
{
    lemma_interface_kept(run, run.replies.len() as int);
}

/// A refresh does not begin in the course of another event, nor once it is over.
proof fn lemma_no_more_refresh<P: Platform>(run: EventRun<P>, k: int, i: int) where
    P::Message: TryInto<LayershellCustomActions<P::RegionEdit>, Error = P::Message>,

    requires
        run.valid(),
        0 <= k <= i <= run.replies.len(),
        !(run.jobs[k] is Measuring),
        !(run.jobs[k] is Refresh),
    ensures
        !(run.jobs[i] is Measuring),
        !(run.jobs[i] is Refresh),
        i > k ==> !run.refreshes(i),
    decreases i,
{
    if i > k {
        lemma_no_more_refresh(run, k, i - 1);
        assert(run.stepped(i));
    }
}

/// The course of a refresh: four steps ask for its parts, and no other step does.
proof fn lemma_refresh_course<P: Platform>(run: EventRun<P>) where
    P::Message: TryInto<LayershellCustomActions<P::RegionEdit>, Error = P::Message>,

    requires
        run.valid(),
        is_refresh::<P>(run.event),
    ensures
        run.replies.len() >= 5,
        run.replies[0] is WindowSize,
        ({
            let size = run.replies[0];
            let begun = Refresh::begun(
                run.before[0].built(),
                size->WindowSize_width,
                size->WindowSize_height,
            );
            let compared = begun.0.stepped(run.refresh_reply(1), run.before[0].mouse_interaction);
            let processed = compared.0.stepped(run.refresh_reply(2), compared.2);
            let painted = processed.0.stepped(run.refresh_reply(3), processed.2);
            &&& run.refresh_reply(1) is Viewport
            &&& run.refresh_reply(2) is Updated
            &&& run.refresh_reply(3) is Drawn
            &&& run.refresh_parts_at(1) == begun.1
            &&& run.refresh_parts_at(2) == compared.1
            &&& run.refresh_parts_at(3) == processed.1
            &&& run.refresh_parts_at(4) == painted.1
            &&& run.after[5].mouse_interaction == painted.2
        }),
        forall|i: int| 1 <= i <= 4 ==> (#[trigger] run.effects[i]).len() == 1,
        forall|i: int| 1 <= i <= 4 ==> (#[trigger] run.effects[i])[0] is Refresh,
        forall|i: int|
            0 <= i <= run.replies.len() && !(1 <= i <= 4) ==> !(#[trigger] run.refreshes(i)),
{
    assert(run.stepped(0));
    lemma_run_so_far(run, 0);
    lemma_effects_keep_built(run.effects[0], run.before[0].built());
    assert(run.replies.len() > 0);
    assert(run.stepped(1));
    assert(run.replies.len() > 1);
    assert(run.stepped(2));
    assert(run.replies.len() > 2);
    assert(run.stepped(3));
    assert(run.replies.len() > 3);
    assert(run.stepped(4));
    assert(run.replies.len() > 4);
    assert(run.stepped(5));
    assert forall|i: int| 0 <= i <= run.replies.len() && !(1 <= i <= 4) implies !(
    #[trigger] run.refreshes(i)) by {
        if i > 5 {
            lemma_no_more_refresh(run, 5, i);
        }
    }
}

/// A refresh event does exactly what the script of a refresh says, for the size that the window
/// has and the answers that it gets. No other step of its handling asks for a part of a refresh.
pub proof fn law_refresh_event_follows_script<P: Platform>(run: EventRun<P>) where
    P::Message: TryInto<LayershellCustomActions<P::RegionEdit>, Error = P::Message>,

    requires
        run.valid(),
        is_refresh::<P>(run.event),
    ensures
        run.replies.len() >= 5,
        run.replies[0] is WindowSize,
        run.refresh_parts() == refresh_script(
            run.before[0].built(),
            run.replies[0]->WindowSize_width,
            run.replies[0]->WindowSize_height,
            run.before[0].mouse_interaction,
            run.refresh_answers(),
        ),
        forall|i: int|
            0 <= i <= run.replies.len() && !(1 <= i <= 4) ==> !(#[trigger] run.refreshes(i)),
        run.after[5].mouse_interaction == run.refresh_answers().interaction,
{
    lemma_refresh_course(run);
    let answers = run.refresh_answers();
    law_refresh_follows_script(
        run.before[0].built(),
        run.replies[0]->WindowSize_width,
        run.replies[0]->WindowSize_height,
        run.before[0].mouse_interaction,
        answers,
    );
    assert(run.refresh_reply(1) == RefreshReply::Viewport {
        width: answers.fitted.0,
        height: answers.fitted.1,
        scale_changed: answers.scale_changed,
    });
    assert(run.refresh_reply(2) == RefreshReply::Updated { statuses: answers.statuses });
    assert(run.refresh_reply(3) == RefreshReply::Drawn {
        interaction: answers.interaction,
        pointer: answers.pointer,
    });
    assert(run.refresh_parts() + Seq::<RefreshEffect>::empty() =~= run.refresh_parts());
}

/// The window is opened exactly by a refresh that finds no interface: it builds one, and the
/// interface and the subscriptions are told. No other event does any of this.
pub proof fn law_window_opens_when_first_built<P: Platform>(run: EventRun<P>) where
    P::Message: TryInto<LayershellCustomActions<P::RegionEdit>, Error = P::Message>,

    requires
        run.valid(),
    ensures
        run.opens() <==> is_refresh::<P>(run.event) && !run.before[0].built(),
{
    assert(run.stepped(0));
    if is_refresh::<P>(run.event) {
        lemma_refresh_course(run);
        if run.before[0].built() {
            assert forall|i: int, e: int| 0 <= i < run.effects.len() && 0 <= e
                < run.effects[i].len() implies !opening(#[trigger] run.effects[i][e]) by {
                if 1 <= i <= 4 {
                    assert(run.effects[i].len() == 1);
                    assert(run.effects[i][e]->Refresh_0@ == run.refresh_parts_at(i));
                } else {
                    assert(!run.refreshes(i));
                }
            }
        } else {
            assert(run.effects[1].len() == 1);
            assert(run.effects[1][0] is Refresh);
            assert(opening_part(run.refresh_parts_at(1)[1]));
            assert(opening(run.effects[1][0]));
        }
    } else {
        assert forall|i: int, e: int| 0 <= i < run.effects.len() && 0 <= e
            < run.effects[i].len() implies !opening(#[trigger] run.effects[i][e]) by {
            lemma_no_more_refresh(run, 0, i);
            if i > 0 {
                assert(!run.refreshes(i));
            }
        }
    }
}

/// Events that one context handles, one after the other.
pub struct EventHistory<P: Platform> {
    pub runs: Seq<EventRun<P>>,
}

impl<P: Platform> EventHistory<P> where
    P::Message: TryInto<LayershellCustomActions<P::RegionEdit>, Error = P::Message>,
 {
    /// The event at `i` is handled from where the one before has left the context.
    pub open spec fn continues(self, i: int) -> bool {
        &&& self.runs[i].valid()
        &&& i > 0 ==> self.runs[i].before[0] == self.runs[i - 1].end()
    }

    /// Every event is handled from where the one before has left the context.
    pub open spec fn valid(self) -> bool {
        forall|i: int| 0 <= i < self.runs.len() ==> #[trigger] self.continues(i)
    }
}

proof fn lemma_built_from_then_on<P: Platform>(history: EventHistory<P>, first: int, i: int) where
    P::Message: TryInto<LayershellCustomActions<P::RegionEdit>, Error = P::Message>,

    requires
        history.valid(),
        0 <= first <= i < history.runs.len(),
        is_refresh::<P>(history.runs[first].event),
    ensures
        history.runs[i].end().built(),
        i > first ==> history.runs[i].before[0].built(),
    decreases i,
{
    assert(history.continues(i));
    if i > first {
        lemma_built_from_then_on(history, first, i - 1);
    }
    law_interface_stays_built(history.runs[i]);
}

/// Once a window was refreshed, its interface is built after every event, and no later event
/// opens the window again. A later refresh does what the script says for a built interface: it
/// builds none, and its only event is that the window is to be redrawn.
pub proof fn law_only_first_refresh_opens<P: Platform>(
    history: EventHistory<P>,
    first: int,
    later: int,
) where P::Message: TryInto<LayershellCustomActions<P::RegionEdit>, Error = P::Message>
    requires
        history.valid(),
        0 <= first < later < history.runs.len(),
        is_refresh::<P>(history.runs[first].event),
    ensures
        history.runs[first].end().built(),
        history.runs[later].end().built(),
        !history.runs[later].opens(),
        is_refresh::<P>(history.runs[later].event) ==> history.runs[later].refresh_parts()
            == refresh_script(
            true,
            history.runs[later].replies[0]->WindowSize_width,
            history.runs[later].replies[0]->WindowSize_height,
            history.runs[later].before[0].mouse_interaction,
            history.runs[later].refresh_answers(),
        ),
{
    lemma_built_from_then_on(history, first, first);
    lemma_built_from_then_on(history, first, later);
    assert(history.continues(later));
    law_window_opens_when_first_built(history.runs[later]);
    if is_refresh::<P>(history.runs[later].event) {
        law_refresh_event_follows_script(history.runs[later]);
    }
}

} // verus!
