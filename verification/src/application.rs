//! The context that handles the events of a window, step by step.
//!
//! Handling an event alternates decisions and work that only the runtime can do. The decisions
//! are made here. [`Context::handle_event`] says what is to be done first; each time that this is
//! done, [`Context::resume`] is told what came of it and says what is to be done next.
use crate::action::{
    after_operation, asks_to_exit, handle_layer_shell_action, operation_finished, output_routed,
    run_action, run_effect, window_requests, Action, ClipboardAction, LayershellCustomActions,
    Outcome, RunEffect, WindowAction, WindowRequest,
};
use crate::dispatch::{Dispatch, DispatchEffect, DispatchReply};
use crate::event::{LayerWindowEvent, ReturnData, WaitingLayerShellEvent};
use crate::outside::unique_id;
use crate::refresh::{Interaction, Refresh, RefreshEffect, RefreshReply};
use crate::user_interface::UserInterface;
use iced_core::window::Id;
use iced_runtime::user_interface::Cache;
use vstd::prelude::*;

verus! {

/// The types of the runtime that the context carries without looking into them.
pub trait Platform: Sized {
    /// The application.
    type Application;

    /// An interface that is built from the application.
    type Interface;

    /// The compositor with its surface and renderer.
    type Compositor;

    /// A region of the surface.
    type Region;

    /// An event of the window.
    type WindowEvent;

    /// An event for the interface.
    type Event;

    /// A message of the application.
    type Message;

    /// A channel for an answer, or a widget operation.
    type Handle;

    /// An edit of the input region.
    type RegionEdit;

    /// Work that is run in the background.
    type Stream;
}

/// An event of the platform `P` that waits to be handled.
pub type WaitingEvent<P> = WaitingLayerShellEvent<
    <P as Platform>::Region,
    <P as Platform>::WindowEvent,
    <P as Platform>::Message,
    <P as Platform>::Handle,
>;

/// What the handling of an event needs to have done.
pub enum Effect<P: Platform> {
    /// Do these parts of a refresh, in their order.
    Refresh(Vec<RefreshEffect>),
    /// Do these parts of a dispatch, in their order.
    Dispatch(Vec<DispatchEffect<P::Event, P::Message, P::Stream>>),
    /// Update the state of the window with the event, and report what event it is for the
    /// interface.
    ConvertWindowEvent(P::WindowEvent),
    /// Do what is left of an action.
    Run(RunEffect<P::Handle>),
    /// Ask this of the layer shell.
    Return(ReturnData),
    /// Report the size of the window.
    ReadWindowSize,
    /// Make these calls on the window, in their order.
    Window(Vec<WindowRequest<P::RegionEdit>>),
}

/// What the handling of an event waits for.
pub enum Job<P: Platform> {
    /// The size of the window that is to be refreshed.
    Measuring,
    Refresh(Refresh),
    /// The event for the interface.
    Converting,
    /// The outcome of a widget operation.
    Operating,
    Dispatch(Dispatch<P::Message>),
    /// The size of the window for the next of these actions.
    Resolving(Vec<LayershellCustomActions<P::RegionEdit>>),
    Finished,
}

/// What came of an effect.
pub enum Reply<P: Platform> {
    WindowSize { width: u32, height: u32 },
    /// An answer to a refresh, and the messages that the interface produced.
    Refresh { reply: RefreshReply, produced: Vec<P::Message> },
    Converted(Option<P::Event>),
    Operated(Outcome<P::Handle>),
    Dispatch(DispatchReply<P::Message, P::Stream>),
}

impl<P: Platform> Job<P> {
    /// Whether the handling waits for this answer.
    pub open spec fn expects(self, reply: Reply<P>) -> bool {
        match self {
            Job::Measuring => reply is WindowSize,
            Job::Refresh(refresh) => reply matches Reply::Refresh { reply, .. } && refresh.expects(
                reply,
            ),
            Job::Converting => reply is Converted,
            Job::Operating => reply is Operated,
            Job::Dispatch(dispatch) => reply matches Reply::Dispatch(reply) && dispatch.expects(
                reply,
            ),
            Job::Resolving(actions) => reply is WindowSize && actions@.len() > 0,
            Job::Finished => false,
        }
    }

    /// Tells whether the handling waits for this answer.
    pub fn accepts(&self, reply: &Reply<P>) -> (accepted: bool)
        ensures
            accepted == self.expects(*reply),
            accepted <==> {
                ||| *self is Measuring && *reply is WindowSize
                ||| *self is Refresh && *reply is Refresh && self->Refresh_0.expects(
                    reply->Refresh_reply,
                )
                ||| *self is Converting && *reply is Converted
                ||| *self is Operating && *reply is Operated
                ||| *self is Dispatch && *reply is Dispatch && self->Dispatch_0.expects(
                    reply->Dispatch_0,
                )
                ||| *self is Resolving && *reply is WindowSize && self->Resolving_0@.len() > 0
            },
    {
        match (self, reply) {
            (Job::Measuring, Reply::WindowSize { .. }) => true,
            (Job::Refresh(refresh), Reply::Refresh { reply, .. }) => refresh.accepts(reply),
            (Job::Converting, Reply::Converted(_)) => true,
            (Job::Operating, Reply::Operated(_)) => true,
            (Job::Dispatch(dispatch), Reply::Dispatch(reply)) => dispatch.accepts(reply),
            (Job::Resolving(actions), Reply::WindowSize { .. }) => actions.len() > 0,
            _ => false,
        }
    }
}

/// The context that handles the events of a window.
pub struct Context<P: Platform> {
    pub iced_id: Id,
    pub mouse_interaction: Interaction,
    pub fonts: Vec<Vec<u8>>,
    pub compositor_context: Option<P::Compositor>,
    pub wl_input_region: Option<P::Region>,
    pub user_interface: UserInterface<P::Application, P::Interface>,
    pub waiting_layer_shell_actions: Vec<LayershellCustomActions<P::RegionEdit>>,
    pub iced_events: Vec<P::Event>,
    pub messages: Vec<P::Message>,
    /// The title of the window.
    pub title: String,
}

/// What a [`Context`] holds.
#[verifier::ext_equal]
pub struct ContextView<P: Platform> {
    pub iced_id: Id,
    pub mouse_interaction: Interaction,
    pub fonts: Seq<Vec<u8>>,
    pub compositor_context: Option<P::Compositor>,
    pub wl_input_region: Option<P::Region>,
    pub user_interface: UserInterface<P::Application, P::Interface>,
    pub waiting_layer_shell_actions: Seq<LayershellCustomActions<P::RegionEdit>>,
    pub iced_events: Seq<P::Event>,
    pub messages: Seq<P::Message>,
    pub title: Seq<char>,
}

impl<P: Platform> View for Context<P> {
    type V = ContextView<P>;

    open spec fn view(&self) -> ContextView<P> {
        ContextView {
            iced_id: self.iced_id,
            mouse_interaction: self.mouse_interaction,
            fonts: self.fonts@,
            compositor_context: self.compositor_context,
            wl_input_region: self.wl_input_region,
            user_interface: self.user_interface,
            waiting_layer_shell_actions: self.waiting_layer_shell_actions@,
            iced_events: self.iced_events@,
            messages: self.messages@,
            title: self.title@,
        }
    }
}

/// A single thing to be done after the compositor was created.
#[derive(Debug, Clone, Copy, PartialEq, Eq)]
pub enum CompositorStep {
    /// Load the font at this place of [`Context::fonts`].
    LoadFont(usize),
    CreateRenderer,
    CreateSurface { width: u32, height: u32 },
    ConnectClipboard,
}

/// What is to be done after the compositor was created: all fonts are loaded before the renderer
/// is created, and the surface after it.
pub open spec fn compositor_steps(fonts: nat) -> Seq<CompositorStep> {
    Seq::new(fonts, |i: int| CompositorStep::LoadFont(i as usize)) + seq![
        CompositorStep::CreateRenderer,
        CompositorStep::CreateSurface { width: 1, height: 1 },
        CompositorStep::ConnectClipboard,
    ]
}

impl<P: Platform> ContextView<P> {
    /// Whether an interface is built.
    pub open spec fn built(self) -> bool {
        self.user_interface.interface() is Some
    }

    /// Whether there is something to dispatch.
    pub open spec fn pending(self) -> bool {
        self.iced_events.len() > 0 || self.messages.len() > 0
    }

    /// What is to be done first to resolve the actions that wait.
    pub open spec fn settling(self) -> Seq<Effect<P>> {
        if self.waiting_layer_shell_actions.len() > 0 {
            seq![Effect::ReadWindowSize]
        } else {
            Seq::empty()
        }
    }

    /// How the handling of an event comes to its end: the actions that wait are resolved, and
    /// none waits any more.
    pub open spec fn settled(self, post: Self, job: Job<P>) -> bool {
        let actions = self.waiting_layer_shell_actions;
        &&& post == (ContextView { waiting_layer_shell_actions: Seq::empty(), ..self })
        &&& if actions.len() > 0 {
            job matches Job::Resolving(rest) && rest@ == actions
        } else {
            job is Finished
        }
    }

    /// How a refresh begins once the size of the window is known.
    pub open spec fn refresh_begun(
        self,
        width: u32,
        height: u32,
        post: Self,
        job: Job<P>,
        effects: Seq<Effect<P>>,
    ) -> bool {
        let begun = Refresh::begun(self.built(), width, height);
        &&& post == self
        &&& job == Job::<P>::Refresh(begun.0)
        &&& effects.len() == 1
        &&& effects[0] matches Effect::Refresh(parts)
        &&& parts@ == begun.1
    }

    /// How a refresh goes on after an answer.
    pub open spec fn refresh_stepped(
        self,
        refresh: Refresh,
        reply: RefreshReply,
        produced: Seq<P::Message>,
        post: Self,
        job: Job<P>,
        effects: Seq<Effect<P>>,
    ) -> bool {
        let stepped = refresh.stepped(reply, self.mouse_interaction);
        let mid = ContextView {
            mouse_interaction: stepped.2,
            messages: self.messages + produced,
            ..self
        };
        if stepped.0 is Finished {
            &&& mid.settled(post, job)
            &&& effects == mid.settling()
        } else {
            &&& post == mid
            &&& job == Job::<P>::Refresh(stepped.0)
            &&& effects.len() == 1
            &&& effects[0] matches Effect::Refresh(parts)
            &&& parts@ == stepped.1
        }
    }

    /// What comes of an event of the window: the event that it is for the interface, if it is
    /// one, waits to be dispatched.
    pub open spec fn window_event_handled(
        self,
        event: Option<P::Event>,
        post: Self,
        job: Job<P>,
        effects: Seq<Effect<P>>,
    ) -> bool {
        let mid = match event {
            Some(event) => ContextView { iced_events: self.iced_events.push(event), ..self },
            None => self,
        };
        &&& mid.settled(post, job)
        &&& effects == mid.settling()
    }

    /// What comes of a widget operation once its outcome is known.
    pub open spec fn operated(
        self,
        outcome: Outcome<P::Handle>,
        post: Self,
        job: Job<P>,
        effects: Seq<Effect<P>>,
    ) -> bool {
        let effect = after_operation(outcome, self.built());
        if effect is Operate {
            &&& post == self
            &&& job is Operating
            &&& effects == seq![Effect::<P>::Run(effect)]
        } else {
            &&& self.settled(post, job)
            &&& effects == self.settling()
        }
    }

    /// How a dispatch stands: the first effect holds its parts.
    pub open spec fn dispatch_shown(
        self,
        dispatch: Dispatch<P::Message>,
        parts: Seq<DispatchEffect<P::Event, P::Message, P::Stream>>,
        post: Self,
        job: Job<P>,
        effects: Seq<Effect<P>>,
    ) -> bool {
        &&& effects.len() > 0
        &&& effects[0] matches Effect::Dispatch(shown)
        &&& shown@ == parts
        &&& if dispatch is Finished {
            &&& self.settled(post, job)
            &&& effects == seq![effects[0]] + self.settling()
        } else {
            &&& post == self
            &&& job == Job::<P>::Dispatch(dispatch)
            &&& effects.len() == 1
        }
    }

    /// How a dispatch begins.
    pub open spec fn dispatch_begun(
        self,
        post: Self,
        job: Job<P>,
        effects: Seq<Effect<P>>,
    ) -> bool {
        if !self.pending() {
            self.dispatch_shown(Dispatch::Finished, Seq::empty(), post, job, effects)
        } else if self.built() {
            self.dispatch_shown(
                Dispatch::Updating,
                seq![DispatchEffect::UpdateInterface],
                post,
                job,
                effects,
            )
        } else {
            self.dispatch_shown(
                Dispatch::Finished,
                seq![DispatchEffect::RequestRefresh],
                post,
                job,
                effects,
            )
        }
    }

    /// How a dispatch goes on after an answer.
    pub open spec fn dispatch_stepped(
        self,
        dispatch: Dispatch<P::Message>,
        reply: DispatchReply<P::Message, P::Stream>,
        post: Self,
        job: Job<P>,
        effects: Seq<Effect<P>>,
    ) -> bool {
        let mid = ContextView {
            iced_events: post.iced_events,
            messages: post.messages,
            title: post.title,
            ..self
        };
        exists|
            next: Dispatch<P::Message>,
            parts: Seq<DispatchEffect<P::Event, P::Message, P::Stream>>,
        |
            {
                &&& #[trigger] dispatch.stepped(
                    reply,
                    self.iced_events,
                    self.messages,
                    self.title,
                    next,
                    parts,
                    post.iced_events,
                    post.messages,
                    post.title,
                )
                &&& mid.dispatch_shown(next, parts, post, job, effects)
            }
    }

    /// How the next of the actions that waited is resolved.
    pub open spec fn action_resolved(
        self,
        actions: Seq<LayershellCustomActions<P::RegionEdit>>,
        size: (u32, u32),
        post: Self,
        job: Job<P>,
        effects: Seq<Effect<P>>,
    ) -> bool {
        &&& post == self
        &&& effects.len() > 0
        &&& effects[0] matches Effect::Window(requests)
        &&& requests@ == window_requests(actions[0], self.wl_input_region is Some, size)
        &&& if actions.len() > 1 {
            &&& job matches Job::Resolving(rest)
            &&& rest@ == actions.skip(1)
            &&& effects == seq![effects[0], Effect::ReadWindowSize]
        } else {
            &&& job is Finished
            &&& effects.len() == 1
        }
    }

    /// How the handling of an event goes on after an answer.
    pub open spec fn resumed(
        self,
        job: Job<P>,
        reply: Reply<P>,
        post: Self,
        next: Job<P>,
        effects: Seq<Effect<P>>,
    ) -> bool {
        match (job, reply) {
            (Job::Measuring, Reply::WindowSize { width, height }) => self.refresh_begun(
                width,
                height,
                post,
                next,
                effects,
            ),
            (Job::Refresh(refresh), Reply::Refresh { reply, produced }) => self.refresh_stepped(
                refresh,
                reply,
                produced@,
                post,
                next,
                effects,
            ),
            (Job::Converting, Reply::Converted(event)) => self.window_event_handled(
                event,
                post,
                next,
                effects,
            ),
            (Job::Operating, Reply::Operated(outcome)) => self.operated(
                outcome,
                post,
                next,
                effects,
            ),
            (Job::Dispatch(dispatch), Reply::Dispatch(reply)) => self.dispatch_stepped(
                dispatch,
                reply,
                post,
                next,
                effects,
            ),
            (Job::Resolving(actions), Reply::WindowSize { width, height }) => self.action_resolved(
                actions@,
                (width, height),
                post,
                next,
                effects,
            ),
            _ => false,
        }
    }

    /// The context once an output of the application is filed.
    pub open spec fn output_filed(
        self,
        output: Result<LayershellCustomActions<P::RegionEdit>, P::Message>,
    ) -> Self {
        match output {
            Ok(action) => ContextView {
                waiting_layer_shell_actions: self.waiting_layer_shell_actions.push(action),
                ..self
            },
            Err(message) => ContextView { messages: self.messages.push(message), ..self },
        }
    }
}

impl<P: Platform> ContextView<P> where
    P::Message: TryInto<LayershellCustomActions<P::RegionEdit>, Error = P::Message>,
 {
    /// What comes of an action of a task. An output is asked whether it is an action for the
    /// window.
    pub open spec fn user_action_handled(
        self,
        action: Action<P::Message, P::Handle>,
        post: Self,
        job: Job<P>,
        effects: Seq<Effect<P>>,
    ) -> bool {
        match action {
            Action::Output(message) => exists|
                output: Result<LayershellCustomActions<P::RegionEdit>, P::Message>,
            |
                {
                    &&& call_ensures(
                        <P::Message as TryInto<LayershellCustomActions<P::RegionEdit>>>::try_into,
                        (message,),
                        output,
                    )
                    &&& (#[trigger] self.output_filed(output)).settled(post, job)
                    &&& effects == self.output_filed(output).settling()
                },
            _ => {
                let effect = run_effect(action, self.built());
                if effect is Operate {
                    &&& post == self
                    &&& job is Operating
                    &&& effects == seq![Effect::<P>::Run(effect)]
                } else {
                    &&& self.settled(post, job)
                    &&& effects == (if effect is Nothing {
                        Seq::<Effect<P>>::empty()
                    } else {
                        seq![Effect::<P>::Run(effect)]
                    }) + (if asks_to_exit(action) {
                        seq![Effect::<P>::Return(ReturnData::RequestExit)]
                    } else {
                        Seq::<Effect<P>>::empty()
                    }) + self.settling()
                }
            },
        }
    }

    /// How the handling of an event begins, when there is a compositor.
    pub open spec fn event_begun(
        self,
        event: WaitingEvent<P>,
        post: Self,
        job: Job<P>,
        effects: Seq<Effect<P>>,
    ) -> bool {
        match event {
            WaitingLayerShellEvent::UpdateInputRegion(region) => {
                let mid = ContextView { wl_input_region: Some(region), ..self };
                &&& mid.settled(post, job)
                &&& effects == mid.settling()
            },
            WaitingLayerShellEvent::Window(LayerWindowEvent::Refresh) => {
                &&& post == self
                &&& job is Measuring
                &&& effects == seq![Effect::<P>::ReadWindowSize]
            },
            WaitingLayerShellEvent::Window(LayerWindowEvent::Closed) => {
                &&& self.settled(post, job)
                &&& effects == seq![Effect::<P>::Return(ReturnData::RequestExit)] + self.settling()
            },
            WaitingLayerShellEvent::Window(LayerWindowEvent::Input(event)) => {
                &&& post == self
                &&& job is Converting
                &&& effects == seq![Effect::<P>::ConvertWindowEvent(event)]
            },
            WaitingLayerShellEvent::UserAction(action) => self.user_action_handled(
                action,
                post,
                job,
                effects,
            ),
            WaitingLayerShellEvent::NormalDispatch => self.dispatch_begun(post, job, effects),
        }
    }
}

impl<P: Platform> Context<P> {
    /// A context of a new window that is known by `iced_id` and has `title`.
    pub fn with_id(
        iced_id: Id,
        application: P::Application,
        title: String,
        fonts: Vec<Vec<u8>>,
    ) -> (context: Self)
        ensures
            context.iced_id == iced_id,
            context.mouse_interaction is NoInteraction,
            context.fonts == fonts,
            context.compositor_context is None,
            context.wl_input_region is None,
            context.user_interface.interface() is None,
            context.user_interface.app() == application,
            context.waiting_layer_shell_actions@.len() == 0,
            context.iced_events@.len() == 0,
            context.messages@.len() == 0,
            context.title == title,
    {
        Context {
            iced_id,
            mouse_interaction: Interaction::default(),
            fonts,
            compositor_context: None,
            wl_input_region: None,
            user_interface: UserInterface::new(application),
            waiting_layer_shell_actions: Vec::new(),
            iced_events: Vec::new(),
            messages: Vec::new(),
            title,
        }
    }

    /// A context of a new window with `title`, which gets an id that no window had before.
    pub fn new(application: P::Application, title: String, fonts: Vec<Vec<u8>>) -> (context: Self)
        ensures
            context.mouse_interaction is NoInteraction,
            context.fonts == fonts,
            context.compositor_context is None,
            context.wl_input_region is None,
            context.user_interface.interface() is None,
            context.user_interface.app() == application,
            context.waiting_layer_shell_actions@.len() == 0,
            context.iced_events@.len() == 0,
            context.messages@.len() == 0,
            context.title == title,
    {
        Self::with_id(unique_id(), application, title, fonts)
    }

    /// What is to be done once the compositor itself is there. The surface gets a size that is
    /// not empty; it changes once the size of the window is known.
    pub fn create_compositor_context(&self) -> (steps: Vec<CompositorStep>)
        ensures
            steps@ == compositor_steps(self.fonts@.len()),
            steps@.len() == self.fonts@.len() + 3,
            forall|i: int|
                0 <= i < self.fonts@.len() ==> #[trigger] steps@[i] == CompositorStep::LoadFont(
                    i as usize,
                ),
            steps@[steps@.len() - 3] == CompositorStep::CreateRenderer,
            steps@[steps@.len() - 2] == (CompositorStep::CreateSurface { width: 1, height: 1 }),
            steps@[steps@.len() - 1] == CompositorStep::ConnectClipboard,
    {
        let mut steps: Vec<CompositorStep> = Vec::new();
        let mut index: usize = 0;
        while index < self.fonts.len()
            invariant
                index <= self.fonts@.len(),
                steps@ == Seq::new(index as nat, |i: int| CompositorStep::LoadFont(i as usize)),
            decreases self.fonts@.len() - index,
        {
            steps.push(CompositorStep::LoadFont(index));
            assert(steps@ =~= Seq::new(
                (index + 1) as nat,
                |i: int| CompositorStep::LoadFont(i as usize),
            ));
            index = index + 1;
        }
        steps.push(CompositorStep::CreateRenderer);
        steps.push(CompositorStep::CreateSurface { width: 1, height: 1 });
        steps.push(CompositorStep::ConnectClipboard);
        assert(steps@ =~= compositor_steps(self.fonts@.len()));
        steps
    }

    /// Takes the compositor, with its surface and renderer. Events can be handled from now on.
    pub fn compositor_created(&mut self, compositor: P::Compositor)
        ensures
            final(self)@ == (ContextView { compositor_context: Some(compositor), ..old(self)@ }),
    {
        self.compositor_context = Some(compositor);
    }

    /// Builds the interface with `make`, from what an earlier one left behind or else from an
    /// empty cache.
    pub fn build_interface<F: FnOnce(&P::Application, Cache) -> P::Interface>(
        &mut self,
        cache: Option<Cache>,
        make: F,
    )
        requires
            cache is Some ==> make.requires((&old(self).user_interface.app(), cache->0)),
            cache is None ==> forall|empty: Cache|
                call_ensures(<Cache as Default>::default, (), empty) ==> #[trigger] make.requires(
                    (&old(self).user_interface.app(), empty),
                ),
        ensures
            final(self)@ == (ContextView {
                user_interface: final(self).user_interface,
                ..old(self)@
            }),
            final(self).user_interface.interface() is Some,
            final(self).user_interface.app() == old(self).user_interface.app(),
            cache is Some ==> make.ensures(
                (&old(self).user_interface.app(), cache->0),
                final(self).user_interface.interface()->0,
            ),
            cache is None ==> exists|empty: Cache|
                call_ensures(<Cache as Default>::default, (), empty) && #[trigger] make.ensures(
                    (&old(self).user_interface.app(), empty),
                    final(self).user_interface.interface()->0,
                ),
    {
        let cache = cache.unwrap_or_default();
        self.user_interface.build(cache, make);
    }

    fn settle(&mut self, effects: &mut Vec<Effect<P>>) -> (job: Job<P>)
        ensures
            old(self)@.settled(final(self)@, job),
            final(effects)@ == old(effects)@ + old(self)@.settling(),
    {
        // at each interaction try to resolve those waiting actions.
        let mut actions: Vec<LayershellCustomActions<P::RegionEdit>> = Vec::new();
        std::mem::swap(&mut self.waiting_layer_shell_actions, &mut actions);
        if actions.len() > 0 {
            effects.push(Effect::ReadWindowSize);
            assert(effects@ =~= old(effects)@ + old(self)@.settling());
            Job::Resolving(actions)
        } else {
            assert(effects@ =~= old(effects)@ + old(self)@.settling());
            Job::Finished
        }
    }

    /// Begins to refresh the window, once its size is known.
    pub fn handle_refresh_event(&mut self, width: u32, height: u32) -> (begun: (
        Job<P>,
        Vec<Effect<P>>,
    ))
        requires
            old(self).compositor_context is Some,
        ensures
            old(self)@.refresh_begun(width, height, final(self)@, begun.0, begun.1@),
            final(self)@ == old(self)@,
            begun.0 == Job::<P>::Refresh(
                Refresh::Comparing {
                    width,
                    height,
                    opened: old(self).user_interface.interface() is None,
                },
            ),
            begun.1@.len() == 1,
            begun.1@[0] matches Effect::Refresh(parts) && parts@ == (if old(
                self).user_interface.interface() is Some {
                seq![RefreshEffect::CompareViewport]
            } else {
                seq![
                    RefreshEffect::UpdateViewport { width, height },
                    RefreshEffect::BuildInterface,
                    RefreshEffect::ConfigureSurface,
                    RefreshEffect::CompareViewport,
                ]
            }),
    {
        let (refresh, parts) = Refresh::begin(self.user_interface.is_built(), width, height);
        let mut effects: Vec<Effect<P>> = Vec::new();
        effects.push(Effect::Refresh(parts));
        (Job::Refresh(refresh), effects)
    }

    /// Goes on with a refresh.
    pub fn resume_refresh(
        &mut self,
        refresh: Refresh,
        reply: RefreshReply,
        produced: Vec<P::Message>,
    ) -> (stepped: (Job<P>, Vec<Effect<P>>))
        requires
            old(self).compositor_context is Some,
            refresh.expects(reply),
        ensures
            old(self)@.refresh_stepped(
                refresh,
                reply,
                produced@,
                final(self)@,
                stepped.0,
                stepped.1@,
            ),
            final(self).messages@ == old(self).messages@ + produced@,
            final(self).iced_events@ == old(self).iced_events@,
            final(self).title@ == old(self).title@,
            final(self).mouse_interaction == (match reply {
                RefreshReply::Drawn { interaction, .. } => interaction,
                _ => old(self).mouse_interaction,
            }),
            !(refresh is Presenting) ==> {
                &&& stepped.0 is Refresh
                &&& stepped.1@.len() == 1
                &&& stepped.1@[0] is Refresh
                &&& final(self).waiting_layer_shell_actions@ == old(
                    self).waiting_layer_shell_actions@
            },
            reply matches RefreshReply::Drawn { interaction, pointer } ==> (
            stepped.1@[0]->Refresh_0@.contains(
                RefreshEffect::SetCursorShape { interaction },
            ) <==> pointer && interaction != old(self).mouse_interaction),
            refresh is Presenting ==> {
                &&& final(self).waiting_layer_shell_actions@.len() == 0
                &&& old(self).waiting_layer_shell_actions@.len() == 0 ==> stepped.0 is Finished
                    && stepped.1@.len() == 0
                &&& old(self).waiting_layer_shell_actions@.len() > 0 ==> {
                    &&& stepped.0 matches Job::Resolving(rest)
                    &&& rest@ == old(self).waiting_layer_shell_actions@
                    &&& stepped.1@.len() == 1
                    &&& stepped.1@[0] is ReadWindowSize
                }
            },
    {
        let ghost pre = self@;
        let mut produced = produced;
        self.messages.append(&mut produced);
        let (refresh, parts) = refresh.step(reply, &mut self.mouse_interaction);
        proof {
            if reply is Drawn && reply->pointer && reply->interaction != pre.mouse_interaction {
                assert(parts@[0] == RefreshEffect::SetCursorShape {
                    interaction: reply->interaction,
                });
            }
        }
        let mut effects: Vec<Effect<P>> = Vec::new();
        match refresh {
            Refresh::Finished => {
                let ghost mid = self@;
                let job = self.settle(&mut effects);
                assert(effects@ =~= mid.settling());
                (job, effects)
            },
            _ => {
                effects.push(Effect::Refresh(parts));
                (Job::Refresh(refresh), effects)
            },
        }
    }

    /// Files an event of the window once it is known what event it is for the interface.
    pub fn handle_window_event(&mut self, event: Option<P::Event>) -> (handled: (
        Job<P>,
        Vec<Effect<P>>,
    ))
        ensures
            old(self)@.window_event_handled(event, final(self)@, handled.0, handled.1@),
            event matches Some(event) ==> final(self).iced_events@ == old(
                self).iced_events@.push(event),
            event is None ==> final(self).iced_events@ == old(self).iced_events@,
            final(self).messages@ == old(self).messages@,
            final(self).title@ == old(self).title@,
            final(self).mouse_interaction == old(self).mouse_interaction,
            final(self).waiting_layer_shell_actions@.len() == 0,
            old(self).waiting_layer_shell_actions@.len() == 0 ==> handled.0 is Finished
                && handled.1@.len() == 0,
            old(self).waiting_layer_shell_actions@.len() > 0 ==> {
                &&& handled.0 matches Job::Resolving(rest)
                &&& rest@ == old(self).waiting_layer_shell_actions@
                &&& handled.1@.len() == 1
                &&& handled.1@[0] is ReadWindowSize
            },
    {
        match event {
            Some(event) => {
                self.iced_events.push(event);
            },
            None => {},
        }
        let ghost mid = self@;
        let mut effects: Vec<Effect<P>> = Vec::new();
        let job = self.settle(&mut effects);
        assert(effects@ =~= mid.settling());
        (job, effects)
    }

    /// Goes on with a chain of widget operations.
    pub fn resume_operation(&mut self, outcome: Outcome<P::Handle>) -> (handled: (
        Job<P>,
        Vec<Effect<P>>,
    ))
        requires
            old(self).compositor_context is Some,
        ensures
            old(self)@.operated(outcome, final(self)@, handled.0, handled.1@),
            final(self).iced_events@ == old(self).iced_events@,
            final(self).messages@ == old(self).messages@,
            outcome matches Outcome::Chain(operation) ==> {
                &&& final(self)@ == old(self)@
                &&& handled.0 is Operating
                &&& handled.1@ == seq![
                    Effect::<P>::Run(
                        RunEffect::Operate {
                            operation,
                            on_interface: old(self).user_interface.interface() is Some,
                        },
                    ),
                ]
            },
            !(outcome is Chain) ==> {
                &&& final(self).waiting_layer_shell_actions@.len() == 0
                &&& old(self).waiting_layer_shell_actions@.len() == 0 ==> handled.0 is Finished
                    && handled.1@.len() == 0
                &&& old(self).waiting_layer_shell_actions@.len() > 0 ==> {
                    &&& handled.0 matches Job::Resolving(rest)
                    &&& rest@ == old(self).waiting_layer_shell_actions@
                    &&& handled.1@.len() == 1
                    &&& handled.1@[0] is ReadWindowSize
                }
            },
    {
        let effect = operation_finished(outcome, self.user_interface.is_built());
        let mut effects: Vec<Effect<P>> = Vec::new();
        match effect {
            RunEffect::Operate { .. } => {
                effects.push(Effect::Run(effect));
                (Job::Operating, effects)
            },
            _ => {
                let job = self.settle(&mut effects);
                assert(effects@ =~= old(self)@.settling());
                (job, effects)
            },
        }
    }

    fn show_dispatch(
        &mut self,
        dispatch: Dispatch<P::Message>,
        parts: Vec<DispatchEffect<P::Event, P::Message, P::Stream>>,
    ) -> (shown: (Job<P>, Vec<Effect<P>>))
        ensures
            old(self)@.dispatch_shown(dispatch, parts@, final(self)@, shown.0, shown.1@),
    {
        let mut effects: Vec<Effect<P>> = Vec::new();
        effects.push(Effect::Dispatch(parts));
        match dispatch {
            Dispatch::Finished => {
                let job = self.settle(&mut effects);
                assert(effects@ =~= seq![effects@[0]] + old(self)@.settling());
                (job, effects)
            },
            _ => (Job::Dispatch(dispatch), effects),
        }
    }

    /// Begins to dispatch the pending events and messages.
    pub fn handle_normal_dispatch(&mut self) -> (begun: (Job<P>, Vec<Effect<P>>))
        requires
            old(self)@.pending() ==> old(self).compositor_context is Some,
        ensures
            old(self)@.dispatch_begun(final(self)@, begun.0, begun.1@),
            final(self).iced_events@ == old(self).iced_events@,
            final(self).messages@ == old(self).messages@,
            final(self).title@ == old(self).title@,
            begun.1@.len() > 0,
            begun.1@[0] matches Effect::Dispatch(parts) && parts@ == (if old(
                self).iced_events@.len() == 0 && old(self).messages@.len() == 0 {
                Seq::<DispatchEffect<P::Event, P::Message, P::Stream>>::empty()
            } else if old(self).user_interface.interface() is Some {
                seq![DispatchEffect::<P::Event, P::Message, P::Stream>::UpdateInterface]
            } else {
                seq![DispatchEffect::<P::Event, P::Message, P::Stream>::RequestRefresh]
            }),
            begun.0 == Job::<P>::Dispatch(Dispatch::Updating) <==> (old(self).iced_events@.len() > 0
                || old(self).messages@.len() > 0) && old(self).user_interface.interface() is Some,
    {
        let pending = !(self.iced_events.is_empty() && self.messages.is_empty());
        let (dispatch, parts) = Dispatch::begin(pending, self.user_interface.is_built());
        self.show_dispatch(dispatch, parts)
    }

    /// Goes on with a dispatch.
    pub fn resume_dispatch(
        &mut self,
        dispatch: Dispatch<P::Message>,
        reply: DispatchReply<P::Message, P::Stream>,
    ) -> (stepped: (Job<P>, Vec<Effect<P>>))
        requires
            old(self).compositor_context is Some,
            dispatch.expects(reply),
        ensures
            old(self)@.dispatch_stepped(dispatch, reply, final(self)@, stepped.0, stepped.1@),
    {
        let (next, parts) = dispatch.step(
            reply,
            &mut self.iced_events,
            &mut self.messages,
            &mut self.title,
        );
        let ghost mid = self@;
        let shown = self.show_dispatch(next, parts);
        proof {
            assert(mid =~= ContextView {
                iced_events: self@.iced_events,
                messages: self@.messages,
                title: self@.title,
                ..old(self)@
            });
            assert(dispatch.stepped(
                reply,
                old(self)@.iced_events,
                old(self)@.messages,
                old(self)@.title,
                next,
                parts@,
                self@.iced_events,
                self@.messages,
                self@.title,
            ));
        }
        shown
    }

    /// Resolves the first of the actions that waited, for a window of the given size.
    pub fn handle_layer_shell_action(
        &mut self,
        actions: Vec<LayershellCustomActions<P::RegionEdit>>,
        size: (u32, u32),
    ) -> (resolved: (Job<P>, Vec<Effect<P>>))
        requires
            actions@.len() > 0,
        ensures
            old(self)@.action_resolved(actions@, size, final(self)@, resolved.0, resolved.1@),
            final(self)@ == old(self)@,
            resolved.1@.len() == (if actions@.len() > 1 {
                2int
            } else {
                1
            }),
            resolved.1@[0] matches Effect::Window(requests) && requests@ == window_requests(
                actions@[0],
                old(self).wl_input_region is Some,
                size,
            ),
            actions@.len() == 1 ==> resolved.0 is Finished,
            actions@.len() > 1 ==> {
                &&& resolved.1@[1] is ReadWindowSize
                &&& resolved.0 matches Job::Resolving(rest)
                &&& seq![actions@[0]] + rest@ == actions@
            },
    {
        let ghost all = actions@;
        let mut actions = actions;
        let action = actions.remove(0);
        assert(actions@ =~= all.skip(1));
        assert(seq![all[0]] + all.skip(1) =~= all);
        let requests = handle_layer_shell_action(action, self.wl_input_region.is_some(), size);
        let mut effects: Vec<Effect<P>> = Vec::new();
        effects.push(Effect::Window(requests));
        if actions.len() > 0 {
            effects.push(Effect::ReadWindowSize);
            assert(effects@ =~= seq![effects@[0], Effect::ReadWindowSize]);
            (Job::Resolving(actions), effects)
        } else {
            (Job::Finished, effects)
        }
    }

    /// Goes on with the handling of an event, with the answer that it waits for.
    pub fn resume(&mut self, job: Job<P>, reply: Reply<P>) -> (resumed: (Job<P>, Vec<Effect<P>>))
        requires
            old(self).compositor_context is Some,
            job.expects(reply),
        ensures
            old(self)@.resumed(job, reply, final(self)@, resumed.0, resumed.1@),
    {
        match (job, reply) {
            (Job::Measuring, Reply::WindowSize { width, height }) => {
                self.handle_refresh_event(width, height)
            },
            (Job::Refresh(refresh), Reply::Refresh { reply, produced }) => {
                self.resume_refresh(refresh, reply, produced)
            },
            (Job::Converting, Reply::Converted(event)) => self.handle_window_event(event),
            (Job::Operating, Reply::Operated(outcome)) => self.resume_operation(outcome),
            (Job::Dispatch(dispatch), Reply::Dispatch(reply)) => {
                self.resume_dispatch(dispatch, reply)
            },
            (Job::Resolving(actions), Reply::WindowSize { width, height }) => {
                self.handle_layer_shell_action(actions, (width, height))
            },
            _ => {
                assert(false);
                (Job::Finished, Vec::new())
            },
        }
    }
}

impl<P: Platform> Context<P> where
    P::Message: TryInto<LayershellCustomActions<P::RegionEdit>, Error = P::Message>,
 {
    /// Begins to perform an action of a task.
    pub fn handle_user_action(&mut self, action: Action<P::Message, P::Handle>) -> (handled: (
        Job<P>,
        Vec<Effect<P>>,
    ))
        requires
            old(self).compositor_context is Some,
        ensures
            old(self)@.user_action_handled(action, final(self)@, handled.0, handled.1@),
            final(self).iced_events@ == old(self).iced_events@,
            final(self).title@ == old(self).title@,
            final(self).wl_input_region == old(self).wl_input_region,
            !(action is Output) ==> final(self).messages@ == old(self).messages@,
            action matches Action::Widget(operation) ==> {
                &&& handled.0 is Operating
                &&& handled.1@ == seq![
                    Effect::<P>::Run(
                        RunEffect::Operate {
                            operation,
                            on_interface: old(self).user_interface.interface() is Some,
                        },
                    ),
                ]
            },
            !(action is Widget) ==> final(self).waiting_layer_shell_actions@.len() == 0,
            handled.1@.contains(Effect::<P>::Return(ReturnData::RequestExit)) <==> {
                ||| action is Exit
                ||| action matches Action::Window(WindowAction::Close(_))
            },
    {
        let mut should_exit = false;
        let effect = run_action(
            action,
            self.user_interface.is_built(),
            &mut self.messages,
            &mut self.waiting_layer_shell_actions,
            &mut should_exit,
        );
        let ghost mid = self@;
        let mut effects: Vec<Effect<P>> = Vec::new();
        match effect {
            RunEffect::Operate { .. } => {
                effects.push(Effect::Run(effect));
                return (Job::Operating, effects);
            },
            RunEffect::Nothing => {},
            _ => {
                effects.push(Effect::Run(effect));
            },
        }
        if should_exit {
            effects.push(Effect::Return(ReturnData::RequestExit));
        }
        let ghost before = effects@;
        let job = self.settle(&mut effects);
        proof {
            if action is Output {
                let output = choose|
                    output: Result<LayershellCustomActions<P::RegionEdit>, P::Message>,
                |
                    call_ensures(
                        <P::Message as TryInto<LayershellCustomActions<P::RegionEdit>>>::try_into,
                        (action->Output_0,),
                        output,
                    ) && #[trigger] output_routed(
                        output,
                        (old(self)@.messages, mid.messages),
                        (old(self)@.waiting_layer_shell_actions, mid.waiting_layer_shell_actions),
                    );
                assert(mid =~= old(self)@.output_filed(output));
                assert(effects@ =~= mid.settling());
            } else {
                assert(mid =~= old(self)@);
                assert(effects@ =~= before + old(self)@.settling());
            }
            if should_exit {
                assert(effects@[before.len() - 1] == Effect::<P>::Return(ReturnData::RequestExit));
            }
        }
        (job, effects)
    }

    /// Begins to handle an event.
    ///
    /// Without a compositor nothing is handled: the event comes back and has to be handled once
    /// the compositor is there.
    pub fn handle_event(&mut self, event: WaitingEvent<P>) -> (begun: Result<
        (Job<P>, Vec<Effect<P>>),
        WaitingEvent<P>,
    >)
        ensures
            old(self).compositor_context is None ==> begun == Err::<
                (Job<P>, Vec<Effect<P>>),
                WaitingEvent<P>,
            >(event) && final(self)@ == old(self)@,
            old(self).compositor_context is Some ==> begun is Ok && old(self)@.event_begun(
                event,
                final(self)@,
                begun->Ok_0.0,
                begun->Ok_0.1@,
            ),
            old(self).compositor_context is Some ==> {
                &&& final(self).iced_events@ == old(self).iced_events@
                &&& event matches WaitingLayerShellEvent::UpdateInputRegion(region)
                    ==> final(self).wl_input_region == Some(region)
                &&& !(event is UpdateInputRegion) ==> final(self).wl_input_region == old(
                    self).wl_input_region
                &&& event matches WaitingLayerShellEvent::Window(LayerWindowEvent::Refresh) ==> {
                    &&& begun->Ok_0.0 is Measuring
                    &&& begun->Ok_0.1@ == seq![Effect::<P>::ReadWindowSize]
                }
                &&& event matches WaitingLayerShellEvent::Window(LayerWindowEvent::Closed)
                    ==> begun->Ok_0.1@.contains(Effect::<P>::Return(ReturnData::RequestExit))
                &&& event matches WaitingLayerShellEvent::Window(LayerWindowEvent::Input(input))
                    ==> {
                    &&& begun->Ok_0.0 is Converting
                    &&& begun->Ok_0.1@ == seq![Effect::<P>::ConvertWindowEvent(input)]
                }
            },
    {
        if self.compositor_context.is_none() {
            return Err(event);
        }
        let mut effects: Vec<Effect<P>> = Vec::new();
        match event {
            WaitingLayerShellEvent::UpdateInputRegion(region) => {
                self.wl_input_region = Some(region);
                let ghost mid = self@;
                let job = self.settle(&mut effects);
                assert(effects@ =~= mid.settling());
                Ok((job, effects))
            },
            WaitingLayerShellEvent::Window(LayerWindowEvent::Refresh) => {
                effects.push(Effect::ReadWindowSize);
                assert(effects@ =~= seq![Effect::<P>::ReadWindowSize]);
                Ok((Job::Measuring, effects))
            },
            WaitingLayerShellEvent::Window(LayerWindowEvent::Closed) => {
                effects.push(Effect::Return(ReturnData::RequestExit));
                let job = self.settle(&mut effects);
                assert(effects@ =~= seq![Effect::<P>::Return(ReturnData::RequestExit)] + old(
                    self,
                )@.settling());
                assert(effects@[0] == Effect::<P>::Return(ReturnData::RequestExit));
                Ok((job, effects))
            },
            WaitingLayerShellEvent::Window(LayerWindowEvent::Input(event)) => {
                effects.push(Effect::ConvertWindowEvent(event));
                Ok((Job::Converting, effects))
            },
            WaitingLayerShellEvent::UserAction(action) => Ok(self.handle_user_action(action)),
            WaitingLayerShellEvent::NormalDispatch => Ok(self.handle_normal_dispatch()),
        }
    }
}

impl<P: Platform> ContextView<P> {
    /// While the actions that waited are resolved, and at the end, no action waits.
    pub open spec fn tidy(self, job: Job<P>) -> bool {
        job is Resolving || job is Finished ==> self.waiting_layer_shell_actions.len() == 0
    }
}

/// No action waits any more when an event is handled at once.
pub proof fn law_no_action_waits_after_event<P: Platform>(
    pre: ContextView<P>,
    event: WaitingEvent<P>,
    post: ContextView<P>,
    job: Job<P>,
    effects: Seq<Effect<P>>,
) where P::Message: TryInto<LayershellCustomActions<P::RegionEdit>, Error = P::Message>
    requires
        pre.event_begun(event, post, job, effects),
    ensures
        post.tidy(job),
{
}

/// No action waits any more when an event is handled, however many answers that takes.
pub proof fn law_no_action_waits_at_the_end<P: Platform>(
    pre: ContextView<P>,
    job: Job<P>,
    reply: Reply<P>,
    post: ContextView<P>,
    next: Job<P>,
    effects: Seq<Effect<P>>,
)
    requires
        pre.tidy(job),
        pre.resumed(job, reply, post, next, effects),
    ensures
        post.tidy(next),
{
}

/// Beginning to handle an event changes neither the compositor, nor the id of the window, nor the
/// fonts, nor the application and its interface. The input region changes only when a new one is
/// provided.
pub proof fn law_event_keeps_the_rest<P: Platform>(
    pre: ContextView<P>,
    event: WaitingEvent<P>,
    post: ContextView<P>,
    job: Job<P>,
    effects: Seq<Effect<P>>,
) where P::Message: TryInto<LayershellCustomActions<P::RegionEdit>, Error = P::Message>
    requires
        pre.event_begun(event, post, job, effects),
    ensures
        post.iced_id == pre.iced_id,
        post.fonts == pre.fonts,
        post.compositor_context == pre.compositor_context,
        post.user_interface == pre.user_interface,
        post.wl_input_region == (match event {
            WaitingLayerShellEvent::UpdateInputRegion(region) => Some(region),
            _ => pre.wl_input_region,
        }),
{
}

/// An answer changes neither the compositor, nor the id of the window, nor the fonts, nor the
/// input region, nor the application and its interface: those change only when the runtime says
/// so.
pub proof fn law_handling_keeps_the_rest<P: Platform>(
    pre: ContextView<P>,
    job: Job<P>,
    reply: Reply<P>,
    post: ContextView<P>,
    next: Job<P>,
    effects: Seq<Effect<P>>,
)
    requires
        pre.resumed(job, reply, post, next, effects),
    ensures
        post.iced_id == pre.iced_id,
        post.fonts == pre.fonts,
        post.compositor_context == pre.compositor_context,
        post.wl_input_region == pre.wl_input_region,
        post.user_interface == pre.user_interface,
{
}

/// Whether the program is asked to exit.
pub open spec fn requests_exit<P: Platform>(effects: Seq<Effect<P>>) -> bool {
    exists|i: int| 0 <= i < effects.len() && exits(#[trigger] effects[i])
}

/// Whether the effect asks the program to exit.
pub open spec fn exits<P: Platform>(effect: Effect<P>) -> bool {
    match effect {
        Effect::Return(data) => data == ReturnData::RequestExit,
        Effect::Dispatch(parts) => parts@.contains(DispatchEffect::RequestExit),
        _ => false,
    }
}

/// Whether the event itself ends the program: the window is closed, or a task closes it or exits.
pub open spec fn ends_program<P: Platform>(event: WaitingEvent<P>) -> bool {
    ||| event matches WaitingLayerShellEvent::Window(LayerWindowEvent::Closed)
    ||| event matches WaitingLayerShellEvent::UserAction(action) && asks_to_exit(action)
}

/// Whether the answer is that the application should be terminated.
pub open spec fn reports_exit<P: Platform>(reply: Reply<P>) -> bool {
    reply matches Reply::Dispatch(DispatchReply::ShouldExit { exit }) && exit
}

/// The beginning of an event asks for the exit exactly when the window is closed, or when a task
/// closes it or exits.
pub proof fn law_event_exits_when_asked<P: Platform>(
    pre: ContextView<P>,
    event: WaitingEvent<P>,
    post: ContextView<P>,
    job: Job<P>,
    effects: Seq<Effect<P>>,
) where P::Message: TryInto<LayershellCustomActions<P::RegionEdit>, Error = P::Message>
    requires
        pre.event_begun(event, post, job, effects),
    ensures
        requests_exit(effects) <==> ends_program::<P>(event),
{
    if ends_program::<P>(event) {
        assert(exits(effects[0]));
    }
}

/// An answer leads to the exit exactly when it is that the application should be terminated.
pub proof fn law_answer_exits_when_reported<P: Platform>(
    pre: ContextView<P>,
    job: Job<P>,
    reply: Reply<P>,
    post: ContextView<P>,
    next: Job<P>,
    effects: Seq<Effect<P>>,
)
    requires
        pre.resumed(job, reply, post, next, effects),
    ensures
        requests_exit(effects) <==> reports_exit(reply),
{
    if reports_exit(reply) {
        let parts = effects[0]->Dispatch_0@;
        assert(parts.last() == DispatchEffect::<P::Event, P::Message, P::Stream>::RequestExit);
        assert(exits(effects[0]));
    }
}

/// All fonts are loaded, each once and in their order, before the renderer is created; the surface
/// comes after it and is not empty, and the clipboard is connected last.
pub proof fn law_compositor_is_set_up_in_order(fonts: nat)
    requires
        fonts <= usize::MAX,
    ensures
        ({
            let steps = compositor_steps(fonts);
            &&& steps.len() == fonts + 3
            &&& forall|i: int|
                0 <= i < fonts ==> (#[trigger] steps[i] matches CompositorStep::LoadFont(font)
                    && font == i)
            &&& steps[fonts as int] is CreateRenderer
            &&& steps[fonts as int + 1] matches CompositorStep::CreateSurface { width, height } && width
                == 1 && height == 1
            &&& steps[fonts as int + 2] is ConnectClipboard
        }),
{
}

/// What an event of the window is for the interface waits behind the events that are pending, and
/// those keep their order. When it is nothing for the interface, they stay as they are. Nothing
/// else changes, but that no action for the window waits any more.
pub proof fn law_input_event_waits_last<P: Platform>(
    pre: ContextView<P>,
    event: Option<P::Event>,
    post: ContextView<P>,
    next: Job<P>,
    effects: Seq<Effect<P>>,
)
    requires
        pre.resumed(Job::Converting, Reply::Converted(event), post, next, effects),
    ensures
        event matches Some(input) ==> {
            &&& post.iced_events.len() == pre.iced_events.len() + 1
            &&& post.iced_events.last() == input
            &&& post.iced_events.drop_last() == pre.iced_events
        },
        event is None ==> post.iced_events == pre.iced_events,
        post.messages == pre.messages,
        post.title == pre.title,
        post.mouse_interaction == pre.mouse_interaction,
        post.waiting_layer_shell_actions.len() == 0,
        next matches Job::Resolving(rest) ==> rest@ == pre.waiting_layer_shell_actions,
        next is Finished <==> pre.waiting_layer_shell_actions.len() == 0,
        next is Finished || next is Resolving,
        effects.len() == (if pre.waiting_layer_shell_actions.len() == 0 {
            0int
        } else {
            1
        }),
        forall|e: int| 0 <= e < effects.len() ==> (#[trigger] effects[e]) is ReadWindowSize,
{
    if event is Some {
        assert(post.iced_events.drop_last() =~= pre.iced_events);
    }
}

/// Two events of the window that come one after the other are pending in that order.
pub proof fn law_input_events_keep_their_order<P: Platform>(
    start: ContextView<P>,
    first: P::Event,
    middle: ContextView<P>,
    second: P::Event,
    end: ContextView<P>,
    jobs: (Job<P>, Job<P>),
    effects: (Seq<Effect<P>>, Seq<Effect<P>>),
)
    requires
        start.resumed(Job::Converting, Reply::Converted(Some(first)), middle, jobs.0, effects.0),
        middle.resumed(Job::Converting, Reply::Converted(Some(second)), end, jobs.1, effects.1),
    ensures
        end.iced_events == start.iced_events + seq![first, second],
{
    assert(end.iced_events =~= start.iced_events + seq![first, second]);
}

/// A widget operation of a task is applied to the interface exactly when the context has one
/// built, and the operation is the one that the task brings. So is each that follows in its chain;
/// the chain ends with the first operation that has no successor.
pub proof fn law_task_operation_reaches_the_interface<P: Platform>(
    pre: ContextView<P>,
    operation: P::Handle,
    post: ContextView<P>,
    job: Job<P>,
    effects: Seq<Effect<P>>,
) where P::Message: TryInto<LayershellCustomActions<P::RegionEdit>, Error = P::Message>
    requires
        pre.event_begun(
            WaitingLayerShellEvent::UserAction(Action::Widget(operation)),
            post,
            job,
            effects,
        ) || pre.resumed(
            Job::Operating,
            Reply::Operated(Outcome::Chain(operation)),
            post,
            job,
            effects,
        ),
    ensures
        post == pre,
        job is Operating,
        effects.len() == 1,
        effects[0] matches Effect::Run(RunEffect::Operate { operation: applied, on_interface })
            && applied == operation && on_interface == (pre.user_interface.interface() is Some),
{
}

/// An operation without a successor ends the chain, whether it produced a message or not, and
/// changes neither events nor messages.
pub proof fn law_chain_of_operations_ends<P: Platform>(
    pre: ContextView<P>,
    outcome: Outcome<P::Handle>,
    post: ContextView<P>,
    job: Job<P>,
    effects: Seq<Effect<P>>,
)
    requires
        pre.resumed(Job::Operating, Reply::Operated(outcome), post, job, effects),
        !(outcome is Chain),
    ensures
        job is Finished || job is Resolving,
        job matches Job::Resolving(rest) ==> rest@ == pre.waiting_layer_shell_actions,
        job is Finished <==> pre.waiting_layer_shell_actions.len() == 0,
        post.iced_events == pre.iced_events,
        post.messages == pre.messages,
        post.title == pre.title,
        forall|e: int| 0 <= e < effects.len() ==> (#[trigger] effects[e]) is ReadWindowSize,
{
}

/// What a task asks of the runtime is asked for once and first, with what the task handed over.
/// The context keeps its events and messages.
pub proof fn law_task_is_performed_with_what_it_brings<P: Platform>(
    pre: ContextView<P>,
    action: Action<P::Message, P::Handle>,
    post: ContextView<P>,
    job: Job<P>,
    effects: Seq<Effect<P>>,
) where P::Message: TryInto<LayershellCustomActions<P::RegionEdit>, Error = P::Message>
    requires
        pre.event_begun(WaitingLayerShellEvent::UserAction(action), post, job, effects),
        !(action is Output),
        !(action is Widget),
    ensures
        post.iced_events == pre.iced_events,
        post.messages == pre.messages,
        post.title == pre.title,
        post.waiting_layer_shell_actions.len() == 0,
        action matches Action::Clipboard(ClipboardAction::Read { target, channel })
            ==> effects.len() > 0 && effects[0] == Effect::<P>::Run(
            RunEffect::ReadClipboard { target, channel },
        ),
        action matches Action::Clipboard(
            ClipboardAction::Write { target, contents },
        ) ==> effects.len() > 0 && effects[0] == Effect::<P>::Run(
            RunEffect::WriteClipboard { target, contents },
        ),
        action matches Action::Window(WindowAction::Screenshot(_, channel)) ==> effects.len() > 0
            && effects[0] == Effect::<P>::Run(RunEffect::Screenshot { channel }),
        action matches Action::Window(WindowAction::GetScaleFactor(_, channel)) ==> effects.len()
            > 0 && effects[0] == Effect::<P>::Run(RunEffect::ReportScaleFactor { channel }),
        action matches Action::LoadFont { bytes, channel } ==> effects.len() > 0 && effects[0]
            == Effect::<P>::Run(RunEffect::LoadFont { bytes, channel }),
        forall|e: int| 0 < e < effects.len() ==> !((#[trigger] effects[e]) is Run),
        effects.len() == (if action is Clipboard || action is LoadFont || (
        action matches Action::Window(window) && (window is Screenshot
            || window is GetScaleFactor)) {
            1int
        } else {
            0
        }) + (if action is Exit || (action matches Action::Window(window) && window is Close) {
            1int
        } else {
            0
        }) + (if pre.waiting_layer_shell_actions.len() > 0 {
            1int
        } else {
            0
        }),
        pre.waiting_layer_shell_actions.len() > 0 ==> {
            &&& effects.last() is ReadWindowSize
            &&& job matches Job::Resolving(rest)
            &&& rest@ == pre.waiting_layer_shell_actions
        },
        pre.waiting_layer_shell_actions.len() == 0 ==> job is Finished,
        effects.contains(Effect::<P>::Return(ReturnData::RequestExit)) <==> {
            ||| action is Exit
            ||| action matches Action::Window(WindowAction::Close(_))
        },
{
    if asks_to_exit(action) {
        assert(effects[0] == Effect::<P>::Return(ReturnData::RequestExit));
    }
}

/// A closed window asks for the exit, once and before anything else.
pub proof fn law_closed_window_asks_to_exit<P: Platform>(
    pre: ContextView<P>,
    post: ContextView<P>,
    job: Job<P>,
    effects: Seq<Effect<P>>,
) where P::Message: TryInto<LayershellCustomActions<P::RegionEdit>, Error = P::Message>
    requires
        pre.event_begun(
            WaitingLayerShellEvent::Window(LayerWindowEvent::Closed),
            post,
            job,
            effects,
        ),
    ensures
        effects.len() > 0,
        effects[0] == Effect::<P>::Return(ReturnData::RequestExit),
        forall|e: int| 0 < e < effects.len() ==> (#[trigger] effects[e]) is ReadWindowSize,
        post.iced_events == pre.iced_events,
        post.messages == pre.messages,
        post.title == pre.title,
{
}

/// A refresh asks for the size of the window and goes on for that size, and it opens the window
/// exactly when no interface is built. An event of the window is converted as it came.
pub proof fn law_refresh_is_for_the_size_of_the_window<P: Platform>(
    pre: ContextView<P>,
    input: P::WindowEvent,
    width: u32,
    height: u32,
    post: ContextView<P>,
    job: Job<P>,
    effects: Seq<Effect<P>>,
) where P::Message: TryInto<LayershellCustomActions<P::RegionEdit>, Error = P::Message>
    ensures
        pre.event_begun(
            WaitingLayerShellEvent::Window(LayerWindowEvent::Refresh),
            post,
            job,
            effects,
        ) ==> post == pre && job is Measuring && effects.len() == 1 && effects[0] is ReadWindowSize,
        pre.event_begun(
            WaitingLayerShellEvent::Window(LayerWindowEvent::Input(input)),
            post,
            job,
            effects,
        ) ==> post == pre && job is Converting && effects.len() == 1 && effects[0] == Effect::<
            P,
        >::ConvertWindowEvent(input),
        pre.resumed(
            Job::Measuring,
            Reply::WindowSize { width, height },
            post,
            job,
            effects,
        ) ==> {
            &&& post == pre
            &&& job == Job::<P>::Refresh(
                Refresh::Comparing {
                    width,
                    height,
                    opened: pre.user_interface.interface() is None,
                },
            )
            &&& effects.len() == 1
            &&& effects[0] matches Effect::Refresh(parts)
            &&& parts@.last() == RefreshEffect::CompareViewport
            &&& parts@.contains(RefreshEffect::BuildInterface)
                <==> pre.user_interface.interface() is None
        },
{
    if pre.resumed(Job::Measuring, Reply::WindowSize { width, height }, post, job, effects) {
        let parts = effects[0]->Refresh_0@;
        if pre.user_interface.interface() is None {
            assert(parts[1] == RefreshEffect::BuildInterface);
        }
    }
}

/// In a refresh the messages that the interface produced wait behind the others, what the cursor
/// is over changes only with the drawing and to what was drawn, and the pending events stay. The
/// shape of the cursor is asked for exactly when there is a pointer and it is over something else
/// than the context knew.
pub proof fn law_refresh_keeps_what_was_drawn<P: Platform>(
    pre: ContextView<P>,
    refresh: Refresh,
    reply: RefreshReply,
    produced: Vec<P::Message>,
    post: ContextView<P>,
    job: Job<P>,
    effects: Seq<Effect<P>>,
)
    requires
        refresh.expects(reply),
        pre.resumed(
            Job::Refresh(refresh),
            Reply::Refresh { reply, produced },
            post,
            job,
            effects,
        ),
    ensures
        post.messages == pre.messages + produced@,
        post.iced_events == pre.iced_events,
        post.title == pre.title,
        post.mouse_interaction == (match reply {
            RefreshReply::Drawn { interaction, .. } => interaction,
            _ => pre.mouse_interaction,
        }),
        reply matches RefreshReply::Drawn { interaction, pointer } ==> {
            &&& effects.len() == 1
            &&& effects[0] matches Effect::Refresh(parts)
            &&& parts@.contains(RefreshEffect::SetCursorShape { interaction }) <==> (pointer
                && interaction != pre.mouse_interaction)
            &&& parts@.last() == RefreshEffect::Present
        },
        !(reply is Presented) ==> {
            &&& job == Job::<P>::Refresh(refresh.stepped(reply, pre.mouse_interaction).0)
            &&& effects.len() == 1
            &&& effects[0] matches Effect::Refresh(parts)
            &&& parts@ == refresh.stepped(reply, pre.mouse_interaction).1
        },
        reply is Presented ==> effects.len() == (if pre.waiting_layer_shell_actions.len() == 0 {
            0int
        } else {
            1
        }),
        reply is Presented <==> (job is Finished || job is Resolving),
        job is Finished ==> pre.waiting_layer_shell_actions.len() == 0,
        job matches Job::Resolving(rest) ==> rest@ == pre.waiting_layer_shell_actions,
{
    if reply is Drawn && reply->pointer && reply->interaction != pre.mouse_interaction {
        let parts = effects[0]->Refresh_0@;
        assert(parts[0] == RefreshEffect::SetCursorShape { interaction: reply->interaction });
    }
}

/// A dispatch lets the interface process what is pending when there is an interface, only asks for
/// a refresh when there is none, and does nothing when nothing is pending. Events, messages and
/// title stay until the interface has answered.
pub proof fn law_dispatch_begins_with_the_interface<P: Platform>(
    pre: ContextView<P>,
    post: ContextView<P>,
    job: Job<P>,
    effects: Seq<Effect<P>>,
) where P::Message: TryInto<LayershellCustomActions<P::RegionEdit>, Error = P::Message>
    requires
        pre.event_begun(WaitingLayerShellEvent::NormalDispatch, post, job, effects),
    ensures
        post.iced_events == pre.iced_events,
        post.messages == pre.messages,
        post.title == pre.title,
        effects.len() > 0,
        effects[0] is Dispatch,
        ({
            let parts = effects[0]->Dispatch_0@;
            let pending = pre.iced_events.len() > 0 || pre.messages.len() > 0;
            let built = pre.user_interface.interface() is Some;
            &&& parts.len() == (if pending {
                1int
            } else {
                0
            })
            &&& pending && built ==> parts[0] is UpdateInterface && job == Job::<P>::Dispatch(
                Dispatch::Updating,
            )
            &&& pending && !built ==> parts[0] is RequestRefresh
            &&& !(pending && built) ==> job is Finished || job is Resolving
        }),
{
}

/// The action for the window that waits longest is resolved for the size that is reported, and the
/// others wait in their order.
pub proof fn law_longest_waiting_action_is_resolved<P: Platform>(
    pre: ContextView<P>,
    actions: Vec<LayershellCustomActions<P::RegionEdit>>,
    width: u32,
    height: u32,
    post: ContextView<P>,
    job: Job<P>,
    effects: Seq<Effect<P>>,
)
    requires
        actions@.len() > 0,
        pre.resumed(
            Job::Resolving(actions),
            Reply::WindowSize { width, height },
            post,
            job,
            effects,
        ),
    ensures
        post == pre,
        effects.len() > 0,
        effects[0] matches Effect::Window(requests) && requests@ == window_requests(
            actions@[0],
            pre.wl_input_region is Some,
            (width, height),
        ),
        actions@.len() == 1 ==> job is Finished && effects.len() == 1,
        actions@.len() > 1 ==> {
            &&& job matches Job::Resolving(rest)
            &&& seq![actions@[0]] + rest@ == actions@
            &&& effects.len() == 2
            &&& effects[1] is ReadWindowSize
        },
{
    assert(seq![actions@[0]] + actions@.skip(1) =~= actions@);
}

/// The handling of an event waits for one kind of answer at a time, and for none once it is over.
pub proof fn law_handling_waits_for_one_kind_of_answer<P: Platform>(job: Job<P>, reply: Reply<P>)
    ensures
        job.expects(reply) ==> {
            ||| job is Measuring && reply is WindowSize
            ||| job is Refresh && reply is Refresh && job->Refresh_0.expects(reply->Refresh_reply)
            ||| job is Converting && reply is Converted
            ||| job is Operating && reply is Operated
            ||| job is Dispatch && reply is Dispatch && job->Dispatch_0.expects(reply->Dispatch_0)
            ||| job is Resolving && reply is WindowSize
        },
        job is Measuring && reply is WindowSize ==> job.expects(reply),
        job is Converting && reply is Converted ==> job.expects(reply),
        job is Operating && reply is Operated ==> job.expects(reply),
{
}

/// The answer to a dispatch goes to that dispatch: how it goes on, what it asks for first, and what
/// is left of events, messages and title is its step for that answer.
pub proof fn law_answer_reaches_the_dispatch<P: Platform>(
    pre: ContextView<P>,
    dispatch: Dispatch<P::Message>,
    reply: DispatchReply<P::Message, P::Stream>,
    post: ContextView<P>,
    job: Job<P>,
    effects: Seq<Effect<P>>,
)
    requires
        pre.resumed(Job::Dispatch(dispatch), Reply::Dispatch(reply), post, job, effects),
    ensures
        effects.len() > 0,
        effects[0] is Dispatch,
        dispatch.stepped(
            reply,
            pre.iced_events,
            pre.messages,
            pre.title,
            match job {
                Job::Dispatch(next) => next,
                _ => Dispatch::Finished,
            },
            effects[0]->Dispatch_0@,
            post.iced_events,
            post.messages,
            post.title,
        ),
        job is Dispatch || job is Resolving || job is Finished,
        job matches Job::Resolving(rest) ==> rest@ == pre.waiting_layer_shell_actions,
        job is Dispatch ==> post.waiting_layer_shell_actions == pre.waiting_layer_shell_actions,
        post.mouse_interaction == pre.mouse_interaction,
        forall|e: int| 0 < e < effects.len() ==> (#[trigger] effects[e]) is ReadWindowSize,
{
    let (next, parts) = choose|
        next: Dispatch<P::Message>,
        parts: Seq<DispatchEffect<P::Event, P::Message, P::Stream>>,
    |
        {
            &&& #[trigger] dispatch.stepped(
                reply,
                pre.iced_events,
                pre.messages,
                pre.title,
                next,
                parts,
                post.iced_events,
                post.messages,
                post.title,
            )
            &&& (ContextView {
                iced_events: post.iced_events,
                messages: post.messages,
                title: post.title,
                ..pre
            }).dispatch_shown(next, parts, post, job, effects)
        };
    assert(parts == effects[0]->Dispatch_0@);
}

/// An output of the application is asked whether it is an action for the window. If it is one, it
/// is resolved with the others, as the last; if not, it is the last of the messages.
pub proof fn law_output_of_a_task_is_filed<P: Platform>(
    pre: ContextView<P>,
    message: P::Message,
    post: ContextView<P>,
    job: Job<P>,
    effects: Seq<Effect<P>>,
) where P::Message: TryInto<LayershellCustomActions<P::RegionEdit>, Error = P::Message>
    requires
        pre.event_begun(
            WaitingLayerShellEvent::UserAction(Action::Output(message)),
            post,
            job,
            effects,
        ),
    ensures
        post.iced_events == pre.iced_events,
        post.waiting_layer_shell_actions.len() == 0,
        exists|output: Result<LayershellCustomActions<P::RegionEdit>, P::Message>|
            {
                &&& #[trigger] call_ensures(
                    <P::Message as TryInto<LayershellCustomActions<P::RegionEdit>>>::try_into,
                    (message,),
                    output,
                )
                &&& output matches Ok(action) ==> {
                    &&& post.messages == pre.messages
                    &&& job matches Job::Resolving(rest)
                    &&& rest@ == pre.waiting_layer_shell_actions.push(action)
                }
                &&& output matches Err(message) ==> {
                    &&& post.messages == pre.messages.push(message)
                    &&& job matches Job::Resolving(rest) ==> rest@
                        == pre.waiting_layer_shell_actions
                    &&& job is Finished <==> pre.waiting_layer_shell_actions.len() == 0
                }
            },
{
}

/// When the handling of an event begins, pending events, title and what the cursor is over stay.
/// Messages change only by an output, and the actions that wait only to be resolved.
pub proof fn law_beginning_changes_nothing_else<P: Platform>(
    pre: ContextView<P>,
    event: WaitingEvent<P>,
    post: ContextView<P>,
    job: Job<P>,
    effects: Seq<Effect<P>>,
) where P::Message: TryInto<LayershellCustomActions<P::RegionEdit>, Error = P::Message>
    requires
        pre.event_begun(event, post, job, effects),
    ensures
        post.iced_events == pre.iced_events,
        post.title == pre.title,
        post.mouse_interaction == pre.mouse_interaction,
        !(event matches WaitingLayerShellEvent::UserAction(action) && action is Output) ==> {
            &&& post.messages == pre.messages
            &&& job matches Job::Resolving(rest) ==> rest@ == pre.waiting_layer_shell_actions
            &&& !(job is Resolving) && !(job is Finished) ==> post.waiting_layer_shell_actions
                == pre.waiting_layer_shell_actions
            &&& job is Finished ==> pre.waiting_layer_shell_actions.len() == 0
        },
        event is UpdateInputRegion ==> {
            &&& job is Finished || job is Resolving
            &&& effects.len() == (if pre.waiting_layer_shell_actions.len() == 0 {
                0int
            } else {
                1
            })
        },
        job is Resolving <==> effects.len() > 0 && effects.last() is ReadWindowSize && !(
        job is Measuring),
{
}

/// An answer changes only what it is about: the cursor with what was drawn, the title with what
/// the application answers, the pending events with an event that arrives or that the interface
/// has processed, and the messages with those that the interface produced or that are fed.
pub proof fn law_answer_changes_nothing_else<P: Platform>(
    pre: ContextView<P>,
    job: Job<P>,
    reply: Reply<P>,
    post: ContextView<P>,
    next: Job<P>,
    effects: Seq<Effect<P>>,
)
    requires
        pre.resumed(job, reply, post, next, effects),
    ensures
        post.mouse_interaction != pre.mouse_interaction ==> (reply matches Reply::Refresh {
            reply,
            ..
        } && reply is Drawn),
        post.title != pre.title ==> (reply matches Reply::Dispatch(answer) && answer is Title),
        post.iced_events != pre.iced_events ==> reply is Converted || (
        reply matches Reply::Dispatch(answer) && answer is Updated),
        post.messages != pre.messages ==> reply is Refresh || (reply matches Reply::Dispatch(answer)
            && (answer is Updated || answer is Extracted)),
        next is Resolving && !(job is Resolving) ==> next->Resolving_0@
            == pre.waiting_layer_shell_actions,
        next is Finished && !(job is Resolving) ==> pre.waiting_layer_shell_actions.len() == 0,
        !(next is Resolving) && !(next is Finished) ==> post.waiting_layer_shell_actions
            == pre.waiting_layer_shell_actions,
{
    if reply is Refresh && job is Refresh {
        assert(post.messages =~= pre.messages + reply->produced@);
    }
}

} // verus!
