use iced_core::window::Id;
use iced_layershell::action::{
    Action, LayershellCustomActions, Outcome, RunEffect, WindowAction, WindowRequest,
};
use iced_layershell::application::{
    CompositorStep, Context, Effect, Job, Platform, Reply, WaitingEvent,
};
use iced_layershell::dispatch::{Dispatch, DispatchEffect, DispatchReply, InterfaceState};
use iced_layershell::event::{LayerWindowEvent, ReturnData, WaitingLayerShellEvent};
use iced_layershell::refresh::{
    Interaction, Refresh, RefreshEffect, RefreshEvent, RefreshReply, Status,
};
use iced_layershell::update::UpdateEffect;
use iced_runtime::user_interface::Cache;

#[derive(Debug, PartialEq, Eq)]
enum Message {
    Resize(u32, u32),
    Tick(u8),
}

impl TryInto<LayershellCustomActions<&'static str>> for Message {
    type Error = Message;

    fn try_into(self) -> Result<LayershellCustomActions<&'static str>, Message> {
        match self {
            Message::Resize(width, height) => {
                Ok(LayershellCustomActions::SizeChange((width, height)))
            }
            other => Err(other),
        }
    }
}

struct Plain;

impl Platform for Plain {
    type Application = u32;
    type Interface = String;
    type Compositor = &'static str;
    type Region = &'static str;
    type WindowEvent = u8;
    type Event = &'static str;
    type Message = Message;
    type Handle = char;
    type RegionEdit = &'static str;
    type Stream = i64;
}

type Step = (Job<Plain>, Vec<Effect<Plain>>);

fn ready() -> Context<Plain> {
    let mut context = Context::new(7, String::from("title"), Vec::new());
    context.compositor_created("compositor");
    context
}

fn begin(context: &mut Context<Plain>, event: WaitingEvent<Plain>) -> Step {
    match context.handle_event(event) {
        Ok(step) => step,
        Err(_) => panic!("the event came back"),
    }
}

fn input(code: u8) -> WaitingEvent<Plain> {
    WaitingLayerShellEvent::Window(LayerWindowEvent::Input(code))
}

fn refresh_reply(reply: RefreshReply) -> Reply<Plain> {
    Reply::Refresh { reply, produced: Vec::new() }
}

#[test]
fn new_context_is_empty() {
    let context: Context<Plain> = Context::new(7, String::from("title"), vec![vec![1, 2]]);
    let other: Context<Plain> = Context::new(8, String::from("other"), Vec::new());
    assert_ne!(context.iced_id, other.iced_id);
    assert_eq!(context.mouse_interaction, Interaction::NoInteraction);
    assert_eq!(context.fonts, vec![vec![1, 2]]);
    assert!(context.compositor_context.is_none());
    assert!(context.wl_input_region.is_none());
    assert!(!context.user_interface.is_built());
    assert_eq!(*context.user_interface.application(), 7);
    assert!(context.waiting_layer_shell_actions.is_empty());
    assert!(context.iced_events.is_empty());
    assert!(context.messages.is_empty());
    let id = Id::unique();
    let known: Context<Plain> = Context::with_id(id, 9, String::from("known"), Vec::new());
    assert_eq!(known.iced_id, id);
    assert_eq!(known.title, "known");
}

#[test]
fn compositor_loads_fonts_before_its_renderer() {
    let context: Context<Plain> = Context::new(7, String::from("title"), vec![vec![1], vec![2]]);
    assert_eq!(
        context.create_compositor_context(),
        vec![
            CompositorStep::LoadFont(0),
            CompositorStep::LoadFont(1),
            CompositorStep::CreateRenderer,
            CompositorStep::CreateSurface { width: 1, height: 1 },
            CompositorStep::ConnectClipboard
        ]
    );
}

#[test]
fn event_comes_back_without_a_compositor() {
    let mut context: Context<Plain> = Context::new(7, String::from("title"), Vec::new());
    match context.handle_event(input(3)) {
        Err(event) => assert_eq!(event, input(3)),
        Ok(_) => panic!("the event was handled"),
    }
    assert!(context.compositor_context.is_none());
    context.compositor_created("compositor");
    let (job, effects) = begin(&mut context, input(3));
    assert!(matches!(job, Job::Converting));
    assert!(matches!(effects[..], [Effect::ConvertWindowEvent(3)]));
}

#[test]
fn input_region_is_kept() {
    let mut context = ready();
    let (job, effects) =
        begin(&mut context, WaitingLayerShellEvent::UpdateInputRegion("region"));
    assert!(matches!(job, Job::Finished));
    assert!(effects.is_empty());
    assert_eq!(context.wl_input_region, Some("region"));
}

#[test]
fn closed_window_exits() {
    let mut context = ready();
    let (job, effects) =
        begin(&mut context, WaitingLayerShellEvent::Window(LayerWindowEvent::Closed));
    assert!(matches!(job, Job::Finished));
    assert!(matches!(effects[..], [Effect::Return(ReturnData::RequestExit)]));
}

#[test]
fn window_event_waits_for_the_dispatch() {
    let mut context = ready();
    let (job, _) = begin(&mut context, input(3));
    let (job, effects) = context.resume(job, Reply::Converted(Some("key")));
    assert!(matches!(job, Job::Finished));
    assert!(effects.is_empty());
    assert_eq!(context.iced_events, vec!["key"]);
    let (job, _) = begin(&mut context, input(4));
    let (job, _) = context.resume(job, Reply::Converted(None));
    assert!(matches!(job, Job::Finished));
    assert_eq!(context.iced_events, vec!["key"]);
}

#[test]
fn refresh_builds_draws_and_presents() {
    let mut context = ready();
    let event = WaitingLayerShellEvent::Window(LayerWindowEvent::Refresh);
    let (job, effects) = begin(&mut context, event);
    assert!(matches!(effects[..], [Effect::ReadWindowSize]));
    let (job, effects) = context.resume(job, Reply::WindowSize { width: 30, height: 40 });
    match &effects[..] {
        [Effect::Refresh(parts)] => assert_eq!(parts.len(), 4),
        _ => panic!("no refresh"),
    }
    context.build_interface(None, |application: &u32, _: Cache| format!("view of {application}"));
    let viewport = RefreshReply::Viewport { width: 30, height: 40, scale_changed: false };
    let (job, _) = context.resume(job, refresh_reply(viewport));
    let reply = RefreshReply::Updated { statuses: vec![Status::Ignored; 2] };
    let produced = vec![Message::Tick(1)];
    let (job, _) = context.resume(job, Reply::Refresh { reply, produced });
    assert_eq!(context.messages, vec![Message::Tick(1)]);
    let drawn = RefreshReply::Drawn { interaction: Interaction::Pointer, pointer: true };
    let (job, effects) = context.resume(job, refresh_reply(drawn));
    match &effects[..] {
        [Effect::Refresh(parts)] => assert_eq!(
            *parts,
            vec![
                RefreshEffect::SetCursorShape { interaction: Interaction::Pointer },
                RefreshEffect::Present
            ]
        ),
        _ => panic!("no refresh"),
    }
    let (job, effects) = context.resume(job, refresh_reply(RefreshReply::Presented));
    assert!(matches!(job, Job::Finished));
    assert!(effects.is_empty());
    assert_eq!(context.mouse_interaction, Interaction::Pointer);
}

#[test]
fn interface_is_built_from_the_cache_that_is_there() {
    let mut context = ready();
    context.build_interface(None, |application: &u32, _: Cache| format!("first {application}"));
    assert!(context.user_interface.is_built());
    let (cache, application) = context.user_interface.extract(|_: String| Cache::default());
    *application = 8;
    context.build_interface(cache, |application: &u32, _: Cache| format!("again {application}"));
    let mut guard = context.user_interface.ui_mut().unwrap();
    assert_eq!(guard.draw(|ui: String| (ui.clone(), ui)), "again 8");
    drop(guard);
}

#[test]
fn output_for_the_window_is_resolved_with_its_event() {
    let mut context = ready();
    let action = Action::Output(Message::Resize(3, 4));
    let (job, effects) = begin(&mut context, WaitingLayerShellEvent::UserAction(action));
    assert!(matches!(effects[..], [Effect::ReadWindowSize]));
    assert!(context.waiting_layer_shell_actions.is_empty());
    let (job, effects) = context.resume(job, Reply::WindowSize { width: 1, height: 1 });
    assert!(matches!(job, Job::Finished));
    match &effects[..] {
        [Effect::Window(requests)] => {
            assert_eq!(*requests, vec![WindowRequest::SetSize((3, 4))])
        }
        _ => panic!("no request"),
    }
    assert!(context.messages.is_empty());
}

#[test]
fn waiting_actions_are_resolved_in_order_for_the_size_at_that_time() {
    let mut context = ready();
    context.waiting_layer_shell_actions.push(LayershellCustomActions::SetInputRegion("edit"));
    context.waiting_layer_shell_actions.push(LayershellCustomActions::ExclusiveZoneChange(5));
    let (job, effects) =
        begin(&mut context, WaitingLayerShellEvent::UpdateInputRegion("region"));
    assert!(matches!(effects[..], [Effect::ReadWindowSize]));
    let (job, effects) = context.resume(job, Reply::WindowSize { width: 10, height: 20 });
    match &effects[..] {
        [Effect::Window(requests), Effect::ReadWindowSize] => assert_eq!(
            requests[0],
            WindowRequest::SubtractRegion { x: 0, y: 0, width: 10, height: 20 }
        ),
        _ => panic!("no request"),
    }
    let (job, effects) = context.resume(job, Reply::WindowSize { width: 11, height: 20 });
    match &effects[..] {
        [Effect::Window(requests)] => {
            assert_eq!(*requests, vec![WindowRequest::SetExclusiveZone(5)])
        }
        _ => panic!("no request"),
    }
    assert!(matches!(job, Job::Finished));
    assert!(context.waiting_layer_shell_actions.is_empty());
}

#[test]
fn tasks_can_close_the_window() {
    let mut context = ready();
    for action in [Action::Exit, Action::Window(WindowAction::Close(Id::unique()))] {
        let (job, effects) = begin(&mut context, WaitingLayerShellEvent::UserAction(action));
        assert!(matches!(job, Job::Finished));
        assert!(matches!(effects[..], [Effect::Return(ReturnData::RequestExit)]));
    }
}

#[test]
fn other_actions_are_left_to_the_runtime() {
    let mut context = ready();
    let action = Action::Window(WindowAction::Screenshot(context.iced_id, 'c'));
    let (job, effects) = begin(&mut context, WaitingLayerShellEvent::UserAction(action));
    assert!(matches!(job, Job::Finished));
    assert!(matches!(effects[..], [Effect::Run(RunEffect::Screenshot { channel: 'c' })]));
    let (job, effects) =
        begin(&mut context, WaitingLayerShellEvent::UserAction(Action::System));
    assert!(matches!(job, Job::Finished));
    assert!(effects.is_empty());
}

#[test]
fn operations_of_a_chain_follow_each_other() {
    let mut context = ready();
    let (job, effects) =
        begin(&mut context, WaitingLayerShellEvent::UserAction(Action::Widget('a')));
    assert!(matches!(
        effects[..],
        [Effect::Run(RunEffect::Operate { operation: 'a', on_interface: false })]
    ));
    context.build_interface(None, |_: &u32, _: Cache| String::from("view"));
    let (job, effects) = context.resume(job, Reply::Operated(Outcome::Chain('b')));
    assert!(matches!(
        effects[..],
        [Effect::Run(RunEffect::Operate { operation: 'b', on_interface: true })]
    ));
    let (job, effects) = context.resume(job, Reply::Operated(Outcome::Message));
    assert!(matches!(job, Job::Finished));
    assert!(effects.is_empty());
}

#[test]
fn dispatch_without_anything_pending_does_nothing() {
    let mut context = ready();
    let (job, effects) = begin(&mut context, WaitingLayerShellEvent::NormalDispatch);
    assert!(matches!(job, Job::Finished));
    match &effects[..] {
        [Effect::Dispatch(parts)] => assert!(parts.is_empty()),
        _ => panic!("no dispatch"),
    }
}

#[test]
fn dispatch_feeds_the_application_and_builds_again() {
    let mut context = ready();
    context.build_interface(None, |application: &u32, _: Cache| format!("{application}"));
    context.iced_events.push("key");
    let (job, effects) = begin(&mut context, WaitingLayerShellEvent::NormalDispatch);
    match &effects[..] {
        [Effect::Dispatch(parts)] => {
            assert!(matches!(parts[..], [DispatchEffect::UpdateInterface]))
        }
        _ => panic!("no dispatch"),
    }
    let reply = DispatchReply::Updated {
        state: InterfaceState::Updated { redraw_requested: true },
        statuses: vec![Status::Captured],
        produced: vec![Message::Tick(9)],
    };
    let (job, _) = context.resume(job, Reply::Dispatch(reply));
    assert!(context.iced_events.is_empty());
    let (cache, _) = context.user_interface.extract(|_: String| Cache::default());
    let reply = DispatchReply::Extracted { cache };
    let (job, effects) = context.resume(job, Reply::Dispatch(reply));
    match &effects[..] {
        [Effect::Dispatch(parts)] => assert!(matches!(
            parts[..],
            [DispatchEffect::Update(UpdateEffect::Feed(Message::Tick(9)))]
        )),
        _ => panic!("no dispatch"),
    }
    assert!(context.messages.is_empty());
    let reply = DispatchReply::Fed { stream: Some(-1) };
    let (job, effects) = context.resume(job, Reply::Dispatch(reply));
    match &effects[..] {
        [Effect::Dispatch(parts)] => assert!(matches!(
            parts[..],
            [
                DispatchEffect::Update(UpdateEffect::RunStream(-1)),
                DispatchEffect::Update(UpdateEffect::Synchronize),
                DispatchEffect::Update(UpdateEffect::TrackSubscription),
                DispatchEffect::Update(UpdateEffect::ReadTitle)
            ]
        )),
        _ => panic!("no dispatch"),
    }
    let reply = DispatchReply::Title { title: String::from("new title") };
    let (job, effects) = context.resume(job, Reply::Dispatch(reply));
    match &effects[..] {
        [Effect::Dispatch(parts)] => match &parts[..] {
            [DispatchEffect::Update(UpdateEffect::SetTitle(title)), DispatchEffect::ReadShouldExit] => {
                assert_eq!(title, "new title")
            }
            _ => panic!("no title"),
        },
        _ => panic!("no dispatch"),
    }
    assert_eq!(context.title, "new title");
    let reply = DispatchReply::ShouldExit { exit: true };
    let (job, effects) = context.resume(job, Reply::Dispatch(reply));
    assert!(matches!(job, Job::Finished));
    match &effects[..] {
        [Effect::Dispatch(parts)] => assert!(matches!(
            parts[..],
            [
                DispatchEffect::BuildInterface { cache: Some(_) },
                DispatchEffect::RequestRefresh,
                DispatchEffect::RequestExit
            ]
        )),
        _ => panic!("no dispatch"),
    }
}

/// The parts of the refresh that a refresh event asks for.
fn refresh_parts(context: &mut Context<Plain>) -> Vec<RefreshEffect> {
    let event = WaitingLayerShellEvent::Window(LayerWindowEvent::Refresh);
    let (mut job, _) = begin(context, event);
    let answers = vec![
        Reply::WindowSize { width: 3, height: 4 },
        refresh_reply(RefreshReply::Viewport { width: 3, height: 4, scale_changed: false }),
        refresh_reply(RefreshReply::Updated { statuses: Vec::new() }),
        refresh_reply(RefreshReply::Drawn { interaction: Interaction::Idle, pointer: false }),
        refresh_reply(RefreshReply::Presented),
    ];
    let mut all = Vec::new();
    for answer in answers {
        let (next, effects) = context.resume(job, answer);
        job = next;
        for effect in effects {
            match effect {
                Effect::Refresh(parts) => all.extend(parts),
                _ => panic!("no refresh"),
            }
        }
        if all.contains(&RefreshEffect::BuildInterface) && !context.user_interface.is_built() {
            context.build_interface(None, |_: &u32, _: Cache| String::from("view"));
        }
    }
    assert!(matches!(job, Job::Finished));
    all
}

#[test]
fn only_the_first_refresh_opens_the_window() {
    let mut context = ready();
    assert_eq!(
        refresh_parts(&mut context),
        vec![
            RefreshEffect::UpdateViewport { width: 3, height: 4 },
            RefreshEffect::BuildInterface,
            RefreshEffect::ConfigureSurface,
            RefreshEffect::CompareViewport,
            RefreshEffect::UpdateInterface { opened: true },
            RefreshEffect::Broadcast { event: RefreshEvent::Opened, status: Status::Ignored },
            RefreshEffect::Broadcast {
                event: RefreshEvent::RedrawRequested,
                status: Status::Ignored
            },
            RefreshEffect::Draw,
            RefreshEffect::Present
        ]
    );
    assert!(context.user_interface.is_built());
    begin(&mut context, WaitingLayerShellEvent::UserAction(Action::System));
    assert_eq!(
        refresh_parts(&mut context),
        vec![
            RefreshEffect::CompareViewport,
            RefreshEffect::UpdateInterface { opened: false },
            RefreshEffect::Broadcast {
                event: RefreshEvent::RedrawRequested,
                status: Status::Ignored
            },
            RefreshEffect::Draw,
            RefreshEffect::Present
        ]
    );
    assert!(context.user_interface.is_built());
}

#[test]
fn dispatch_without_interface_asks_for_a_refresh() {
    let mut context = ready();
    context.messages.push(Message::Tick(1));
    let (job, effects) = begin(&mut context, WaitingLayerShellEvent::NormalDispatch);
    assert!(matches!(job, Job::Finished));
    match &effects[..] {
        [Effect::Dispatch(parts)] => {
            assert!(matches!(parts[..], [DispatchEffect::RequestRefresh]))
        }
        _ => panic!("no dispatch"),
    }
    assert_eq!(context.messages, vec![Message::Tick(1)]);
}

#[test]
fn job_accepts_only_the_answer_that_it_waits_for() {
    let size = Reply::<Plain>::WindowSize { width: 1, height: 1 };
    let operated = Reply::<Plain>::Operated(Outcome::Nothing);
    assert!(Job::<Plain>::Measuring.accepts(&size));
    assert!(!Job::<Plain>::Measuring.accepts(&operated));
    assert!(Job::<Plain>::Operating.accepts(&operated));
    assert!(!Job::<Plain>::Operating.accepts(&size));
    assert!(Job::<Plain>::Converting.accepts(&Reply::Converted(None)));
    assert!(!Job::<Plain>::Resolving(Vec::new()).accepts(&size));
    assert!(!Job::<Plain>::Finished.accepts(&size));
    let refresh = || Job::<Plain>::Refresh(Refresh::Presenting);
    assert!(refresh().accepts(&refresh_reply(RefreshReply::Presented)));
    let updated = || RefreshReply::Updated { statuses: Vec::new() };
    assert!(!refresh().accepts(&refresh_reply(updated())));
    let dispatch = || Job::<Plain>::Dispatch(Dispatch::Extracting { feed: true });
    let extracted = DispatchReply::Extracted { cache: None };
    assert!(dispatch().accepts(&Reply::Dispatch(extracted)));
    let fed = DispatchReply::Fed { stream: None };
    assert!(!dispatch().accepts(&Reply::Dispatch(fed)));
}

#[test]
fn events_keep_the_compositor_and_the_application() {
    let mut context = ready();
    let id = context.iced_id;
    begin(&mut context, WaitingLayerShellEvent::UpdateInputRegion("one"));
    begin(&mut context, WaitingLayerShellEvent::UpdateInputRegion("two"));
    begin(&mut context, WaitingLayerShellEvent::UserAction(Action::System));
    assert_eq!(context.wl_input_region, Some("two"));
    assert_eq!(context.compositor_context, Some("compositor"));
    assert_eq!(context.iced_id, id);
    assert_eq!(*context.user_interface.application(), 7);
}

/// Dispatches, with the messages that the interface produces, and tells which messages were fed.
fn fed_by_dispatch(context: &mut Context<Plain>, produced: Vec<Message>) -> Vec<Message> {
    let mut produced = Some(produced);
    let mut fed = Vec::new();
    let (mut job, mut effects) = begin(context, WaitingLayerShellEvent::NormalDispatch);
    loop {
        let mut answer = None;
        for effect in effects {
            match effect {
                Effect::Dispatch(parts) => {
                    for part in parts {
                        match part {
                            DispatchEffect::UpdateInterface => {
                                answer = Some(DispatchReply::Updated {
                                    state: InterfaceState::Updated { redraw_requested: false },
                                    statuses: Vec::new(),
                                    produced: produced.take().unwrap(),
                                });
                            }
                            DispatchEffect::Extract => {
                                let (cache, _) =
                                    context.user_interface.extract(|_: String| Cache::default());
                                answer = Some(DispatchReply::Extracted { cache });
                            }
                            DispatchEffect::Update(UpdateEffect::Feed(message)) => {
                                fed.push(message);
                                answer = Some(DispatchReply::Fed { stream: None });
                            }
                            DispatchEffect::Update(UpdateEffect::ReadTitle) => {
                                answer = Some(DispatchReply::Title { title: String::new() });
                            }
                            DispatchEffect::ReadShouldExit => {
                                answer = Some(DispatchReply::ShouldExit { exit: false });
                            }
                            DispatchEffect::BuildInterface { cache } => {
                                context.build_interface(cache, |_: &u32, _: Cache| {
                                    String::from("view")
                                });
                            }
                            _ => {}
                        }
                    }
                }
                _ => panic!("no dispatch"),
            }
        }
        if matches!(job, Job::Finished) {
            return fed;
        }
        (job, effects) = context.resume(job, Reply::Dispatch(answer.unwrap()));
    }
}

#[test]
fn outputs_are_fed_once_by_the_next_dispatch() {
    let mut context = ready();
    context.build_interface(None, |_: &u32, _: Cache| String::from("view"));
    for code in [1, 2] {
        let action = Action::Output(Message::Tick(code));
        begin(&mut context, WaitingLayerShellEvent::UserAction(action));
    }
    assert_eq!(
        fed_by_dispatch(&mut context, vec![Message::Tick(3)]),
        vec![Message::Tick(1), Message::Tick(2), Message::Tick(3)]
    );
    assert!(context.messages.is_empty());
    assert!(context.user_interface.is_built());
    assert_eq!(fed_by_dispatch(&mut context, Vec::new()), Vec::new());
    let action = Action::Output(Message::Tick(4));
    begin(&mut context, WaitingLayerShellEvent::UserAction(action));
    assert_eq!(fed_by_dispatch(&mut context, Vec::new()), vec![Message::Tick(4)]);
}

#[test]
fn outputs_wait_while_no_interface_is_built() {
    let mut context = ready();
    let action = Action::Output(Message::Tick(1));
    begin(&mut context, WaitingLayerShellEvent::UserAction(action));
    assert_eq!(fed_by_dispatch(&mut context, Vec::new()), Vec::new());
    assert_eq!(context.messages, vec![Message::Tick(1)]);
}

#[test]
fn action_of_the_event_is_resolved_after_those_that_waited() {
    let mut context = ready();
    context.waiting_layer_shell_actions.push(LayershellCustomActions::ExclusiveZoneChange(5));
    let action = Action::Output(Message::Resize(3, 4));
    let (mut job, _) = begin(&mut context, WaitingLayerShellEvent::UserAction(action));
    let mut calls = Vec::new();
    while !matches!(job, Job::Finished) {
        let (next, effects) = context.resume(job, Reply::WindowSize { width: 1, height: 1 });
        job = next;
        for effect in effects {
            if let Effect::Window(requests) = effect {
                calls.extend(requests);
            }
        }
    }
    assert_eq!(
        calls,
        vec![WindowRequest::SetExclusiveZone(5), WindowRequest::SetSize((3, 4))]
    );
}
